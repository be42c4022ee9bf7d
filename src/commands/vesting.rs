//! `vesting` subcommands.
pub mod generate_cliff;

use crate::commands::vesting::generate_cliff::GenerateCliffCmd;
use crate::config::{overridden_denom, CosmosToolsConfig};
use vstd::prelude::*;

verus! {

/// Subcommands of `vesting`.
#[derive(Clone, Debug)]
pub enum VestingSubCmd {
    /// Build the schedule that starts with the first period after the cliff.
    GenerateCliff(GenerateCliffCmd),
}

/// The `vesting` command.
#[derive(Clone, Debug)]
pub struct VestingCmd {
    /// The subcommand to run.
    pub cmd: VestingSubCmd,
}

impl VestingSubCmd {
    /// Denomination that the subcommand asks for, if any.
    pub open spec fn requested_denom(&self) -> Option<String> {
        match self {
            VestingSubCmd::GenerateCliff(c) => c.denom,
        }
    }
}

impl VestingCmd {
    /// Denomination that the command asks for, if any.
    pub open spec fn requested_denom(&self) -> Option<String> {
        self.cmd.requested_denom()
    }

    /// The configuration with the subcommand's denomination, where it names one.
    pub fn override_config(&self, config: CosmosToolsConfig) -> (r: CosmosToolsConfig)
        ensures
            r.vesting.denom@ == overridden_denom(config.vesting.denom@, self.requested_denom()),
    {
        match &self.cmd {
            VestingSubCmd::GenerateCliff(cmd) => cmd.override_config(config),
        }
    }
}

} // verus!
