//! The commands of the application.
pub mod generate;
pub mod vesting;

use crate::commands::generate::GenerateCmd;
use crate::commands::vesting::VestingCmd;
use crate::config::{overridden_denom, CosmosToolsConfig};
use vstd::prelude::*;

verus! {

/// Configuration file read when none is named.
pub const CONFIG_FILE: &'static str = "cosmos_tools.toml";

/// The commands of the application.
#[derive(Clone, Debug)]
pub enum CosmosToolsCmd {
    /// Build the schedule that leaves out the periods that release nothing.
    Generate(GenerateCmd),
    /// Vesting commands.
    Vesting(VestingCmd),
}

/// What the command line asks for.
#[derive(Clone, Debug)]
pub struct EntryPoint {
    /// The command to run.
    pub cmd: CosmosToolsCmd,
    /// Log verbosely.
    pub verbose: bool,
    /// Configuration file to read in place of the default one.
    pub config: Option<String>,
}

impl CosmosToolsCmd {
    /// Denomination that the command asks for, if any.
    pub open spec fn requested_denom(&self) -> Option<String> {
        match self {
            CosmosToolsCmd::Generate(c) => c.denom,
            CosmosToolsCmd::Vesting(c) => c.requested_denom(),
        }
    }
}

impl EntryPoint {
    /// The configuration file to read: the one named on the command line, else the default.
    pub fn config_path(&self) -> (r: String)
        ensures
            r@ == match self.config {
                Some(c) => c@,
                None => CONFIG_FILE@,
            },
    {
        match &self.config {
            Some(c) => c.clone(),
            None => CONFIG_FILE.to_owned(),
        }
    }

    /// The loaded configuration with the denomination that the command asks for, if any.
    pub fn process_config(&self, config: CosmosToolsConfig) -> (r: CosmosToolsConfig)
        ensures
            r.vesting.denom@ == overridden_denom(config.vesting.denom@, self.cmd.requested_denom()),
    {
        match &self.cmd {
            CosmosToolsCmd::Generate(cmd) => cmd.override_config(config),
            CosmosToolsCmd::Vesting(cmd) => cmd.override_config(config),
        }
    }
}

} // verus!
