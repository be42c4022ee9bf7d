//! Settings read from the configuration file.
use vstd::prelude::*;

verus! {

/// Denomination used when neither the configuration nor the command names one.
pub const DEFAULT_DENOM: &'static str = "uknow";

/// Denomination in effect: the one a command names, else the configured one.
pub open spec fn overridden_denom(configured: Seq<char>, requested: Option<String>) -> Seq<char> {
    match requested {
        Some(d) => d@,
        None => configured,
    }
}

/// Settings of the application.
#[derive(Clone, Debug)]
pub struct CosmosToolsConfig {
    /// Settings of the vesting commands.
    pub vesting: VestingSection,
}

/// Settings of the vesting commands.
#[derive(Clone, Debug)]
pub struct VestingSection {
    /// Denomination written beside every amount of a schedule.
    pub denom: String,
}

impl CosmosToolsConfig {
    /// These settings with the denomination replaced by `requested` where it is present.
    pub fn with_denom(self, requested: &Option<String>) -> (r: CosmosToolsConfig)
        ensures
            r.vesting.denom@ == overridden_denom(self.vesting.denom@, *requested),
    {
        match requested {
            Some(d) => CosmosToolsConfig { vesting: VestingSection { denom: d.clone() } },
            None => self,
        }
    }
}

impl Default for VestingSection {
    fn default() -> (r: Self)
        ensures
            r.denom@ == DEFAULT_DENOM@,
    {
        VestingSection { denom: DEFAULT_DENOM.to_owned() }
    }
}

impl Default for CosmosToolsConfig {
    fn default() -> (r: Self)
        ensures
            r.vesting.denom@ == DEFAULT_DENOM@,
    {
        CosmosToolsConfig { vesting: VestingSection::default() }
    }
}

} // verus!
