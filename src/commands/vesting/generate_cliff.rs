//! `vesting generate-cliff`: the schedule that starts with the first period after the cliff.
use crate::config::{overridden_denom, CosmosToolsConfig};
use crate::schedule::{
    all_in_denom, cliff_schedule, first_after_cliff, lemma_vested_monotone, released_pairs,
    vested, vested_after, vested_amount_at, Period, ScheduleError, Token,
};
use vstd::prelude::*;

verus! {

/// Parameters of a vesting schedule whose periods before the cliff are never evaluated.
#[derive(Clone, Debug)]
pub struct GenerateCliffCmd {
    /// Total number of units to vest.
    pub total_amount: u128,
    /// Seconds between two periods.
    pub interval: u64,
    /// Seconds until everything has vested.
    pub duration: u64,
    /// Seconds before which nothing vests; zero for no cliff.
    pub cliff_duration: u64,
    /// File that receives the schedule; standard output when absent.
    pub output: Option<String>,
    /// Denomination that replaces the configured one.
    pub denom: Option<String>,
}

impl GenerateCliffCmd {
    /// The schedule these parameters describe, through period `n`.
    pub open spec fn schedule_through(&self, n: nat) -> Seq<(int, int)> {
        cliff_schedule(
            self.total_amount as int,
            self.interval as int,
            self.duration as int,
            self.cliff_duration as int,
            n,
        )
    }

    /// The configuration with this command's denomination, where it names one, in place of
    /// the configured one.
    pub fn override_config(&self, config: CosmosToolsConfig) -> (r: CosmosToolsConfig)
        ensures
            r.vesting.denom@ == overridden_denom(config.vesting.denom@, self.denom),
    {
        config.with_denom(&self.denom)
    }

    /// Amount vested after `time` seconds.
    pub fn get_vested_coin(&self, time: u64) -> (r: u128)
        ensures
            r == vested(
                self.total_amount as int,
                self.duration as int,
                self.cliff_duration as int,
                time as int,
            ),
    {
        vested_amount_at(self.total_amount, self.duration, self.cliff_duration, time)
    }

    /// One period for each whole interval of the horizon from the first after the cliff on,
    /// each with what vested since the previous one (the first with all that has vested by
    /// its end), all in the configured denomination.
    pub fn build_periods(&self, config: &CosmosToolsConfig) -> (r: Result<Vec<Period>, ScheduleError>)
        ensures
            self.interval == 0 <==> r is Err,
            r matches Ok(periods) ==> released_pairs(periods@) == self.schedule_through(
                (self.duration / self.interval) as nat,
            ),
            r matches Ok(periods) ==> all_in_denom(periods@, config.vesting.denom@),
    {
        if self.interval == 0 {
            return Err(ScheduleError::ZeroInterval);
        }
        let periods = self.duration / self.interval;
        let skip = self.cliff_duration / self.interval;
        let mut result: Vec<Period> = Vec::new();
        if skip >= periods {
            proof {
                assert(first_after_cliff(self.interval as int, self.cliff_duration as int) > periods);
            }
            assert(released_pairs(result@) =~= self.schedule_through(periods as nat));
            return Ok(result);
        }
        let mut last_vested: u128 = 0;
        let mut i: u64 = skip;
        proof {
            assert(released_pairs(result@) =~= self.schedule_through(i as nat));
        }
        while i < periods
            invariant
                self.interval > 0,
                periods == self.duration / self.interval,
                skip == self.cliff_duration / self.interval,
                skip <= i <= periods,
                released_pairs(result@) == self.schedule_through(i as nat),
                all_in_denom(result@, config.vesting.denom@),
                last_vested == if i == skip {
                    0
                } else {
                    vested_after(
                        self.total_amount as int,
                        self.interval as int,
                        self.duration as int,
                        self.cliff_duration as int,
                        i as int,
                    )
                },
            decreases periods - i,
        {
            i = i + 1;
            proof {
                assert(self.interval * i <= self.interval * periods) by (nonlinear_arith)
                    requires
                        i <= periods,
                ;
                assert(self.interval * periods <= self.duration) by (nonlinear_arith)
                    requires
                        periods == self.duration / self.interval,
                        self.interval > 0,
                ;
                assert(self.interval * (i - 1) <= self.interval * i) by (nonlinear_arith)
                    requires
                        i >= 1,
                ;
            }
            let time = self.interval * i;
            let vested = self.get_vested_coin(time);
            proof {
                if i - 1 != skip {
                    lemma_vested_monotone(
                        self.total_amount,
                        self.duration,
                        self.cliff_duration,
                        (self.interval * (i - 1)) as u64,
                        time,
                    );
                }
            }
            let token = vested - last_vested;
            let period = Period {
                length: time,
                amount: Token { denom: config.vesting.denom.clone(), amount: token },
            };
            let ghost before = result@;
            result.push(period);
            proof {
                assert(released_pairs(result@) =~= released_pairs(before).push(
                    (time as int, token as int),
                ));
            }
            last_vested = vested;
        }
        Ok(result)
    }
}

} // verus!
