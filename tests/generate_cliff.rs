use cosmos_tools::commands::vesting::generate_cliff::GenerateCliffCmd;
use cosmos_tools::commands::vesting::{VestingCmd, VestingSubCmd};
use cosmos_tools::commands::{CosmosToolsCmd, EntryPoint, CONFIG_FILE};
use cosmos_tools::config::CosmosToolsConfig;
use cosmos_tools::schedule::{Period, ScheduleError};

fn two_years(cliff_duration: u64) -> GenerateCliffCmd {
    GenerateCliffCmd {
        total_amount: 40000,
        interval: 86400,    // 1 day interval
        duration: 63072000, // 2 years
        cliff_duration,
        output: None,
        denom: None,
    }
}

fn single_period(denom: Option<&str>) -> GenerateCliffCmd {
    GenerateCliffCmd {
        total_amount: 40000,
        interval: 1000,
        duration: 1000,
        cliff_duration: 0,
        output: None,
        denom: denom.map(|d| d.to_string()),
    }
}

fn uknow_config() -> CosmosToolsConfig {
    let mut config = CosmosToolsConfig::default();
    config.vesting.denom = "uknow".to_string();
    config
}

fn sum(periods: &[Period]) -> u128 {
    periods.iter().map(|p| p.amount.amount).sum()
}

fn entry(cmd: GenerateCliffCmd) -> EntryPoint {
    EntryPoint {
        cmd: CosmosToolsCmd::Vesting(VestingCmd {
            cmd: VestingSubCmd::GenerateCliff(cmd),
        }),
        verbose: false,
        config: None,
    }
}

fn expect_single(periods: &[Period], denom: &str) {
    assert_eq!(periods.len(), 1);
    assert_eq!(periods[0].length.to_string(), "1000");
    assert_eq!(periods[0].amount.denom, denom);
    assert_eq!(periods[0].amount.amount.to_string(), "40000");
}

#[test]
fn generate_cliff_test_initial_vest_without_cliff() {
    let cmd = two_years(0);
    let result = cmd.get_vested_coin(cmd.interval);
    assert_eq!(result, 54, "First vesting should be equal 54");
}

#[test]
fn generate_cliff_test_initial_vest_with_cliff() {
    let cmd = two_years(15768000); // 6 month cliff
    let mut result = cmd.get_vested_coin(cmd.interval);
    assert_eq!(
        result, 0,
        "First vesting should be equal 0, since cliff has not been start"
    );
    result = cmd.get_vested_coin(15811200);
    assert_eq!(result, 10027);
}

#[test]
fn generate_cliff_test_build_periods_without_cliff() {
    let cmd = two_years(0);
    let result = cmd.build_periods(&uknow_config()).unwrap();
    assert_eq!(
        result.len(),
        730,
        "Should be 730 interval since there are 730 day in two years"
    );
    assert_eq!(
        sum(&result),
        cmd.total_amount,
        "The total amount cumuled period should be equal to the total amount configured."
    );
}

#[test]
fn generate_cliff_test_build_periods_with_cliff() {
    let cmd = two_years(15768000);
    let result = cmd.build_periods(&uknow_config()).unwrap();
    assert_eq!(result.len(), 548);
    assert_eq!(sum(&result), cmd.total_amount);
}

#[test]
fn generate_with_args() {
    let ep = entry(single_period(None));
    let config = ep.process_config(CosmosToolsConfig::default());
    let periods = single_period(None).build_periods(&config).unwrap();
    expect_single(&periods, "uknow");
}

#[test]
fn generate_with_args_denom() {
    let ep = entry(single_period(Some("stake")));
    let config = ep.process_config(CosmosToolsConfig::default());
    let periods = single_period(Some("stake")).build_periods(&config).unwrap();
    expect_single(&periods, "stake");
}

#[test]
fn generate_with_config_no_args_denom() {
    let mut config = CosmosToolsConfig::default();
    config.vesting.denom = "toto".to_owned();
    let ep = entry(single_period(None));
    let config = ep.process_config(config);
    let periods = single_period(None).build_periods(&config).unwrap();
    expect_single(&periods, "toto");
}

#[test]
fn generate_with_config_args_denom() {
    let mut config = CosmosToolsConfig::default();
    config.vesting.denom = "toto".to_owned();
    let ep = entry(single_period(Some("tata")));
    let config = ep.process_config(config);
    let periods = single_period(Some("tata")).build_periods(&config).unwrap();
    expect_single(&periods, "tata");
}

#[test]
fn cliff_boundary_on_interval_keeps_vested_amount() {
    // The cliff falls on the end of period 2; period 3 comes first and carries all that
    // has vested by its end.
    let cmd = GenerateCliffCmd {
        total_amount: 100,
        interval: 10,
        duration: 100,
        cliff_duration: 20,
        output: None,
        denom: None,
    };
    let result = cmd.build_periods(&uknow_config()).unwrap();
    assert_eq!(result.len(), 8);
    assert_eq!((result[0].length, result[0].amount.amount), (30, 30));
    assert_eq!((result[1].length, result[1].amount.amount), (40, 10));
    assert_eq!(sum(&result), 100);
}

#[test]
fn cliff_at_horizon_gives_no_period() {
    let cmd = GenerateCliffCmd {
        total_amount: 100,
        interval: 10,
        duration: 10,
        cliff_duration: 10,
        output: None,
        denom: None,
    };
    assert!(cmd.build_periods(&uknow_config()).unwrap().is_empty());
}

#[test]
fn cliff_rejects_zero_interval() {
    let mut cmd = two_years(0);
    cmd.interval = 0;
    assert_eq!(
        cmd.build_periods(&uknow_config()).unwrap_err(),
        ScheduleError::ZeroInterval
    );
}

#[test]
fn vested_curve_edges() {
    let cmd = two_years(15768000);
    assert_eq!(cmd.get_vested_coin(0), 0);
    assert_eq!(cmd.get_vested_coin(15767999), 0);
    assert_eq!(cmd.get_vested_coin(63072000), 40000);
    assert_eq!(cmd.get_vested_coin(u64::MAX), 40000);
    let mut last = 0;
    for t in (0..=63072000u64).step_by(86400 * 7) {
        let v = cmd.get_vested_coin(t);
        assert!(v >= last);
        last = v;
    }
}

#[test]
fn vested_curve_exact_at_largest_total() {
    let cmd = GenerateCliffCmd {
        total_amount: u128::MAX,
        interval: 1,
        duration: u64::MAX,
        cliff_duration: 0,
        output: None,
        denom: None,
    };
    // u128::MAX * (2^64 - 2) / (2^64 - 1) == u128::MAX - (2^64 + 1)
    assert_eq!(cmd.get_vested_coin(u64::MAX - 1), u128::MAX - (1u128 << 64) - 1);
}

#[test]
fn config_file_choice() {
    let mut ep = entry(single_period(None));
    assert_eq!(ep.config_path(), CONFIG_FILE);
    ep.config = Some("other.toml".to_string());
    assert_eq!(ep.config_path(), "other.toml");
}

#[test]
fn default_denom_is_uknow() {
    assert_eq!(CosmosToolsConfig::default().vesting.denom, "uknow");
}
