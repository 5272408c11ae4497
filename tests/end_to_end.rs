use url_checker::checker::ProbeOutcome;
use url_checker::config::{validate_config, OutputFormat};
use url_checker::csv_log::csv_batch;
use url_checker::models::Config;
use url_checker::schedule::{calculate_next_run_time, calculate_sleep_duration, WallTime};

fn run_tick(
    config: &url_checker::config::PollConfig,
    now: WallTime,
    outcome: ProbeOutcome,
    file: &mut Vec<u8>,
) -> WallTime {
    let wake = calculate_next_run_time(now, config.interval_seconds).unwrap();
    assert!(calculate_sleep_duration(now, wake).is_ok());
    let mut tick = config.start_tick();
    while !tick.is_done() {
        tick.record(outcome, wake.secs);
    }
    file.extend(csv_batch(&tick.into_batch()).unwrap());
    wake
}

#[test]
fn csv_scenario_over_three_ticks() {
    let config = validate_config(Config {
        urls_to_check: vec!["https://example.com".to_string()],
        csv_file_path: "status.csv".to_string(),
        json_file_path: "status.json".to_string(),
        ping_interval_seconds: 5,
        output_format: "csv".to_string(),
    })
    .unwrap();
    assert_eq!(config.format, OutputFormat::Csv);
    let mut file = Vec::new();
    let first = run_tick(&config, WallTime { secs: 1_700_000_001, nanos: 5 }, ProbeOutcome::Response(200), &mut file);
    assert_eq!(first, WallTime { secs: 1_700_000_005, nanos: 0 });
    assert_eq!(file, b"https://example.com,Online,200,1700000005\n".to_vec());
    let second = run_tick(&config, WallTime { secs: 1_700_000_005, nanos: 200 }, ProbeOutcome::TransportFailure, &mut file);
    assert_eq!(second, WallTime { secs: 1_700_000_010, nanos: 0 });
    assert_eq!(
        file,
        b"https://example.com,Online,200,1700000005\nhttps://example.com,Offline,0,1700000010\n".to_vec()
    );
    let third = calculate_next_run_time(WallTime { secs: 1_700_000_010, nanos: 9 }, config.interval_seconds);
    assert_eq!(third, Ok(WallTime { secs: 1_700_000_015, nanos: 0 }));
}
