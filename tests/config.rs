use url_checker::config::{parse_output_format, validate_config, ConfigError, OutputFormat};
use url_checker::models::Config;

fn raw(urls: &[&str], interval: u64, format: &str) -> Config {
    Config {
        urls_to_check: urls.iter().map(|u| u.to_string()).collect(),
        csv_file_path: "status.csv".to_string(),
        json_file_path: "status.json".to_string(),
        ping_interval_seconds: interval,
        output_format: format.to_string(),
    }
}

#[test]
fn output_format_names_ignore_case() {
    assert_eq!(parse_output_format("csv"), Some(OutputFormat::Csv));
    assert_eq!(parse_output_format("CSV"), Some(OutputFormat::Csv));
    assert_eq!(parse_output_format("cSv"), Some(OutputFormat::Csv));
    assert_eq!(parse_output_format("json"), Some(OutputFormat::Json));
    assert_eq!(parse_output_format("JSON"), Some(OutputFormat::Json));
    assert_eq!(parse_output_format("Json"), Some(OutputFormat::Json));
}

#[test]
fn output_format_unknown_names() {
    assert_eq!(parse_output_format(""), None);
    assert_eq!(parse_output_format("xml"), None);
    assert_eq!(parse_output_format("csv "), None);
    assert_eq!(parse_output_format("jsonl"), None);
    assert_eq!(parse_output_format("cs"), None);
}

#[test]
fn valid_config_is_accepted() {
    let p = validate_config(raw(&["https://example.com"], 5, "CSV")).unwrap();
    assert_eq!(p.urls, vec!["https://example.com".to_string()]);
    assert_eq!(p.interval_seconds, 5);
    assert_eq!(p.format, OutputFormat::Csv);
    assert_eq!(p.output_path(), "status.csv");
    let q = validate_config(raw(&["https://a.test", "https://b.test"], 60, "json")).unwrap();
    assert_eq!(q.format, OutputFormat::Json);
    assert_eq!(q.output_path(), "status.json");
}

#[test]
fn config_without_urls_is_refused() {
    assert_eq!(validate_config(raw(&[], 5, "csv")), Err(ConfigError::NoUrls));
    assert_eq!(validate_config(raw(&[], 0, "xml")), Err(ConfigError::NoUrls));
}

#[test]
fn config_with_zero_interval_is_refused() {
    assert_eq!(validate_config(raw(&["https://a.test"], 0, "csv")), Err(ConfigError::ZeroInterval));
    assert_eq!(validate_config(raw(&["https://a.test"], 0, "xml")), Err(ConfigError::ZeroInterval));
}

#[test]
fn config_with_unknown_format_is_refused() {
    assert_eq!(validate_config(raw(&["https://a.test"], 5, "yaml")), Err(ConfigError::UnknownFormat));
}

#[test]
fn tick_from_config_visits_every_url() {
    let p = validate_config(raw(&["https://a.test", "https://b.test"], 5, "csv")).unwrap();
    let tick = p.start_tick();
    assert!(!tick.is_done());
    assert_eq!(tick.current_url(), "https://a.test");
}
