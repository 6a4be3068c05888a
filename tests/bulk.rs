use climate_bulk::classify;
use climate_bulk::fetch_target;
use climate_bulk::file_name;
use climate_bulk::parse_timeframe;
use climate_bulk::target_path;
use climate_bulk::target_url;
use climate_bulk::ConfigError;
use climate_bulk::Response;
use climate_bulk::Run;
use climate_bulk::RunConfig;
use climate_bulk::RunStatus;
use climate_bulk::Timeframe;
use climate_bulk::Verdict;

fn config(start: &str, end: &str, station: &str, timeframe: &str) -> Result<RunConfig, ConfigError> {
    RunConfig::from_args(start, end, station, timeframe, ".", "12000", "12000")
}

#[test]
fn timeframe_keywords_map_to_codes() {
    assert_eq!(parse_timeframe("hour"), Some(Timeframe::Hour));
    assert_eq!(parse_timeframe("day"), Some(Timeframe::Day));
    assert_eq!(parse_timeframe("month"), Some(Timeframe::Month));
    assert_eq!(Timeframe::Hour.code(), 1);
    assert_eq!(Timeframe::Day.code(), 2);
    assert_eq!(Timeframe::Month.code(), 3);
}

#[test]
fn unknown_timeframe_is_refused() {
    assert_eq!(parse_timeframe("week"), None);
    assert_eq!(parse_timeframe("Hour"), None);
    assert_eq!(parse_timeframe(""), None);
    assert_eq!(parse_timeframe("months"), None);
    assert!(matches!(config("2020", "2021", "1234", "week"), Err(ConfigError::BadTimeframe)));
    // The timeframe is checked before anything else.
    assert!(matches!(config("x", "y", "", "yearly"), Err(ConfigError::BadTimeframe)));
}

#[test]
fn valid_options_build_a_config() {
    let c = RunConfig::from_args("2019", "2020", "1234", "day", "/tmp/out", "5000", "7000").unwrap();
    assert_eq!(c.start_year, 2019);
    assert_eq!(c.end_year, 2020);
    assert_eq!(c.station, "1234");
    assert_eq!(c.timeframe, Timeframe::Day);
    assert_eq!(c.directory, "/tmp/out");
    assert_eq!(c.connect_timeout_ms, 5000);
    assert_eq!(c.receive_timeout_ms, 7000);
}

#[test]
fn years_parse_like_unsigned_sixteen_bit_integers() {
    assert_eq!(config("+2020", "2020", "1", "hour").unwrap().start_year, 2020);
    assert_eq!(config("0", "65535", "1", "hour").unwrap().end_year, 65535);
    assert!(matches!(config("65536", "70000", "1", "hour"), Err(ConfigError::BadStartYear)));
    assert!(matches!(config("-1", "2020", "1", "hour"), Err(ConfigError::BadStartYear)));
    assert!(matches!(config("20x0", "2020", "1", "hour"), Err(ConfigError::BadStartYear)));
    assert!(matches!(config("+", "2020", "1", "hour"), Err(ConfigError::BadStartYear)));
    assert!(matches!(config("", "2020", "1", "hour"), Err(ConfigError::BadStartYear)));
    assert!(matches!(config("2020", "abc", "1", "hour"), Err(ConfigError::BadEndYear)));
    assert!(matches!(config("2020", " 2021", "1", "hour"), Err(ConfigError::BadEndYear)));
}

#[test]
fn other_option_errors() {
    assert!(matches!(config("2021", "2020", "1", "hour"), Err(ConfigError::YearsOutOfOrder)));
    assert!(matches!(config("2020", "2020", "", "hour"), Err(ConfigError::EmptyStation)));
    assert!(matches!(
        RunConfig::from_args("2020", "2020", "1", "hour", ".", "12s", "12000"),
        Err(ConfigError::BadConnectTimeout)
    ));
    assert!(matches!(
        RunConfig::from_args("2020", "2020", "1", "hour", ".", "12000", "-5"),
        Err(ConfigError::BadReceiveTimeout)
    ));
    let c = RunConfig::from_args("2020", "2020", "1", "hour", ".", "18446744073709551615", "0")
        .unwrap();
    assert_eq!(c.connect_timeout_ms, u64::MAX);
    assert!(matches!(
        RunConfig::from_args("2020", "2020", "1", "hour", ".", "18446744073709551616", "0"),
        Err(ConfigError::BadConnectTimeout)
    ));
}

#[test]
fn url_has_the_documented_form() {
    assert_eq!(
        target_url("1234", 2020, 5, Timeframe::Month),
        "https://climate.weather.gc.ca/climate_data/bulk_data_e.html?format=csv&stationID=1234&Year=2020&Month=5&Day=1&time=UTC&timeframe=3&submit=%20Download+Data"
    );
    assert_eq!(
        target_url("51442", 1999, 12, Timeframe::Hour),
        "https://climate.weather.gc.ca/climate_data/bulk_data_e.html?format=csv&stationID=51442&Year=1999&Month=12&Day=1&time=UTC&timeframe=1&submit=%20Download+Data"
    );
}

#[test]
fn url_is_deterministic_and_distinguishes_inputs() {
    let a = target_url("1234", 2020, 1, Timeframe::Day);
    assert_eq!(a, target_url("1234", 2020, 1, Timeframe::Day));
    assert_ne!(a, target_url("1234", 2020, 11, Timeframe::Day));
    assert_ne!(a, target_url("1234", 2021, 1, Timeframe::Day));
    assert_ne!(a, target_url("1234", 2020, 1, Timeframe::Hour));
    assert_ne!(a, target_url("12345", 2020, 1, Timeframe::Day));
    assert_ne!(target_url("1", 2020, 1, Timeframe::Day), target_url("12", 20, 1, Timeframe::Day));
}

#[test]
fn file_name_has_no_padding() {
    assert_eq!(file_name("1234", Timeframe::Month, 2020, 5), "1234_3_2020-5.csv");
    assert_eq!(file_name("77", Timeframe::Hour, 7, 10), "77_1_7-10.csv");
    assert_eq!(target_path(".", "1234", Timeframe::Month, 2020, 5), "./1234_3_2020-5.csv");
    assert_eq!(target_path("/data", "1234", Timeframe::Day, 0, 12), "/data/1234_2_0-12.csv");
}

#[test]
fn fetch_target_uses_the_config() {
    let c = RunConfig::from_args("2020", "2020", "1234", "month", "out", "1", "1").unwrap();
    let t = fetch_target(&c, 2020, 5);
    assert_eq!(t.url, target_url("1234", 2020, 5, Timeframe::Month));
    assert_eq!(t.path, "out/1234_3_2020-5.csv");
}

#[test]
fn responses_are_classified() {
    let data = Response::Delivered { content_type: Some("application/octet-stream".to_string()) };
    assert_eq!(classify(&data), Verdict::Save);
    let csv = Response::Delivered { content_type: Some("application/csv; charset=utf-8".to_string()) };
    assert_eq!(classify(&csv), Verdict::Save);
    let page = Response::Delivered { content_type: Some("text/html".to_string()) };
    assert_eq!(classify(&page), Verdict::StopRun);
    let short = Response::Delivered { content_type: Some("applicatio".to_string()) };
    assert_eq!(classify(&short), Verdict::StopRun);
    let bare = Response::Delivered { content_type: None };
    assert_eq!(classify(&bare), Verdict::StopRun);
    assert_eq!(classify(&Response::Status { code: 404 }), Verdict::Fail { code: 404 });
    assert_eq!(classify(&Response::Transport), Verdict::Skip);
}

#[test]
fn months_come_in_order() {
    let mut run = Run::new(2019, 2020);
    let mut seen = Vec::new();
    while let Some(pair) = run.pending() {
        seen.push(pair);
        run.record(Verdict::Save);
    }
    assert_eq!(seen.len(), 24);
    assert_eq!(seen[0], (2019, 1));
    assert_eq!(seen[11], (2019, 12));
    assert_eq!(seen[12], (2020, 1));
    assert_eq!(seen[23], (2020, 12));
}

#[test]
fn full_success_attempts_every_month() {
    let mut run = Run::new(2010, 2012);
    assert_eq!(run.total_months(), 36);
    while run.pending().is_some() {
        run.record(Verdict::Save);
    }
    assert_eq!(run.status, RunStatus::Completed);
    assert_eq!(run.attempts, 36);
    assert_eq!(run.saved, 36);
}

#[test]
fn widest_range_counts_all_months() {
    let run = Run::new(0, 65535);
    assert_eq!(run.total_months(), 786432);
    assert_eq!(Run::new(2000, 2000).total_months(), 12);
}

#[test]
fn html_page_stops_the_run() {
    let mut run = Run::new(2020, 2021);
    run.record(Verdict::Save);
    run.record(Verdict::Save);
    let page = Response::Delivered { content_type: Some("text/html".to_string()) };
    let v = classify(&page);
    assert_ne!(v, Verdict::Save);
    run.record(v);
    assert_eq!(run.status, RunStatus::Stopped);
    assert_eq!(run.pending(), None);
    assert_eq!(run.attempts, 3);
    assert_eq!(run.saved, 2);
    run.record(Verdict::Save);
    assert_eq!(run.attempts, 3);
    assert_eq!(run.saved, 2);
}

#[test]
fn error_status_fails_the_run() {
    let mut run = Run::new(2020, 2021);
    for _ in 0..13 {
        run.record(Verdict::Save);
    }
    assert_eq!(run.pending(), Some((2021, 2)));
    run.record(classify(&Response::Status { code: 404 }));
    assert_eq!(run.status, RunStatus::Failed { year: 2021, month: 2, code: 404 });
    assert_eq!(run.pending(), None);
    assert_eq!(run.attempts, 14);
    assert_eq!(run.saved, 13);
}

#[test]
fn transport_error_skips_one_month() {
    let mut run = Run::new(2020, 2020);
    let mut k = 0;
    while let Some(pair) = run.pending() {
        if k == 4 {
            assert_eq!(pair, (2020, 5));
            run.record(classify(&Response::Transport));
            assert_eq!(run.status, RunStatus::Running);
            assert_eq!(run.pending(), Some((2020, 6)));
        } else {
            run.record(Verdict::Save);
        }
        k += 1;
    }
    assert_eq!(k, 12);
    assert_eq!(run.status, RunStatus::Completed);
    assert_eq!(run.attempts, 12);
    assert_eq!(run.saved, 11);
}

#[test]
fn transport_error_on_last_month_still_completes() {
    let mut run = Run::new(2020, 2020);
    for _ in 0..11 {
        run.record(Verdict::Save);
    }
    run.record(Verdict::Skip);
    assert_eq!(run.status, RunStatus::Completed);
    assert_eq!(run.saved, 11);
    assert_eq!(run.attempts, 12);
}
