use gemini_fastapi_rs::config::WarmGenerateConfig;
use gemini_fastapi_rs::warmup::{
    generate_warmup_schedule, minute_in_period, parse_hhmm, parse_warm_period,
    session_warmup_period, warm_generate_active_at, warm_generate_active_at_clock,
    warm_generate_active_now,
};

fn periods(values: &[&str]) -> Vec<String> {
    values.iter().map(|value| (*value).to_string()).collect()
}

#[test]
fn warm_period_supports_same_day_window() {
    let config = periods(&["09:00-18:00"]);
    assert!(warm_generate_active_at(&config, 9 * 60));
    assert!(warm_generate_active_at(&config, 17 * 60 + 59));
    assert!(!warm_generate_active_at(&config, 18 * 60));
}

#[test]
fn warm_period_supports_midnight_crossing_window() {
    let config = periods(&["07:00-01:30"]);
    assert!(warm_generate_active_at(&config, 23 * 60));
    assert!(warm_generate_active_at(&config, 60));
    assert!(!warm_generate_active_at(&config, 2 * 60));
}

#[test]
fn warm_period_ignores_invalid_windows() {
    let config = periods(&["bad", "25:00-26:00"]);
    assert!(!warm_generate_active_at(&config, 12 * 60));
}

#[test]
fn times_are_read_strictly() {
    assert_eq!(parse_hhmm("00:00"), Some(0));
    assert_eq!(parse_hhmm("23:59"), Some(1439));
    assert_eq!(parse_hhmm("+7:05"), Some(425));
    assert_eq!(parse_hhmm("24:00"), None);
    assert_eq!(parse_hhmm("12:60"), None);
    assert_eq!(parse_hhmm("12"), None);
    assert_eq!(parse_hhmm("12:"), None);
    assert_eq!(parse_hhmm(" 1:00"), None);
    assert_eq!(parse_hhmm("-1:00"), None);
    assert_eq!(parse_hhmm("4294967297:00"), None);
    assert_eq!(parse_warm_period(" 07:00 - 01:30 "), Some((420, 90)));
    assert_eq!(parse_warm_period("07:00"), None);
}

#[test]
fn period_and_its_rest_share_the_day() {
    for now in 0..1440 {
        assert!(minute_in_period(now, 420, 90) != minute_in_period(now, 90, 420));
        assert!(minute_in_period(now, 300, 300));
    }
}

#[test]
fn clocks_are_read_by_hour_and_minute() {
    let afternoon = periods(&["13:00-14:00"]);
    assert!(warm_generate_active_at_clock(&afternoon, 13, 20));
    assert!(!warm_generate_active_at_clock(&afternoon, 0, 20));
    assert!(!warm_generate_active_at_clock(&afternoon, 14, 0));
    assert!(warm_generate_active_at_clock(&[], 23, 59));
}

#[test]
fn no_periods_mean_always() {
    assert!(warm_generate_active_now(&[]));
    assert!(warm_generate_active_now(&periods(&["00:00-12:00", "12:00-00:00"])));
    assert!(!warm_generate_active_now(&periods(&["never"])));
}

#[test]
fn warmups_keep_a_minimal_distance() {
    assert_eq!(session_warmup_period(600), 540);
    assert_eq!(session_warmup_period(119), 60);
    assert_eq!(session_warmup_period(0), 60);
    let mut config = WarmGenerateConfig {
        enabled: true,
        interval: 5,
        initial_delay: 100,
        model: "m".to_string(),
        prompt: "p".to_string(),
        active_periods: Vec::new(),
    };
    let schedule = generate_warmup_schedule(&config).unwrap();
    assert_eq!(schedule.interval_secs, 60);
    assert_eq!(schedule.initial_delay_secs, 60);
    config.interval = 300;
    config.initial_delay = 20;
    let schedule = generate_warmup_schedule(&config).unwrap();
    assert_eq!(schedule.interval_secs, 300);
    assert_eq!(schedule.initial_delay_secs, 20);
    config.enabled = false;
    assert!(generate_warmup_schedule(&config).is_none());
}
