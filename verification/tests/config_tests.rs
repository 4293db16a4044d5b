use telefax::clock::{today, CalendarDate};
use telefax::config::{parse_date, parse_guest_flag, parse_positive_usize, parse_user_ids, Config, ConfigError, EnvValues, LabelSize};
use telefax::text::chars_of;

fn label(width_px: u32, height_px: u32, w: &str, h: &str, w2: &str, h2: &str) -> LabelSize {
    LabelSize {
        width_px,
        height_px,
        width_text: w.to_string(),
        height_text: h.to_string(),
        width_two_decimals: w2.to_string(),
        height_two_decimals: h2.to_string(),
    }
}

fn standard_label() -> LabelSize {
    label(1200, 1800, "4", "6", "4.00", "6.00")
}

fn config_with(allowed: Vec<i64>, start: Option<CalendarDate>, end: Option<CalendarDate>) -> Config {
    Config {
        telegram_bot_token: "t".to_string(),
        cups_printer_name: "p".to_string(),
        cups_server_host: None,
        allowed_user_ids: allowed,
        allow_guest_printing: true,
        max_copies: 10,
        label: standard_label(),
        rate_limit_override_start: start,
        rate_limit_override_end: end,
    }
}

fn empty_env() -> EnvValues {
    EnvValues {
        telegram_bot_token: None,
        cups_printer_name: None,
        cups_server_host: None,
        allowed_user_ids: None,
        allow_guest_printing: None,
        max_copies: None,
        rate_limit_override_start: None,
        rate_limit_override_end: None,
    }
}

#[test]
fn parse_positive_usize_valid() {
    assert_eq!(parse_positive_usize(Some("50"), 100), 50);
}

#[test]
fn parse_positive_usize_invalid_uses_default() {
    assert_eq!(parse_positive_usize(Some("abc"), 100), 100);
}

#[test]
fn parse_positive_usize_zero_uses_default() {
    assert_eq!(parse_positive_usize(Some("0"), 100), 100);
}

#[test]
fn parse_positive_usize_missing_uses_default() {
    assert_eq!(parse_positive_usize(None, 100), 100);
}

#[test]
fn parse_positive_usize_rejects_surrounding_space_and_sign() {
    assert_eq!(parse_positive_usize(Some(" 50"), 100), 100);
    assert_eq!(parse_positive_usize(Some("+50"), 100), 50);
    assert_eq!(parse_positive_usize(Some("-5"), 100), 100);
    assert_eq!(parse_positive_usize(Some("99999999999999999999999"), 7), 7);
}

#[test]
fn config_from_env_happy_path() {
    let mut env = empty_env();
    env.telegram_bot_token = Some("test_token".to_string());
    env.cups_printer_name = Some("TestPrinter".to_string());
    env.allowed_user_ids = Some("123,456".to_string());
    env.allow_guest_printing = Some("false".to_string());
    env.max_copies = Some("50".to_string());
    // LABEL_WIDTH_INCHES=4.5, LABEL_HEIGHT_INCHES=6.5
    let config = Config::from_env(&env, label(1350, 1950, "4.5", "6.5", "4.50", "6.50")).unwrap();
    assert_eq!(config.telegram_bot_token, "test_token");
    assert_eq!(config.cups_printer_name, "TestPrinter");
    assert_eq!(config.allowed_user_ids, vec![123, 456]);
    assert!(!config.allow_guest_printing);
    assert_eq!(config.max_copies, 50);
    assert_eq!(config.label.width_text, "4.5");
    assert_eq!(config.label.height_text, "6.5");
    assert_eq!(config.label.width_px, 1350); // 4.5 * 300
    assert_eq!(config.label.height_px, 1950); // 6.5 * 300
}

#[test]
fn config_from_env_defaults() {
    let mut env = empty_env();
    env.telegram_bot_token = Some("tok".to_string());
    let config = Config::from_env(&env, standard_label()).unwrap();
    assert!(config.cups_printer_name.is_empty());
    assert!(config.allowed_user_ids.is_empty());
    assert!(config.allow_guest_printing);
    assert_eq!(config.max_copies, 100);
    assert_eq!(config.label.width_text, "4");
    assert_eq!(config.label.height_text, "6");
    assert!(config.cups_server_host.is_none());
    assert!(config.rate_limit_override_start.is_none());
}

#[test]
fn config_from_env_missing_token_is_an_error() {
    let env = empty_env();
    assert_eq!(Config::from_env(&env, standard_label()).unwrap_err(), ConfigError::MissingBotToken);
}

#[test]
fn config_from_env_empty_host_is_none_and_dates_read() {
    let mut env = empty_env();
    env.telegram_bot_token = Some("tok".to_string());
    env.cups_server_host = Some(String::new());
    env.rate_limit_override_start = Some("2025-05-30".to_string());
    env.rate_limit_override_end = Some("not a date".to_string());
    let config = Config::from_env(&env, standard_label()).unwrap();
    assert!(config.cups_server_host.is_none());
    // 2025-05-30 is day 739401 counted from 0001-01-01 as day 1.
    assert_eq!(config.rate_limit_override_start, Some(CalendarDate { day_number: 739401 }));
    assert_eq!(config.rate_limit_override_end, None);
    env.cups_server_host = Some("cups.local".to_string());
    let config = Config::from_env(&env, standard_label()).unwrap();
    assert_eq!(config.cups_server_host, Some("cups.local".to_string()));
}

#[test]
fn config_is_authorized() {
    let config = config_with(vec![100, 200], None, None);
    assert!(config.is_authorized(100));
    assert!(config.is_authorized(200));
    assert!(!config.is_authorized(300));
}

#[test]
fn config_is_authorized_empty_list() {
    let config = config_with(vec![], None, None);
    assert!(!config.is_authorized(100));
}

#[test]
fn config_rate_limit_override_active() {
    let day = today();
    let config = config_with(vec![100], Some(day), Some(day));
    assert!(config.is_rate_limit_override_active());
}

#[test]
fn config_rate_limit_override_inactive() {
    let day = today();
    let config = config_with(
        vec![100],
        Some(CalendarDate { day_number: day.day_number - 10 }),
        Some(CalendarDate { day_number: day.day_number - 5 }),
    );
    assert!(!config.is_rate_limit_override_active());
}

#[test]
fn override_window_is_inclusive() {
    let config = config_with(
        vec![],
        Some(CalendarDate { day_number: 10 }),
        Some(CalendarDate { day_number: 12 }),
    );
    assert!(!config.is_rate_limit_override_active_on(CalendarDate { day_number: 9 }));
    assert!(config.is_rate_limit_override_active_on(CalendarDate { day_number: 10 }));
    assert!(config.is_rate_limit_override_active_on(CalendarDate { day_number: 12 }));
    assert!(!config.is_rate_limit_override_active_on(CalendarDate { day_number: 13 }));
    let half_open = config_with(vec![], Some(CalendarDate { day_number: 10 }), None);
    assert!(!half_open.is_rate_limit_override_active_on(CalendarDate { day_number: 11 }));
}

#[test]
fn user_ids_are_trimmed_and_bad_fields_skipped() {
    let ids = parse_user_ids(&chars_of(" 1, 2 ,,abc, -3,+4,99999999999999999999"));
    assert_eq!(ids, vec![1, 2, -3, 4]);
    assert!(parse_user_ids(&chars_of("")).is_empty());
}

#[test]
fn guest_flag_words() {
    for yes in ["true", "TRUE", " Yes ", "1", "yEs"] {
        assert!(parse_guest_flag(&chars_of(yes)), "{}", yes);
    }
    for no in ["false", "0", "no", "", "y", "true!"] {
        assert!(!parse_guest_flag(&chars_of(no)), "{}", no);
    }
}

#[test]
fn dates_are_read_as_chrono_reads_them() {
    assert_eq!(parse_date(Some("1970-01-01")), Some(CalendarDate { day_number: 719163 }));
    assert_eq!(parse_date(Some("2024-02-30")), None);
    assert_eq!(parse_date(None), None);
}
