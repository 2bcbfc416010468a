use ona_diagnostic::runtime::{
    push_problem, read_display_mode, read_parse_i32, read_parse_u32, read_string, DisplayConfig,
    DisplayMode, EnvValue, RuntimeConfig, EXPECTED_PROTOCOL_VERSION,
};

fn complete_display() -> DisplayConfig {
    DisplayConfig {
        id: EnvValue::Valid("display-1".to_string()),
        target: EnvValue::Valid("tv".to_string()),
        name: EnvValue::Valid("TV".to_string()),
        x: EnvValue::Valid(1920),
        y: EnvValue::Valid(0),
        width: EnvValue::Valid(3840),
        height: EnvValue::Valid(2160),
        scale_factor: EnvValue::Valid(1.0f64.to_bits()),
        mode: EnvValue::Valid(DisplayMode::ConsoleFullscreen),
    }
}

fn raw(s: &str) -> Option<String> {
    Some(s.to_string())
}

#[test]
fn display_target_rect_requires_all_numeric_values() {
    let display = complete_display();

    assert_eq!(display.target_rect(), Some((1920, 0, 3840, 2160)));
    assert!(display.display_data_ok());
}

#[test]
fn target_rect_is_absent_when_one_value_is_not_usable() {
    let mut display = complete_display();
    display.height = EnvValue::Invalid("tall".to_string());
    assert_eq!(display.target_rect(), None);
    assert!(!display.has_valid_target_rect());
    assert!(!display.display_data_ok());
    let mut display = complete_display();
    display.x = EnvValue::Missing;
    assert_eq!(display.target_rect(), None);
}

#[test]
fn display_data_ok_tolerates_missing_optional_values() {
    let mut display = complete_display();
    display.id = EnvValue::Missing;
    display.scale_factor = EnvValue::Missing;
    assert!(display.display_data_ok());
    assert_eq!(display.data_problem().as_deref(), Some("ONA_DISPLAY_SCALE_FACTOR missing"));
    display.name = EnvValue::Invalid(String::new());
    assert!(!display.display_data_ok());
}

#[test]
fn data_problem_lists_problems_in_order() {
    let mut display = complete_display();
    assert_eq!(display.data_problem(), None);
    display.mode = EnvValue::Invalid("FULL".to_string());
    display.x = EnvValue::Missing;
    display.scale_factor = EnvValue::Invalid("big".to_string());
    assert_eq!(
        display.data_problem().as_deref(),
        Some("ONA_DISPLAY_X missing; ONA_DISPLAY_MODE invalid: FULL; ONA_DISPLAY_SCALE_FACTOR invalid: big")
    );
}

#[test]
fn push_problem_adds_one_line_per_bad_value() {
    let mut problems = Vec::new();
    push_problem(&mut problems, "K", &EnvValue::<u32>::Valid(1));
    assert!(problems.is_empty());
    push_problem(&mut problems, "K", &EnvValue::<u32>::Missing);
    push_problem(&mut problems, "L", &EnvValue::<u32>::Invalid("x".to_string()));
    assert_eq!(problems, vec!["K missing".to_string(), "L invalid: x".to_string()]);
}

#[test]
fn labels_of_values() {
    assert_eq!(EnvValue::<String>::Missing.as_label(), "<missing>");
    assert_eq!(EnvValue::<String>::Invalid("".to_string()).as_label(), "<invalid:>");
    assert_eq!(EnvValue::Valid("TV".to_string()).as_label(), "TV");
    assert_eq!(EnvValue::<i32>::Valid(-1920).as_label(), "-1920");
    assert_eq!(EnvValue::<i32>::Valid(i32::MIN).as_label(), "-2147483648");
    assert_eq!(EnvValue::<u32>::Valid(3840).as_label(), "3840");
    assert_eq!(EnvValue::<u32>::Invalid("12a".to_string()).as_label(), "<invalid:12a>");
    assert_eq!(EnvValue::Valid(DisplayMode::Windowed).as_label(), "WINDOWED");
    assert_eq!(DisplayMode::ConsoleFullscreen.label(), "CONSOLE_FULLSCREEN");
}

#[test]
fn reading_raw_values() {
    assert_eq!(read_string(None), EnvValue::Missing);
    assert_eq!(read_string(raw("")), EnvValue::Invalid(String::new()));
    assert_eq!(read_string(raw("tv")), EnvValue::Valid("tv".to_string()));
    assert_eq!(read_parse_i32(raw("-1920")), EnvValue::Valid(-1920));
    assert_eq!(read_parse_i32(raw("+7")), EnvValue::Valid(7));
    assert_eq!(read_parse_i32(raw("2147483648")), EnvValue::Invalid("2147483648".to_string()));
    assert_eq!(read_parse_i32(raw("-2147483648")), EnvValue::Valid(i32::MIN));
    assert_eq!(read_parse_i32(raw(" 1")), EnvValue::Invalid(" 1".to_string()));
    assert_eq!(read_parse_u32(raw("3840")), EnvValue::Valid(3840));
    assert_eq!(read_parse_u32(raw("-1")), EnvValue::Invalid("-1".to_string()));
    assert_eq!(read_parse_u32(raw("4294967295")), EnvValue::Valid(u32::MAX));
    assert_eq!(read_parse_u32(raw("4294967296")), EnvValue::Invalid("4294967296".to_string()));
    assert_eq!(read_parse_u32(None), EnvValue::Missing);
    assert_eq!(read_display_mode(raw("WINDOWED")), EnvValue::Valid(DisplayMode::Windowed));
    assert_eq!(
        read_display_mode(raw("CONSOLE_FULLSCREEN")),
        EnvValue::Valid(DisplayMode::ConsoleFullscreen)
    );
    assert_eq!(read_display_mode(raw("windowed")), EnvValue::Invalid("windowed".to_string()));
    assert_eq!(read_display_mode(None), EnvValue::Missing);
}

fn missing_display() -> DisplayConfig {
    DisplayConfig {
        id: EnvValue::Missing,
        target: EnvValue::Missing,
        name: EnvValue::Missing,
        x: EnvValue::Missing,
        y: EnvValue::Missing,
        width: EnvValue::Missing,
        height: EnvValue::Missing,
        scale_factor: EnvValue::Missing,
        mode: EnvValue::Missing,
    }
}

#[test]
fn config_from_raw_values() {
    let config = RuntimeConfig::from_raw(
        raw("1"),
        raw(EXPECTED_PROTOCOL_VERSION),
        raw("127.0.0.1"),
        raw("47191"),
        raw(""),
        raw("99999"),
        raw("007"),
        missing_display(),
    );
    assert!(config.runtime_ok());
    assert!(config.protocol_ok());
    assert_eq!(config.input_host.as_deref(), Some("127.0.0.1"));
    assert_eq!(config.input_port, Some(47191));
    assert_eq!(config.lifecycle_host, None);
    assert_eq!(config.lifecycle_port, None);
    assert_eq!(config.lifecycle_port_raw.as_deref(), Some("99999"));
    assert_eq!(config.player_id, Some(7));
    assert!(config.can_start_input_worker());
    assert!(!config.can_start_lifecycle_worker());
}

#[test]
fn runtime_and_protocol_checks() {
    let config = RuntimeConfig::from_raw(
        raw("true"),
        raw("2"),
        None,
        raw("+80"),
        raw("host"),
        raw("0"),
        None,
        missing_display(),
    );
    assert!(!config.runtime_ok());
    assert!(!config.protocol_ok());
    assert_eq!(config.input_port, Some(80));
    assert_eq!(config.lifecycle_port, Some(0));
    assert_eq!(config.player_id, None);
    assert!(!config.can_start_input_worker());
    assert!(!config.can_start_lifecycle_worker());
    let absent = RuntimeConfig::from_raw(None, None, None, None, None, None, None, missing_display());
    assert!(!absent.runtime_ok());
    assert!(!absent.protocol_ok());
}
