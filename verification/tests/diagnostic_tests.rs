use ona_diagnostic::diagnostic::{Diagnostic, TestStatus};
use ona_diagnostic::input::{AxisValue, InputEvent, InputWorkerMessage};
use ona_diagnostic::lifecycle::{LifecycleEvent, LifecycleStatus};
use ona_diagnostic::runtime::{DisplayConfig, DisplayMode, EnvValue, RuntimeConfig};

fn axis(v: f32) -> AxisValue {
    AxisValue::new(v.to_bits(), format!("{:.2}", v))
}

fn valid_config() -> RuntimeConfig {
    RuntimeConfig {
        runtime_raw: Some("1".to_string()),
        protocol_raw: Some("1".to_string()),
        input_host: Some("127.0.0.1".to_string()),
        input_port_raw: Some("47191".to_string()),
        input_port: Some(47191),
        lifecycle_host: Some("127.0.0.1".to_string()),
        lifecycle_port_raw: Some("48191".to_string()),
        lifecycle_port: Some(48191),
        player_id_raw: Some("1".to_string()),
        player_id: Some(1),
        display: DisplayConfig {
            id: EnvValue::Valid("mock-display".to_string()),
            target: EnvValue::Valid("mock".to_string()),
            name: EnvValue::Valid("Mock Display".to_string()),
            x: EnvValue::Valid(0),
            y: EnvValue::Valid(0),
            width: EnvValue::Valid(800),
            height: EnvValue::Valid(600),
            scale_factor: EnvValue::Valid(1.0f64.to_bits()),
            mode: EnvValue::Valid(DisplayMode::Windowed),
        },
    }
}

fn standalone_config() -> RuntimeConfig {
    RuntimeConfig {
        runtime_raw: None,
        protocol_raw: None,
        input_host: None,
        input_port_raw: None,
        input_port: None,
        lifecycle_host: None,
        lifecycle_port_raw: None,
        lifecycle_port: None,
        player_id_raw: None,
        player_id: None,
        display: DisplayConfig {
            id: EnvValue::Missing,
            target: EnvValue::Missing,
            name: EnvValue::Missing,
            x: EnvValue::Missing,
            y: EnvValue::Missing,
            width: EnvValue::Missing,
            height: EnvValue::Missing,
            scale_factor: EnvValue::Missing,
            mode: EnvValue::Missing,
        },
    }
}

fn button(name: &str, state: &str) -> InputEvent {
    InputEvent::Button { player_id: 1, button: name.to_string(), state: state.to_string() }
}

#[test]
fn joystick_needs_real_movement() {
    let mut diagnostic = Diagnostic::new(&valid_config());
    diagnostic.update(&InputEvent::Joystick { player_id: 1, x: axis(0.0), y: axis(0.0) });
    assert_eq!(diagnostic.joystick_status, TestStatus::Waiting);

    diagnostic.update(&InputEvent::Joystick { player_id: 1, x: axis(0.25), y: axis(0.0) });
    assert_eq!(diagnostic.joystick_status, TestStatus::Pass);
}

#[test]
fn pressed_and_released_are_tracked_separately() {
    let mut diagnostic = Diagnostic::new(&valid_config());
    diagnostic.update(&button("A", "down"));
    assert_eq!(diagnostic.pressed_status, TestStatus::Pass);
    assert_eq!(diagnostic.released_status, TestStatus::Waiting);

    diagnostic.update(&button("A", "up"));
    assert_eq!(diagnostic.released_status, TestStatus::Pass);
}

#[test]
fn full_minimum_sequence_passes_all_tests() {
    let mut diagnostic = Diagnostic::new(&valid_config());
    diagnostic.handle_worker_message(InputWorkerMessage::Connected);
    diagnostic.handle_lifecycle_status(LifecycleStatus::Connected);
    diagnostic.handle_lifecycle_status(LifecycleStatus::Sent(LifecycleEvent::STARTED));
    diagnostic.handle_lifecycle_status(LifecycleStatus::Sent(LifecycleEvent::WINDOW_READY));
    diagnostic.handle_lifecycle_status(LifecycleStatus::Sent(LifecycleEvent::DISPLAY_READY));
    diagnostic.handle_lifecycle_status(LifecycleStatus::Sent(LifecycleEvent::READY));
    diagnostic.mark_display_match("Mock Display 0,0 800x600".to_string(), Vec::new());
    diagnostic.update(&InputEvent::Joystick { player_id: 1, x: axis(0.25), y: axis(-0.25) });

    for name in Diagnostic::buttons() {
        diagnostic.update(&button(name, "down"));
        diagnostic.update(&button(name, "up"));
    }

    assert!(diagnostic.all_tests_passed());
}

#[test]
fn labels_and_colors_of_statuses() {
    assert_eq!(TestStatus::Waiting.label(), "WAITING");
    assert_eq!(TestStatus::Pass.label(), "PASS");
    assert_eq!(TestStatus::Fail.label(), "FAIL");
    assert_eq!(TestStatus::Waiting.color(), [180, 180, 180]);
    assert_eq!(TestStatus::Pass.color(), [0, 255, 0]);
    assert_eq!(TestStatus::Fail.color(), [255, 70, 70]);
}

#[test]
fn fresh_diagnostic_for_valid_config() {
    let diagnostic = Diagnostic::new(&valid_config());
    assert_eq!(diagnostic.runtime_status, TestStatus::Pass);
    assert_eq!(diagnostic.runtime_reason, None);
    assert_eq!(diagnostic.protocol_status, TestStatus::Pass);
    assert_eq!(diagnostic.protocol_reason, None);
    assert_eq!(diagnostic.protocol_display, "1");
    assert_eq!(diagnostic.bridge_reason, None);
    assert_eq!(diagnostic.lifecycle_reason, None);
    assert_eq!(diagnostic.display_data_status, TestStatus::Pass);
    assert_eq!(diagnostic.display_data_reason, None);
    assert_eq!(diagnostic.player_id, Some(1));
    assert_eq!(diagnostic.player_id_status, TestStatus::Pass);
    assert_eq!(diagnostic.last_event, "None");
    assert_eq!(diagnostic.bridge_status, "NOT STARTED");
    assert_eq!(diagnostic.matched_monitor, "<none>");
    assert_eq!(diagnostic.joystick_x.text, "0.00");
    assert!(!diagnostic.input_active);
    assert!(!diagnostic.all_tests_passed());
}

#[test]
fn fresh_diagnostic_in_standalone_mode() {
    let diagnostic = Diagnostic::new(&standalone_config());
    assert_eq!(diagnostic.runtime_status, TestStatus::Waiting);
    assert_eq!(diagnostic.runtime_reason.as_deref(), Some("STANDALONE MODE"));
    assert_eq!(diagnostic.protocol_status, TestStatus::Waiting);
    assert_eq!(diagnostic.protocol_reason.as_deref(), Some("STANDALONE MODE"));
    assert_eq!(diagnostic.protocol_display, "<missing>");
    assert_eq!(
        diagnostic.bridge_reason.as_deref(),
        Some("Waiting for valid runtime and protocol configuration")
    );
    assert_eq!(diagnostic.display_data_status, TestStatus::Waiting);
    assert_eq!(
        diagnostic.display_data_reason.as_deref(),
        Some(
            "ONA_DISPLAY_X missing; ONA_DISPLAY_Y missing; ONA_DISPLAY_WIDTH missing; \
             ONA_DISPLAY_HEIGHT missing; ONA_DISPLAY_MODE missing; ONA_DISPLAY_SCALE_FACTOR missing"
        )
    );
    assert_eq!(diagnostic.player_id, None);
    assert_eq!(diagnostic.player_id_status, TestStatus::Waiting);
}

#[test]
fn wrong_runtime_and_protocol_fail() {
    let mut config = valid_config();
    config.runtime_raw = Some("2".to_string());
    config.protocol_raw = Some("7".to_string());
    config.display.width = EnvValue::Invalid("wide".to_string());
    let diagnostic = Diagnostic::new(&config);
    assert_eq!(diagnostic.runtime_status, TestStatus::Fail);
    assert_eq!(
        diagnostic.runtime_reason.as_deref(),
        Some("ONA_RUNTIME was not provided or was not 1")
    );
    assert_eq!(diagnostic.protocol_status, TestStatus::Fail);
    assert_eq!(diagnostic.protocol_reason.as_deref(), Some("Expected: 1, Received: 7"));
    assert_eq!(diagnostic.display_data_status, TestStatus::Waiting);
    assert_eq!(
        diagnostic.display_data_reason.as_deref(),
        Some("ONA_DISPLAY_WIDTH invalid: wide")
    );
}

#[test]
fn missing_protocol_is_reported_as_missing() {
    let mut config = valid_config();
    config.protocol_raw = None;
    config.display.mode = EnvValue::Missing;
    let diagnostic = Diagnostic::new(&config);
    assert_eq!(diagnostic.protocol_status, TestStatus::Fail);
    assert_eq!(diagnostic.protocol_reason.as_deref(), Some("Expected: 1, Received: <missing>"));
    assert_eq!(diagnostic.display_data_status, TestStatus::Fail);
}

#[test]
fn bridge_reasons_name_the_missing_setting() {
    let mut config = valid_config();
    config.input_host = None;
    config.lifecycle_port_raw = Some("abc".to_string());
    config.lifecycle_port = None;
    let diagnostic = Diagnostic::new(&config);
    assert_eq!(diagnostic.bridge_reason.as_deref(), Some("ONA_INPUT_HOST was not provided"));
    assert_eq!(diagnostic.lifecycle_reason.as_deref(), Some("ONA_LIFECYCLE_PORT is invalid: abc"));

    let mut config = valid_config();
    config.input_port_raw = None;
    config.input_port = None;
    config.lifecycle_host = None;
    let diagnostic = Diagnostic::new(&config);
    assert_eq!(diagnostic.bridge_reason.as_deref(), Some("ONA_INPUT_PORT was not provided"));
    assert_eq!(diagnostic.lifecycle_reason.as_deref(), Some("ONA_LIFECYCLE_HOST was not provided"));
}

#[test]
fn worker_messages_move_the_input_bridge() {
    let mut diagnostic = Diagnostic::new(&valid_config());
    diagnostic.handle_worker_message(InputWorkerMessage::Connecting);
    assert_eq!(diagnostic.bridge_status, "CONNECTING");
    diagnostic.handle_worker_message(InputWorkerMessage::Connected);
    assert_eq!(diagnostic.bridge_status, "CONNECTED");
    assert_eq!(diagnostic.input_bridge_status, TestStatus::Pass);
    diagnostic.handle_worker_message(InputWorkerMessage::Disconnected("gone".to_string()));
    assert_eq!(diagnostic.bridge_status, "DISCONNECTED");
    assert_eq!(diagnostic.bridge_reason.as_deref(), Some("gone"));
    assert_eq!(diagnostic.input_bridge_status, TestStatus::Pass);
    diagnostic.handle_worker_message(InputWorkerMessage::InvalidJson("bad json".to_string()));
    assert_eq!(diagnostic.last_event, "bad json");
    assert_eq!(diagnostic.bridge_reason.as_deref(), Some("bad json"));
    diagnostic.handle_worker_message(InputWorkerMessage::Event(Err("missing field".to_string())));
    assert_eq!(diagnostic.last_event, "Invalid event payload: missing field");
    diagnostic.handle_worker_message(InputWorkerMessage::Event(Ok(button("B", "pressed"))));
    assert_eq!(diagnostic.last_event, "Button p1: B pressed");
    assert!(diagnostic.is_pressed("B"));
}

#[test]
fn lifecycle_reports_move_the_lifecycle_checks() {
    let mut diagnostic = Diagnostic::new(&valid_config());
    diagnostic.handle_lifecycle_status(LifecycleStatus::Connecting);
    assert_eq!(diagnostic.lifecycle_bridge_label, "CONNECTING");
    diagnostic.handle_lifecycle_status(LifecycleStatus::Disconnected("refused".to_string()));
    assert_eq!(diagnostic.lifecycle_bridge_label, "DISCONNECTED");
    assert_eq!(diagnostic.lifecycle_reason.as_deref(), Some("refused"));
    assert_eq!(diagnostic.lifecycle_bridge_status, TestStatus::Waiting);
    diagnostic.handle_lifecycle_status(LifecycleStatus::Connected);
    assert_eq!(diagnostic.lifecycle_bridge_status, TestStatus::Pass);
    assert_eq!(diagnostic.lifecycle_reason, None);
    diagnostic.handle_lifecycle_status(LifecycleStatus::Sent(LifecycleEvent::EXITING));
    assert_eq!(diagnostic.game_exiting_status, TestStatus::Pass);
    assert_eq!(diagnostic.game_started_status, TestStatus::Waiting);
}

#[test]
fn display_match_outcomes() {
    let mut diagnostic = Diagnostic::new(&valid_config());
    diagnostic.mark_display_match_failed("no such monitor".to_string(), vec!["M @ 0,0 1x1".to_string()]);
    assert_eq!(diagnostic.display_match_status, TestStatus::Fail);
    assert_eq!(diagnostic.display_match_reason.as_deref(), Some("no such monitor"));
    assert_eq!(diagnostic.available_monitors, vec!["M @ 0,0 1x1".to_string()]);
    diagnostic.mark_display_match("M @ 0,0 1x1".to_string(), Vec::new());
    assert_eq!(diagnostic.display_match_status, TestStatus::Pass);
    assert_eq!(diagnostic.display_match_reason, None);
    assert_eq!(diagnostic.matched_monitor, "M @ 0,0 1x1");
}

#[test]
fn joystick_event_text_and_dead_zone() {
    let mut diagnostic = Diagnostic::new(&standalone_config());
    diagnostic.update(&InputEvent::Joystick { player_id: 3, x: axis(0.05), y: axis(-0.05) });
    assert_eq!(diagnostic.joystick_status, TestStatus::Waiting);
    assert_eq!(diagnostic.last_event, "Joystick p3: 0.05, -0.05");
    assert_eq!(diagnostic.player_id, Some(3));
    assert!(diagnostic.input_active);
    diagnostic.update(&InputEvent::Joystick { player_id: 3, x: axis(f32::NAN), y: axis(0.0) });
    assert_eq!(diagnostic.joystick_status, TestStatus::Waiting);
    diagnostic.update(&InputEvent::Joystick { player_id: 3, x: axis(0.0), y: axis(-0.051) });
    assert_eq!(diagnostic.joystick_status, TestStatus::Pass);
    assert_eq!(diagnostic.joystick_y.bits, (-0.051f32).to_bits());
}

#[test]
fn button_presses_are_remembered() {
    let mut diagnostic = Diagnostic::new(&valid_config());
    diagnostic.update(&button("Select", "pressed"));
    assert!(diagnostic.is_pressed("Select"));
    assert_eq!(diagnostic.button_status("Select"), TestStatus::Pass);
    diagnostic.update(&button("Select", "released"));
    assert!(!diagnostic.is_pressed("Select"));
    diagnostic.update(&button("Turbo", "down"));
    assert!(diagnostic.is_pressed("Turbo"));
    assert_eq!(diagnostic.button_status("Turbo"), TestStatus::Waiting);
    diagnostic.update(&button("X", "held"));
    assert!(!diagnostic.is_pressed("X"));
    assert_eq!(diagnostic.button_status("X"), TestStatus::Waiting);
    assert_eq!(diagnostic.last_event, "Button p1: X held");
    assert_eq!(diagnostic.button_status("Start"), TestStatus::Waiting);
}

#[test]
fn restart_waits_for_input_again() {
    let mut diagnostic = Diagnostic::new(&valid_config());
    diagnostic.handle_worker_message(InputWorkerMessage::Connected);
    diagnostic.update(&button("A", "down"));
    diagnostic.update(&InputEvent::Joystick { player_id: 2, x: axis(0.5), y: axis(0.5) });
    diagnostic.restart_input_test();
    assert!(!diagnostic.is_pressed("A"));
    assert_eq!(diagnostic.button_status("A"), TestStatus::Waiting);
    assert_eq!(diagnostic.pressed_status, TestStatus::Waiting);
    assert_eq!(diagnostic.joystick_status, TestStatus::Waiting);
    assert_eq!(diagnostic.player_id, None);
    assert_eq!(diagnostic.player_id_status, TestStatus::Waiting);
    assert_eq!(diagnostic.last_event, "Test restarted");
    assert_eq!(diagnostic.joystick_x.text, "0.00");
    assert_eq!(diagnostic.input_bridge_status, TestStatus::Pass);
    assert_eq!(diagnostic.runtime_status, TestStatus::Pass);
    assert!(!diagnostic.input_active);
}

#[test]
fn passed_test_stays_passed() {
    let mut diagnostic = Diagnostic::new(&valid_config());
    diagnostic.handle_worker_message(InputWorkerMessage::Connected);
    diagnostic.handle_lifecycle_status(LifecycleStatus::Connected);
    for event in [
        LifecycleEvent::Started,
        LifecycleEvent::WindowReady,
        LifecycleEvent::DisplayReady,
        LifecycleEvent::Ready,
    ] {
        diagnostic.handle_lifecycle_status(LifecycleStatus::Sent(event));
    }
    diagnostic.mark_display_match("Mock".to_string(), Vec::new());
    diagnostic.update(&InputEvent::Joystick { player_id: 1, x: axis(1.0), y: axis(0.0) });
    for name in Diagnostic::buttons() {
        diagnostic.update(&button(name, "down"));
        diagnostic.update(&button(name, "up"));
    }
    assert!(diagnostic.all_tests_passed());
    diagnostic.handle_worker_message(InputWorkerMessage::Disconnected("lost".to_string()));
    diagnostic.handle_lifecycle_status(LifecycleStatus::Disconnected("lost".to_string()));
    diagnostic.update(&button("A", "sideways"));
    assert!(diagnostic.all_tests_passed());
    diagnostic.restart_input_test();
    assert!(!diagnostic.all_tests_passed());
}

#[test]
fn buttons_in_screen_order() {
    assert_eq!(
        Diagnostic::buttons(),
        vec!["A", "B", "X", "Y", "L1", "L2", "R1", "R2", "Select", "Start"]
    );
}

#[test]
fn button_checks_never_fail() {
    let mut d = Diagnostic::new(&valid_config());
    d.mark_display_match_failed("no monitor".to_string(), vec!["HDMI-1".to_string()]);
    d.update(&button("A", "down"));
    d.update(&button("Z", "down"));
    d.update(&button("B", "sideways"));
    d.handle_lifecycle_status(LifecycleStatus::Disconnected("gone".to_string()));
    d.handle_worker_message(InputWorkerMessage::Disconnected("gone".to_string()));
    d.restart_input_test();
    d.update(&button("X", "up"));
    for name in Diagnostic::buttons() {
        assert_ne!(d.button_status(name), TestStatus::Fail);
    }
    assert_eq!(d.button_status("X"), TestStatus::Pass);
    assert_eq!(d.button_status("A"), TestStatus::Waiting);
    assert_eq!(d.button_status("Z"), TestStatus::Waiting);
}
