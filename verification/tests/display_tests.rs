use ona_diagnostic::diagnostic::{Diagnostic, TestStatus};
use ona_diagnostic::display::{
    available_monitor_labels, bridge_color, find_monitor, monitor_label, plan_window,
    record_display_target, resolve_display_target, send_exiting_once, window_events, DisplayTarget,
    LoopState, MonitorInfo, WindowPlan,
};
use ona_diagnostic::lifecycle::{LifecycleEvent, LifecycleMessage};
use ona_diagnostic::runtime::{DisplayConfig, DisplayMode, EnvValue, RuntimeConfig};

fn config(runtime: bool, mode: EnvValue<DisplayMode>, rect: bool) -> RuntimeConfig {
    let value = |v: u32| if rect { EnvValue::Valid(v) } else { EnvValue::Missing };
    RuntimeConfig {
        runtime_raw: if runtime { Some("1".to_string()) } else { None },
        protocol_raw: Some("1".to_string()),
        input_host: None,
        input_port_raw: None,
        input_port: None,
        lifecycle_host: None,
        lifecycle_port_raw: None,
        lifecycle_port: None,
        player_id_raw: None,
        player_id: None,
        display: DisplayConfig {
            id: EnvValue::Missing,
            target: EnvValue::Missing,
            name: EnvValue::Missing,
            x: if rect { EnvValue::Valid(1920) } else { EnvValue::Missing },
            y: if rect { EnvValue::Valid(-10) } else { EnvValue::Missing },
            width: value(1280),
            height: value(720),
            scale_factor: EnvValue::Missing,
            mode,
        },
    }
}

fn monitors() -> Vec<MonitorInfo> {
    vec![
        MonitorInfo { name: Some("Main".to_string()), x: 0, y: 0, width: 1920, height: 1080 },
        MonitorInfo { name: None, x: 1920, y: -10, width: 1280, height: 720 },
        MonitorInfo { name: Some("Twin".to_string()), x: 1920, y: -10, width: 1280, height: 720 },
    ]
}

#[test]
fn monitor_labels() {
    let all = monitors();
    assert_eq!(monitor_label(&all[0]), "Main @ 0,0 1920x1080");
    assert_eq!(monitor_label(&all[1]), "<unnamed> @ 1920,-10 1280x720");
    assert_eq!(
        available_monitor_labels(&all),
        vec![
            "Main @ 0,0 1920x1080".to_string(),
            "<unnamed> @ 1920,-10 1280x720".to_string(),
            "Twin @ 1920,-10 1280x720".to_string()
        ]
    );
    assert!(available_monitor_labels(&Vec::new()).is_empty());
}

#[test]
fn first_monitor_at_the_target_is_chosen() {
    assert_eq!(find_monitor(&monitors(), 1920, -10, 1280, 720), Some(1));
    assert_eq!(find_monitor(&monitors(), 1920, -10, 1280, 721), None);
    match resolve_display_target(&monitors(), &config(true, EnvValue::Valid(DisplayMode::ConsoleFullscreen), true)) {
        DisplayTarget::Matched { monitor, mode, position, size } => {
            assert_eq!(monitor, 1);
            assert_eq!(mode, DisplayMode::ConsoleFullscreen);
            assert_eq!(position, (1920, -10));
            assert_eq!(size, (1280, 720));
        }
        other => panic!("unexpected {:?}", other),
    }
}

#[test]
fn unmatched_target_names_the_expected_monitor() {
    let target = resolve_display_target(&monitors()[..1].to_vec(), &config(true, EnvValue::Valid(DisplayMode::Windowed), true));
    match target {
        DisplayTarget::NoMatch { reason } => assert_eq!(reason, "Expected monitor at 1920,-10 size 1280x720"),
        other => panic!("unexpected {:?}", other),
    }
}

#[test]
fn incomplete_display_data() {
    match resolve_display_target(&monitors(), &config(true, EnvValue::Missing, false)) {
        DisplayTarget::NoMatch { reason } => assert_eq!(
            reason,
            "ONA_DISPLAY_X missing; ONA_DISPLAY_Y missing; ONA_DISPLAY_WIDTH missing; ONA_DISPLAY_HEIGHT missing; ONA_DISPLAY_MODE missing; ONA_DISPLAY_SCALE_FACTOR missing"
        ),
        other => panic!("unexpected {:?}", other),
    }
    match resolve_display_target(&monitors(), &config(true, EnvValue::Invalid("x".to_string()), true)) {
        DisplayTarget::NoMatch { reason } => assert_eq!(
            reason,
            "ONA_DISPLAY_MODE invalid: x; ONA_DISPLAY_SCALE_FACTOR missing"
        ),
        other => panic!("unexpected {:?}", other),
    }
    assert!(matches!(
        resolve_display_target(&monitors(), &config(false, EnvValue::Missing, false)),
        DisplayTarget::DevelopmentWindow
    ));
    match resolve_display_target(&monitors(), &config(false, EnvValue::Missing, true)) {
        DisplayTarget::Matched { monitor, mode, .. } => {
            assert_eq!(monitor, 1);
            assert_eq!(mode, DisplayMode::Windowed);
        }
        other => panic!("unexpected {:?}", other),
    }
}

#[test]
fn window_plans() {
    let display = config(true, EnvValue::Valid(DisplayMode::Windowed), true).display;
    let matched = DisplayTarget::Matched { monitor: 2, mode: DisplayMode::ConsoleFullscreen, position: (5, 6), size: (7, 8) };
    assert_eq!(plan_window(&matched, &display), WindowPlan::Fullscreen { monitor: 2, width: 7, height: 8 });
    let windowed = DisplayTarget::Matched { monitor: 2, mode: DisplayMode::Windowed, position: (5, 6), size: (7, 8) };
    assert_eq!(plan_window(&windowed, &display), WindowPlan::Placed { x: 5, y: 6, width: 7, height: 8 });
    let failed = DisplayTarget::NoMatch { reason: "r".to_string() };
    assert_eq!(plan_window(&failed, &display), WindowPlan::Placed { x: 1920, y: -10, width: 1280, height: 720 });
    let bare = config(true, EnvValue::Missing, false).display;
    assert_eq!(plan_window(&failed, &bare), WindowPlan::Sized { width: 800, height: 600 });
    assert_eq!(plan_window(&DisplayTarget::DevelopmentWindow, &display), WindowPlan::Sized { width: 800, height: 600 });
}

#[test]
fn display_target_is_recorded() {
    let cfg = config(true, EnvValue::Valid(DisplayMode::Windowed), true);
    let mut diagnostic = Diagnostic::new(&cfg);
    let target = resolve_display_target(&monitors(), &cfg);
    record_display_target(&mut diagnostic, &target, &monitors());
    assert_eq!(diagnostic.display_match_status, TestStatus::Pass);
    assert_eq!(diagnostic.matched_monitor, "<unnamed> @ 1920,-10 1280x720");
    assert_eq!(diagnostic.available_monitors.len(), 3);
    let events = window_events(&target);
    assert_eq!(events, vec![LifecycleEvent::WindowReady, LifecycleEvent::DisplayReady]);

    let failed = DisplayTarget::NoMatch { reason: "nothing there".to_string() };
    record_display_target(&mut diagnostic, &failed, &monitors());
    assert_eq!(diagnostic.display_match_status, TestStatus::Fail);
    assert_eq!(diagnostic.display_match_reason.as_deref(), Some("nothing there"));
    assert_eq!(window_events(&failed), vec![LifecycleEvent::WindowReady]);
}

#[test]
fn bridge_colors() {
    assert_eq!(bridge_color("CONNECTED"), [0, 255, 0]);
    assert_eq!(bridge_color("CONNECTING"), [255, 255, 0]);
    assert_eq!(bridge_color("DISCONNECTED"), [255, 90, 90]);
    assert_eq!(bridge_color("NOT STARTED"), [180, 180, 180]);
}

#[test]
fn exit_notice_is_sent_once() {
    let mut sent = false;
    assert!(matches!(send_exiting_once(&mut sent), Some(LifecycleMessage::Send(LifecycleEvent::Exiting))));
    assert!(sent);
    assert!(send_exiting_once(&mut sent).is_none());
    assert!(sent);
}

#[test]
fn event_loop_decisions() {
    let mut state = LoopState::new();
    let step = state.on_frame(true);
    assert!(matches!(step.send, Some(LifecycleMessage::Send(LifecycleEvent::Ready))));
    assert!(!step.exit);
    let step = state.on_frame(true);
    assert!(step.send.is_none());
    let step = state.on_close();
    assert!(matches!(step.send, Some(LifecycleMessage::Send(LifecycleEvent::Exiting))));
    assert!(step.exit);
    let step = state.on_frame(false);
    assert!(step.send.is_none());
    assert!(step.exit);
    let mut failing = LoopState::new();
    let step = failing.on_frame(false);
    assert!(matches!(step.send, Some(LifecycleMessage::Send(LifecycleEvent::Exiting))));
    assert!(step.exit);
    assert!(!failing.game_ready_sent);
}

#[test]
fn escape_down_ends_the_loop_other_keys_do_nothing() {
    let mut state = LoopState::new();
    let step = state.on_key(false, true);
    assert!(step.send.is_none());
    assert!(!step.exit);
    let step = state.on_key(true, false);
    assert!(step.send.is_none());
    assert!(!step.exit);
    assert!(!state.exiting_sent);
    let step = state.on_key(true, true);
    assert!(matches!(step.send, Some(LifecycleMessage::Send(LifecycleEvent::Exiting))));
    assert!(step.exit);
    let step = state.on_key(true, true);
    assert!(step.send.is_none());
    assert!(step.exit);
}

fn sent_event(step: &ona_diagnostic::display::LoopStep) -> Option<LifecycleEvent> {
    match &step.send {
        Some(LifecycleMessage::Send(event)) => Some(*event),
        None => None,
    }
}

#[test]
fn whole_run_sends_each_notice_once_in_order() {
    let target = DisplayTarget::Matched {
        monitor: 0,
        mode: ona_diagnostic::runtime::DisplayMode::Windowed,
        position: (0, 0),
        size: (800, 600),
    };
    let mut messages: Vec<LifecycleEvent> = window_events(&target);
    let mut state = LoopState::new();
    let mut exits = Vec::new();
    let steps = vec![
        state.on_key(false, true),
        state.on_frame(true),
        state.on_frame(true),
        state.on_key(true, false),
        state.on_close(),
        state.on_frame(false),
        state.on_key(true, true),
    ];
    for step in &steps {
        if let Some(event) = sent_event(step) {
            messages.push(event);
        }
        exits.push(step.exit);
    }
    assert_eq!(
        messages,
        vec![
            LifecycleEvent::WindowReady,
            LifecycleEvent::DisplayReady,
            LifecycleEvent::Ready,
            LifecycleEvent::Exiting,
        ]
    );
    assert_eq!(exits, vec![false, false, false, false, true, true, true]);
}
