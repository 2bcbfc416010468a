use ona_diagnostic::lifecycle::{line_for, LifecycleEvent, LifecycleLink, LifecycleMessage, LifecycleStatus, LinkAction};

#[test]
fn event_labels() {
    assert_eq!(LifecycleEvent::Started.label(), "GAME_STARTED");
    assert_eq!(LifecycleEvent::WindowReady.label(), "GAME_WINDOW_READY");
    assert_eq!(LifecycleEvent::DisplayReady.label(), "GAME_DISPLAY_READY");
    assert_eq!(LifecycleEvent::Ready.label(), "GAME_READY");
    assert_eq!(LifecycleEvent::Exiting.label(), "GAME_EXITING");
    assert_eq!(LifecycleEvent::STARTED, LifecycleEvent::Started);
    assert_eq!(line_for(LifecycleEvent::Ready), "GAME_READY\n");
}

#[test]
fn worker_connects_then_writes() {
    let mut link = LifecycleLink::new();
    let (status, action) = link.on_message(LifecycleMessage::Send(LifecycleEvent::Started));
    assert!(matches!(status, Some(LifecycleStatus::Connecting)));
    assert!(matches!(action, LinkAction::Connect { retry: false }));
    let (status, action) = link.on_connect(Err("refused".to_string()));
    match status {
        LifecycleStatus::Disconnected(m) => assert_eq!(m, "Lifecycle connection failed: refused"),
        other => panic!("unexpected {:?}", other),
    }
    assert!(matches!(action, LinkAction::Connect { retry: true }));
    let (status, action) = link.on_connect(Ok(()));
    assert!(matches!(status, LifecycleStatus::Connected));
    match action {
        LinkAction::Write(line) => assert_eq!(line, "GAME_STARTED\n"),
        other => panic!("unexpected {:?}", other),
    }
    assert!(matches!(link.on_write(Ok(())), Some(LifecycleStatus::Sent(LifecycleEvent::Started))));
    assert!(link.connected);
}

#[test]
fn failed_write_drops_the_connection() {
    let mut link = LifecycleLink::new();
    link.on_message(LifecycleMessage::Send(LifecycleEvent::Ready));
    link.on_connect(Ok(()));
    match link.on_write(Err("broken pipe".to_string())) {
        Some(LifecycleStatus::Disconnected(m)) => assert_eq!(m, "Lifecycle send failed: broken pipe"),
        other => panic!("unexpected {:?}", other),
    }
    assert!(!link.connected);
    let (status, action) = link.on_message(LifecycleMessage::Send(LifecycleEvent::Exiting));
    assert!(matches!(status, Some(LifecycleStatus::Connecting)));
    assert!(matches!(action, LinkAction::Connect { retry: false }));
}

#[test]
fn connected_worker_writes_at_once() {
    let mut link = LifecycleLink::new();
    link.on_message(LifecycleMessage::Send(LifecycleEvent::Started));
    link.on_connect(Ok(()));
    link.on_write(Ok(()));
    let (status, action) = link.on_message(LifecycleMessage::Send(LifecycleEvent::WindowReady));
    assert!(status.is_none());
    match action {
        LinkAction::Write(line) => assert_eq!(line, "GAME_WINDOW_READY\n"),
        other => panic!("unexpected {:?}", other),
    }
}

/// Runs the worker's loop over the requests with scripted bridge outcomes: for each
/// request, the connection errors before a connection succeeds and the write outcome.
fn drive(
    requests: Vec<(LifecycleEvent, Vec<&str>, Result<(), &str>)>,
) -> (Vec<String>, Vec<String>, LifecycleLink) {
    let mut link = LifecycleLink::new();
    let mut reports = Vec::new();
    let mut lines = Vec::new();
    let describe = |s: LifecycleStatus| match s {
        LifecycleStatus::Connecting => "connecting".to_string(),
        LifecycleStatus::Connected => "connected".to_string(),
        LifecycleStatus::Disconnected(m) => m,
        LifecycleStatus::Sent(e) => format!("sent {}", e.label()),
    };
    for (event, errors, write) in requests {
        let mut errors = errors.into_iter();
        let (status, mut action) = link.on_message(LifecycleMessage::Send(event));
        if let Some(s) = status {
            reports.push(describe(s));
        }
        loop {
            match action {
                LinkAction::Idle => break,
                LinkAction::Connect { .. } => {
                    let result = match errors.next() {
                        Some(e) => Err(e.to_string()),
                        None => Ok(()),
                    };
                    let (s, next) = link.on_connect(result);
                    reports.push(describe(s));
                    action = next;
                }
                LinkAction::Write(line) => {
                    lines.push(line);
                    if let Some(s) = link.on_write(write.map_err(|e| e.to_string())) {
                        reports.push(describe(s));
                    }
                    break;
                }
            }
        }
    }
    (reports, lines, link)
}

#[test]
fn stream_writes_each_event_once_and_reconnects_after_a_failed_write() {
    let (reports, lines, link) = drive(vec![
        (LifecycleEvent::Started, vec!["refused"], Ok(())),
        (LifecycleEvent::WindowReady, vec!["unused"], Err("broken pipe")),
        (LifecycleEvent::Ready, vec![], Ok(())),
        (LifecycleEvent::Exiting, vec![], Ok(())),
    ]);
    assert_eq!(
        lines,
        vec!["GAME_STARTED\n", "GAME_WINDOW_READY\n", "GAME_READY\n", "GAME_EXITING\n"]
    );
    assert_eq!(
        reports,
        vec![
            "connecting",
            "Lifecycle connection failed: refused",
            "connected",
            "sent GAME_STARTED",
            "Lifecycle send failed: broken pipe",
            "connecting",
            "connected",
            "sent GAME_READY",
            "sent GAME_EXITING",
        ]
    );
    assert!(link.connected);
    assert!(link.pending.is_none());
}
