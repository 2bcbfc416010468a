//! Lifecycle events the game reports to the runtime, and the decisions of the worker
//! that delivers them over the lifecycle bridge.
use crate::text::text;
use vstd::prelude::*;
use vstd::string::*;

verus! {

/// A step of the game's life that the runtime is told about.
#[derive(Debug, Clone, Copy, PartialEq, Eq, Structural)]
pub enum LifecycleEvent {
    Started,
    WindowReady,
    DisplayReady,
    Ready,
    Exiting,
}

/// A request to the lifecycle worker.
#[derive(Debug)]
pub enum LifecycleMessage {
    Send(LifecycleEvent),
}

/// What the lifecycle worker reports back.
#[derive(Debug)]
pub enum LifecycleStatus {
    Connecting,
    Connected,
    Disconnected(String),
    Sent(LifecycleEvent),
}

impl LifecycleEvent {
    pub const STARTED: LifecycleEvent = LifecycleEvent::Started;

    pub const WINDOW_READY: LifecycleEvent = LifecycleEvent::WindowReady;

    pub const DISPLAY_READY: LifecycleEvent = LifecycleEvent::DisplayReady;

    pub const READY: LifecycleEvent = LifecycleEvent::Ready;

    pub const EXITING: LifecycleEvent = LifecycleEvent::Exiting;

    /// The wire name of the event.
    pub open spec fn spec_label(self) -> Seq<char> {
        match self {
            LifecycleEvent::Started => "GAME_STARTED"@,
            LifecycleEvent::WindowReady => "GAME_WINDOW_READY"@,
            LifecycleEvent::DisplayReady => "GAME_DISPLAY_READY"@,
            LifecycleEvent::Ready => "GAME_READY"@,
            LifecycleEvent::Exiting => "GAME_EXITING"@,
        }
    }

    pub fn label(self) -> (r: &'static str)
        ensures
            r@ == self.spec_label(),
    {
        match self {
            LifecycleEvent::Started => "GAME_STARTED",
            LifecycleEvent::WindowReady => "GAME_WINDOW_READY",
            LifecycleEvent::DisplayReady => "GAME_DISPLAY_READY",
            LifecycleEvent::Ready => "GAME_READY",
            LifecycleEvent::Exiting => "GAME_EXITING",
        }
    }
}

/// Distinct events have distinct wire names, so the runtime can tell them apart.
pub proof fn lemma_label_injective(a: LifecycleEvent, b: LifecycleEvent)
    requires
        a.spec_label() == b.spec_label(),
    ensures
        a == b,
{
    reveal_strlit("GAME_STARTED");
    reveal_strlit("GAME_WINDOW_READY");
    reveal_strlit("GAME_DISPLAY_READY");
    reveal_strlit("GAME_READY");
    reveal_strlit("GAME_EXITING");
    assert(LifecycleEvent::Started.spec_label().len() == 12);
    assert(LifecycleEvent::WindowReady.spec_label().len() == 17);
    assert(LifecycleEvent::DisplayReady.spec_label().len() == 18);
    assert(LifecycleEvent::Ready.spec_label().len() == 10);
    assert(LifecycleEvent::Exiting.spec_label().len() == 12);
    assert(LifecycleEvent::Started.spec_label()[5] == 'S');
    assert(LifecycleEvent::Exiting.spec_label()[5] == 'E');
}

/// The line written to the lifecycle bridge for an event.
pub open spec fn spec_line(event: LifecycleEvent) -> Seq<char> {
    event.spec_label() + "\n"@
}

/// What the lifecycle worker has to do next.
#[derive(Debug)]
pub enum LinkAction {
    /// Nothing until the next message arrives.
    Idle,
    /// Open the connection to the bridge (after the retry delay, when `retry` holds).
    Connect { retry: bool },
    /// Write this line to the open connection and flush it.
    Write(String),
}

/// A report of the lifecycle worker, with its text as a sequence of characters.
pub enum StatusView {
    Connecting,
    Connected,
    Disconnected(Seq<char>),
    Sent(LifecycleEvent),
}

/// What the lifecycle worker has to do next, with the line as a sequence of characters.
pub enum ActionView {
    Idle,
    Connect { retry: bool },
    Write(Seq<char>),
}

impl LifecycleStatus {
    pub open spec fn spec_view(self) -> StatusView {
        match self {
            LifecycleStatus::Connecting => StatusView::Connecting,
            LifecycleStatus::Connected => StatusView::Connected,
            LifecycleStatus::Disconnected(m) => StatusView::Disconnected(m@),
            LifecycleStatus::Sent(e) => StatusView::Sent(e),
        }
    }
}

impl LinkAction {
    pub open spec fn spec_view(self) -> ActionView {
        match self {
            LinkAction::Idle => ActionView::Idle,
            LinkAction::Connect { retry } => ActionView::Connect { retry },
            LinkAction::Write(line) => ActionView::Write(line@),
        }
    }
}

/// The report, if any, as a sequence of characters.
pub open spec fn status_view(status: Option<LifecycleStatus>) -> Option<StatusView> {
    match status {
        Some(s) => Some(s.spec_view()),
        None => None,
    }
}

/// The outcome of an outside step, with the error's text as a sequence of characters.
pub open spec fn outcome_view(result: Result<(), String>) -> Result<(), Seq<char>> {
    match result {
        Ok(()) => Ok(()),
        Err(e) => Err(e@),
    }
}

/// The lifecycle worker's state between two outside steps: whether a connection is
/// open, and which event waits to be written.
pub struct LifecycleLink {
    pub connected: bool,
    pub pending: Option<LifecycleEvent>,
}

/// A worker with no connection and nothing to send.
pub open spec fn fresh_link() -> LifecycleLink {
    LifecycleLink { connected: false, pending: None }
}

/// A request to send an event: it waits to be written; the line is written at once
/// over an open connection, else the worker reports that it connects and does so.
pub open spec fn link_on_message(link: LifecycleLink, message: LifecycleMessage) -> (
    LifecycleLink,
    Option<StatusView>,
    ActionView,
) {
    match message {
        LifecycleMessage::Send(event) => {
            let next = LifecycleLink { pending: Some(event), ..link };
            if link.connected {
                (next, None, ActionView::Write(spec_line(event)))
            } else {
                (next, Some(StatusView::Connecting), ActionView::Connect { retry: false })
            }
        },
    }
}

/// The outcome of a connection attempt: on success the worker reports it and writes
/// the waiting event; on failure it reports why and tries again after the delay.
pub open spec fn link_on_connect(link: LifecycleLink, result: Result<(), Seq<char>>) -> (
    LifecycleLink,
    StatusView,
    ActionView,
) {
    match result {
        Ok(()) => (
            LifecycleLink { connected: true, ..link },
            StatusView::Connected,
            match link.pending {
                Some(event) => ActionView::Write(spec_line(event)),
                None => ActionView::Idle,
            },
        ),
        Err(e) => (
            LifecycleLink { connected: false, ..link },
            StatusView::Disconnected("Lifecycle connection failed: "@ + e),
            ActionView::Connect { retry: true },
        ),
    }
}

/// The outcome of writing the waiting event: it is reported sent, or the connection
/// is dropped with the reason; either way nothing waits any more.
pub open spec fn link_on_write(link: LifecycleLink, result: Result<(), Seq<char>>) -> (
    LifecycleLink,
    Option<StatusView>,
) {
    match result {
        Ok(()) => (
            LifecycleLink { pending: None, ..link },
            match link.pending {
                Some(event) => Some(StatusView::Sent(event)),
                None => None,
            },
        ),
        Err(e) => (
            LifecycleLink { connected: false, pending: None },
            Some(StatusView::Disconnected("Lifecycle send failed: "@ + e)),
        ),
    }
}

impl LifecycleLink {
    pub fn new() -> (r: LifecycleLink)
        ensures
            r == fresh_link(),
    {
        LifecycleLink { connected: false, pending: None }
    }

    /// A request to send `event`: connect first where no connection is open.
    pub fn on_message(&mut self, message: LifecycleMessage) -> (r: (
        Option<LifecycleStatus>,
        LinkAction,
    ))
        ensures
            (*final(self), status_view(r.0), r.1.spec_view()) == link_on_message(
                *old(self),
                message,
            ),
    {
        match message {
            LifecycleMessage::Send(event) => {
                self.pending = Some(event);
                if self.connected {
                    (None, LinkAction::Write(line_for(event)))
                } else {
                    (Some(LifecycleStatus::Connecting), LinkAction::Connect { retry: false })
                }
            },
        }
    }

    /// The outcome of a connection attempt (the error's text where it failed): on
    /// success the pending event is written; on failure the attempt is repeated.
    pub fn on_connect(&mut self, result: Result<(), String>) -> (r: (LifecycleStatus, LinkAction))
        ensures
            (*final(self), r.0.spec_view(), r.1.spec_view()) == link_on_connect(
                *old(self),
                outcome_view(result),
            ),
    {
        match result {
            Ok(()) => {
                self.connected = true;
                let action = match self.pending {
                    Some(event) => LinkAction::Write(line_for(event)),
                    None => LinkAction::Idle,
                };
                (LifecycleStatus::Connected, action)
            },
            Err(e) => {
                self.connected = false;
                let mut m = text("Lifecycle connection failed: ");
                m.append(e.as_str());
                (LifecycleStatus::Disconnected(m), LinkAction::Connect { retry: true })
            },
        }
    }

    /// The outcome of writing the pending event: it is reported sent, or the
    /// connection is dropped so that the next message reconnects.
    pub fn on_write(&mut self, result: Result<(), String>) -> (r: Option<LifecycleStatus>)
        ensures
            (*final(self), status_view(r)) == link_on_write(*old(self), outcome_view(result)),
    {
        let pending = self.pending;
        self.pending = None;
        match result {
            Ok(()) => match pending {
                Some(event) => Some(LifecycleStatus::Sent(event)),
                None => None,
            },
            Err(e) => {
                self.connected = false;
                let mut m = text("Lifecycle send failed: ");
                m.append(e.as_str());
                Some(LifecycleStatus::Disconnected(m))
            },
        }
    }
}

/// The line that announces `event` on the lifecycle bridge.
pub fn line_for(event: LifecycleEvent) -> (r: String)
    ensures
        r@ == spec_line(event),
{
    let mut line = text(event.label());
    line.append("\n");
    line
}

} // verus!
