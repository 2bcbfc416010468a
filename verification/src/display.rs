//! Choosing the gaming display and placing the game window, and the decisions of the
//! game's event loop.
use crate::diagnostic::Diagnostic;
use crate::lifecycle::{LifecycleEvent, LifecycleMessage};
use crate::runtime::{DisplayConfig, DisplayMode, EnvValue, RuntimeConfig};
use crate::text::{decimal, push_decimal, push_signed_decimal, same_text, signed_decimal, text};
use vstd::prelude::*;
use vstd::string::*;

verus! {

/// Width of the game's internal frame, in pixels.
pub const INTERNAL_WIDTH: u32 = 800;

/// Height of the game's internal frame, in pixels.
pub const INTERNAL_HEIGHT: u32 = 600;

/// A monitor as the windowing system reports it.
#[derive(Debug, Clone)]
pub struct MonitorInfo {
    pub name: Option<String>,
    pub x: i32,
    pub y: i32,
    pub width: u32,
    pub height: u32,
}

/// Where the game window goes.
#[derive(Debug)]
pub enum DisplayTarget {
    /// The monitor at this position of the monitor list is the gaming display.
    Matched { monitor: usize, mode: DisplayMode, position: (i32, i32), size: (u32, u32) },
    /// The gaming display was asked for but cannot be used.
    NoMatch { reason: String },
    /// No runtime: a plain development window.
    DevelopmentWindow,
}

/// Whether monitor `m` sits exactly at the given rectangle.
pub open spec fn monitor_at(m: MonitorInfo, x: i32, y: i32, width: u32, height: u32) -> bool {
    m.x == x && m.y == y && m.width == width && m.height == height
}

/// The reason given where the display data cannot be used.
pub open spec fn data_reason(display: DisplayConfig, fallback: Seq<char>) -> Seq<char> {
    match display.spec_data_problem() {
        Some(p) => p,
        None => fallback,
    }
}

/// The reason given where no monitor sits at the target rectangle.
pub open spec fn no_monitor_reason(x: i32, y: i32, width: u32, height: u32) -> Seq<char> {
    "Expected monitor at "@ + signed_decimal(x as int) + ","@ + signed_decimal(y as int)
        + " size "@ + decimal(width as nat) + "x"@ + decimal(height as nat)
}

fn problem_or(display: &DisplayConfig, fallback: &str) -> (r: String)
    ensures
        r@ == data_reason(*display, fallback@),
{
    match display.data_problem() {
        Some(p) => p,
        None => text(fallback),
    }
}

/// The position of the first monitor exactly at the given rectangle.
pub fn find_monitor(monitors: &Vec<MonitorInfo>, x: i32, y: i32, width: u32, height: u32) -> (r:
    Option<usize>)
    ensures
        r matches Some(i) ==> i < monitors.len() && monitor_at(monitors@[i as int], x, y, width, height)
            && forall|j: int| 0 <= j < i ==> !monitor_at(#[trigger] monitors@[j], x, y, width, height),
        r is None ==> forall|j: int|
            0 <= j < monitors.len() ==> !monitor_at(#[trigger] monitors@[j], x, y, width, height),
{
    let mut i: usize = 0;
    while i < monitors.len()
        invariant
            i <= monitors.len(),
            forall|j: int| 0 <= j < i ==> !monitor_at(#[trigger] monitors@[j], x, y, width, height),
        decreases monitors.len() - i,
    {
        let m = &monitors[i];
        if m.x == x && m.y == y && m.width == width && m.height == height {
            return Some(i);
        }
        i = i + 1;
    }
    None
}

/// Decides where the game window goes, given the monitors the system reports.
///
/// Without a complete target rectangle the game runs in a development window, or,
/// under the runtime, reports why the display data cannot be used; likewise for an
/// unusable display mode (which outside the runtime falls back to windowed).  Else the
/// first monitor exactly at the target rectangle is the gaming display.
pub fn resolve_display_target(monitors: &Vec<MonitorInfo>, config: &RuntimeConfig) -> (r:
    DisplayTarget)
    ensures
        !config.display.spec_has_valid_target_rect() ==> if config.spec_runtime_ok() {
            r matches DisplayTarget::NoMatch { reason } && reason@ == data_reason(
                config.display,
                "Gaming Display target data missing"@,
            )
        } else {
            r is DevelopmentWindow
        },
        config.display.spec_has_valid_target_rect() && !(config.display.mode is Valid)
            && config.spec_runtime_ok() ==> (r matches DisplayTarget::NoMatch { reason }
            && reason@ == data_reason(config.display, "ONA_DISPLAY_MODE missing or invalid"@)),
        config.display.spec_has_valid_target_rect() && (config.display.mode is Valid
            || !config.spec_runtime_ok()) ==> {
            let x = config.display.x->Valid_0;
            let y = config.display.y->Valid_0;
            let w = config.display.width->Valid_0;
            let h = config.display.height->Valid_0;
            let mode = match config.display.mode {
                EnvValue::Valid(m) => m,
                _ => DisplayMode::Windowed,
            };
            match r {
                DisplayTarget::Matched { monitor, mode: m, position, size } => {
                    &&& monitor < monitors.len()
                    &&& monitor_at(monitors@[monitor as int], x, y, w, h)
                    &&& forall|j: int|
                        0 <= j < monitor ==> !monitor_at(#[trigger] monitors@[j], x, y, w, h)
                    &&& m == mode
                    &&& position == (x, y)
                    &&& size == (w, h)
                },
                DisplayTarget::NoMatch { reason } => {
                    &&& forall|j: int|
                        0 <= j < monitors.len() ==> !monitor_at(#[trigger] monitors@[j], x, y, w, h)
                    &&& reason@ == no_monitor_reason(x, y, w, h)
                },
                DisplayTarget::DevelopmentWindow => false,
            }
        },
{
    let rect = config.display.target_rect();
    let runtime_ok = config.runtime_ok();
    let (x, y, width, height) = match rect {
        Some(t) => t,
        None => {
            if runtime_ok {
                return DisplayTarget::NoMatch {
                    reason: problem_or(&config.display, "Gaming Display target data missing"),
                };
            } else {
                return DisplayTarget::DevelopmentWindow;
            }
        },
    };
    let mode = match config.display.mode {
        EnvValue::Valid(mode) => mode,
        _ => {
            if runtime_ok {
                return DisplayTarget::NoMatch {
                    reason: problem_or(&config.display, "ONA_DISPLAY_MODE missing or invalid"),
                };
            }
            DisplayMode::Windowed
        },
    };
    if let Some(i) = find_monitor(monitors, x, y, width, height) {
        return DisplayTarget::Matched { monitor: i, mode, position: (x, y), size: (width, height) };
    }
    let mut reason = text("Expected monitor at ");
    push_signed_decimal(&mut reason, x as i64);
    reason.append(",");
    push_signed_decimal(&mut reason, y as i64);
    reason.append(" size ");
    push_decimal(&mut reason, width as u64);
    reason.append("x");
    push_decimal(&mut reason, height as u64);
    DisplayTarget::NoMatch { reason }
}

/// How a monitor is shown: `name @ x,y widthxheight`.
pub open spec fn spec_monitor_label(m: MonitorInfo) -> Seq<char> {
    (match m.name {
        Some(n) => n@,
        None => "<unnamed>"@,
    }) + " @ "@ + signed_decimal(m.x as int) + ","@ + signed_decimal(m.y as int) + " "@
        + decimal(m.width as nat) + "x"@ + decimal(m.height as nat)
}

pub fn monitor_label(monitor: &MonitorInfo) -> (r: String)
    ensures
        r@ == spec_monitor_label(*monitor),
{
    let mut s = match &monitor.name {
        Some(n) => n.clone(),
        None => text("<unnamed>"),
    };
    s.append(" @ ");
    push_signed_decimal(&mut s, monitor.x as i64);
    s.append(",");
    push_signed_decimal(&mut s, monitor.y as i64);
    s.append(" ");
    push_decimal(&mut s, monitor.width as u64);
    s.append("x");
    push_decimal(&mut s, monitor.height as u64);
    s
}

/// The labels of all monitors, in order.
pub fn available_monitor_labels(monitors: &Vec<MonitorInfo>) -> (r: Vec<String>)
    ensures
        r.deep_view() == monitors@.map_values(|m: MonitorInfo| spec_monitor_label(m)),
{
    let mut r: Vec<String> = Vec::new();
    let mut i: usize = 0;
    while i < monitors.len()
        invariant
            i <= monitors.len(),
            r@.len() == i,
            forall|k: int| 0 <= k < i ==> #[trigger] r@[k]@ == spec_monitor_label(monitors@[k]),
        decreases monitors.len() - i,
    {
        let ghost prev = r@;
        r.push(monitor_label(&monitors[i]));
        proof {
            assert forall|k: int| 0 <= k < i implies #[trigger] r@[k] == prev[k] by {}
        }
        i = i + 1;
    }
    proof {
        assert forall|k: int| 0 <= k < i implies #[trigger] r.deep_view()[k] == r@[k]@ by {}
        assert(r.deep_view() =~= monitors@.map_values(|m: MonitorInfo| spec_monitor_label(m)));
    }
    r
}

/// How the game window is created.
#[derive(Debug, PartialEq, Eq)]
pub enum WindowPlan {
    /// Borderless fullscreen on the monitor at this position of the list.
    Fullscreen { monitor: usize, width: u32, height: u32 },
    /// A window at this position and of this inner size.
    Placed { x: i32, y: i32, width: u32, height: u32 },
    /// A window of this inner size wherever the system puts it.
    Sized { width: u32, height: u32 },
}

/// The window placement for a display target: fullscreen or placed on the matched
/// monitor; where nothing matched, at the target rectangle if there is one; else a
/// window of the internal size.
pub open spec fn spec_plan_window(target: DisplayTarget, display: DisplayConfig) -> WindowPlan {
    match target {
        DisplayTarget::Matched { monitor, mode, position, size } => match mode {
            DisplayMode::ConsoleFullscreen => WindowPlan::Fullscreen {
                monitor,
                width: size.0,
                height: size.1,
            },
            DisplayMode::Windowed => WindowPlan::Placed {
                x: position.0,
                y: position.1,
                width: size.0,
                height: size.1,
            },
        },
        DisplayTarget::NoMatch { .. } => if display.spec_has_valid_target_rect() {
            WindowPlan::Placed {
                x: display.x->Valid_0,
                y: display.y->Valid_0,
                width: display.width->Valid_0,
                height: display.height->Valid_0,
            }
        } else {
            WindowPlan::Sized { width: INTERNAL_WIDTH, height: INTERNAL_HEIGHT }
        },
        DisplayTarget::DevelopmentWindow => WindowPlan::Sized {
            width: INTERNAL_WIDTH,
            height: INTERNAL_HEIGHT,
        },
    }
}

pub fn plan_window(target: &DisplayTarget, display: &DisplayConfig) -> (r: WindowPlan)
    ensures
        r == spec_plan_window(*target, *display),
{
    match target {
        DisplayTarget::Matched { monitor, mode, position, size } => match mode {
            DisplayMode::ConsoleFullscreen => WindowPlan::Fullscreen {
                monitor: *monitor,
                width: size.0,
                height: size.1,
            },
            DisplayMode::Windowed => WindowPlan::Placed {
                x: position.0,
                y: position.1,
                width: size.0,
                height: size.1,
            },
        },
        DisplayTarget::NoMatch { .. } => match display.target_rect() {
            Some((x, y, width, height)) => WindowPlan::Placed { x, y, width, height },
            None => WindowPlan::Sized { width: INTERNAL_WIDTH, height: INTERNAL_HEIGHT },
        },
        DisplayTarget::DevelopmentWindow => WindowPlan::Sized {
            width: INTERNAL_WIDTH,
            height: INTERNAL_HEIGHT,
        },
    }
}

/// Records the display target on the diagnostic: a match with the matched monitor's
/// label, a failure with its reason; both with the labels of all monitors.  A
/// development window records nothing.
pub fn record_display_target(
    diagnostic: &mut Diagnostic,
    target: &DisplayTarget,
    monitors: &Vec<MonitorInfo>,
)
    requires
        old(diagnostic).wf(),
        target matches DisplayTarget::Matched { monitor, .. } ==> monitor < monitors.len(),
    ensures
        final(diagnostic).wf(),
        match target {
            DisplayTarget::Matched { monitor, .. } => final(diagnostic)@ == (
            crate::diagnostic::DiagnosticView {
                display_match_status: crate::diagnostic::TestStatus::Pass,
                display_match_reason: None,
                matched_monitor: spec_monitor_label(monitors@[*monitor as int]),
                available_monitors: monitors@.map_values(|m: MonitorInfo| spec_monitor_label(m)),
                ..old(diagnostic)@
            }),
            DisplayTarget::NoMatch { reason } => final(diagnostic)@ == (
            crate::diagnostic::DiagnosticView {
                display_match_status: crate::diagnostic::TestStatus::Fail,
                display_match_reason: Some(reason@),
                available_monitors: monitors@.map_values(|m: MonitorInfo| spec_monitor_label(m)),
                ..old(diagnostic)@
            }),
            DisplayTarget::DevelopmentWindow => final(diagnostic)@ == old(diagnostic)@,
        },
{
    match target {
        DisplayTarget::Matched { monitor, .. } => {
            let label = monitor_label(&monitors[*monitor]);
            diagnostic.mark_display_match(label, available_monitor_labels(monitors));
        },
        DisplayTarget::NoMatch { reason } => {
            diagnostic.mark_display_match_failed(reason.clone(), available_monitor_labels(monitors));
        },
        DisplayTarget::DevelopmentWindow => {},
    }
}

/// The lifecycle events announced once the window exists: the window is ready, and
/// the display too where the gaming display was matched.
pub open spec fn spec_window_events(target: DisplayTarget) -> Seq<LifecycleEvent> {
    if target is Matched {
        seq![LifecycleEvent::WindowReady, LifecycleEvent::DisplayReady]
    } else {
        seq![LifecycleEvent::WindowReady]
    }
}

pub fn window_events(target: &DisplayTarget) -> (r: Vec<LifecycleEvent>)
    ensures
        r@ == spec_window_events(*target),
{
    let mut r: Vec<LifecycleEvent> = Vec::new();
    r.push(LifecycleEvent::WindowReady);
    if matches!(target, DisplayTarget::Matched { .. }) {
        r.push(LifecycleEvent::DisplayReady);
    }
    proof {
        if target is Matched {
            assert(r@ =~= seq![LifecycleEvent::WindowReady, LifecycleEvent::DisplayReady]);
        } else {
            assert(r@ =~= seq![LifecycleEvent::WindowReady]);
        }
    }
    r
}

/// Text color for a bridge state.
pub open spec fn spec_bridge_color(status: Seq<char>) -> [u8; 3] {
    if status == "CONNECTED"@ {
        [0, 255, 0]
    } else if status == "CONNECTING"@ {
        [255, 255, 0]
    } else if status == "DISCONNECTED"@ {
        [255, 90, 90]
    } else {
        [180, 180, 180]
    }
}

pub fn bridge_color(status: &str) -> (r: [u8; 3])
    ensures
        r == spec_bridge_color(status@),
{
    if same_text(status, "CONNECTED") {
        [0, 255, 0]
    } else if same_text(status, "CONNECTING") {
        [255, 255, 0]
    } else if same_text(status, "DISCONNECTED") {
        [255, 90, 90]
    } else {
        [180, 180, 180]
    }
}

/// The exit notice, the first time only: it is returned for sending where it was not
/// sent before, and from then on counts as sent.
pub fn send_exiting_once(exiting_sent: &mut bool) -> (r: Option<LifecycleMessage>)
    ensures
        *final(exiting_sent),
        !*old(exiting_sent) ==> r == Some(LifecycleMessage::Send(LifecycleEvent::Exiting)),
        *old(exiting_sent) ==> r is None,
{
    if !*exiting_sent {
        *exiting_sent = true;
        Some(LifecycleMessage::Send(LifecycleEvent::Exiting))
    } else {
        None
    }
}

/// What the event loop has to do after one of its events.
#[derive(Debug)]
pub struct LoopStep {
    /// A lifecycle message to hand to the lifecycle worker.
    pub send: Option<LifecycleMessage>,
    /// Whether the loop ends.
    pub exit: bool,
}

/// The event loop's memory: whether the ready and exit notices have gone out.
#[derive(Debug)]
pub struct LoopState {
    pub game_ready_sent: bool,
    pub exiting_sent: bool,
}

/// An event of the window's loop, as far as the loop's decisions go.
pub enum LoopInput {
    /// The window was asked to close.
    Close,
    /// A key went down (`pressed`) or up; `escape` where it is the Escape key.
    Key { escape: bool, pressed: bool },
    /// A frame was presented (`true`), or presenting it failed (`false`).
    Frame(bool),
}

/// The loop before any event: no notice has gone out.
pub open spec fn fresh_loop() -> LoopState {
    LoopState { game_ready_sent: false, exiting_sent: false }
}

/// Ending the loop: the exit notice goes out unless it went out before.
pub open spec fn spec_close(s: LoopState) -> (LoopState, LoopStep) {
    (
        LoopState { exiting_sent: true, ..s },
        LoopStep {
            send: if s.exiting_sent {
                None
            } else {
                Some(LifecycleMessage::Send(LifecycleEvent::Exiting))
            },
            exit: true,
        },
    )
}

/// The loop's state and decision after `input`: closing the window, pressing Escape
/// or failing to present a frame ends the loop; the first presented frame announces
/// that the game is ready; any other key does nothing.
pub open spec fn spec_loop_step(s: LoopState, input: LoopInput) -> (LoopState, LoopStep) {
    match input {
        LoopInput::Close => spec_close(s),
        LoopInput::Key { escape, pressed } => if escape && pressed {
            spec_close(s)
        } else {
            (s, LoopStep { send: None, exit: false })
        },
        LoopInput::Frame(rendered) => if rendered {
            (
                LoopState { game_ready_sent: true, ..s },
                LoopStep {
                    send: if s.game_ready_sent {
                        None
                    } else {
                        Some(LifecycleMessage::Send(LifecycleEvent::Ready))
                    },
                    exit: false,
                },
            )
        } else {
            spec_close(s)
        },
    }
}

impl LoopState {
    pub fn new() -> (r: LoopState)
        ensures
            r == fresh_loop(),
    {
        LoopState { game_ready_sent: false, exiting_sent: false }
    }

    /// The window was asked to close: announce the exit, once, and end the loop.
    pub fn on_close(&mut self) -> (r: LoopStep)
        ensures
            (*final(self), r) == spec_loop_step(*old(self), LoopInput::Close),
    {
        let send = send_exiting_once(&mut self.exiting_sent);
        LoopStep { send, exit: true }
    }

    /// A key went down (`pressed`) or up: Escape going down ends the loop as closing
    /// the window does; anything else is ignored.
    pub fn on_key(&mut self, escape: bool, pressed: bool) -> (r: LoopStep)
        ensures
            (*final(self), r) == spec_loop_step(*old(self), LoopInput::Key { escape, pressed }),
    {
        if escape && pressed {
            self.on_close()
        } else {
            LoopStep { send: None, exit: false }
        }
    }

    /// A frame was presented (`rendered`) or presenting it failed.  The first
    /// presented frame announces that the game is ready; a failure ends the loop with
    /// the exit notice, once.
    pub fn on_frame(&mut self, rendered: bool) -> (r: LoopStep)
        ensures
            (*final(self), r) == spec_loop_step(*old(self), LoopInput::Frame(rendered)),
    {
        if rendered {
            if !self.game_ready_sent {
                self.game_ready_sent = true;
                LoopStep { send: Some(LifecycleMessage::Send(LifecycleEvent::Ready)), exit: false }
            } else {
                LoopStep { send: None, exit: false }
            }
        } else {
            self.on_close()
        }
    }
}

} // verus!
