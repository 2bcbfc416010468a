//! The state of the diagnostic screen: which checks have passed, failed or still wait,
//! and how input, lifecycle and display events move them.
use crate::input::{beyond_dead_zone, is_beyond_dead_zone, AxisValue, InputEvent, InputWorkerMessage};
use crate::lifecycle::{LifecycleEvent, LifecycleStatus};
use crate::runtime::{RuntimeConfig, EXPECTED_PROTOCOL_VERSION};
use crate::text::{decimal, push_decimal, same_text, text};
use vstd::prelude::*;
use vstd::string::*;

verus! {

/// Outcome of one check of the diagnostic screen.
#[derive(Debug, Clone, Copy, PartialEq, Eq, Structural)]
pub enum TestStatus {
    Waiting,
    Pass,
    Fail,
}

impl TestStatus {
    pub open spec fn spec_label(self) -> Seq<char> {
        match self {
            TestStatus::Waiting => "WAITING"@,
            TestStatus::Pass => "PASS"@,
            TestStatus::Fail => "FAIL"@,
        }
    }

    pub open spec fn spec_color(self) -> [u8; 3] {
        match self {
            TestStatus::Waiting => [180, 180, 180],
            TestStatus::Pass => [0, 255, 0],
            TestStatus::Fail => [255, 70, 70],
        }
    }

    pub fn label(self) -> (r: &'static str)
        ensures
            r@ == self.spec_label(),
    {
        match self {
            TestStatus::Waiting => "WAITING",
            TestStatus::Pass => "PASS",
            TestStatus::Fail => "FAIL",
        }
    }

    pub fn color(self) -> (r: [u8; 3])
        ensures
            r == self.spec_color(),
    {
        match self {
            TestStatus::Waiting => [180, 180, 180],
            TestStatus::Pass => [0, 255, 0],
            TestStatus::Fail => [255, 70, 70],
        }
    }
}

/// Number of buttons of the controller.
pub const BUTTON_COUNT: usize = 10;

/// The controller's buttons, in screen order.
pub open spec fn button_names() -> Seq<Seq<char>> {
    seq![
        "A"@,
        "B"@,
        "X"@,
        "Y"@,
        "L1"@,
        "L2"@,
        "R1"@,
        "R2"@,
        "Select"@,
        "Start"@,
    ]
}

/// The name of button `i`.
pub fn button_name(i: usize) -> (r: &'static str)
    requires
        i < BUTTON_COUNT,
    ensures
        r@ == button_names()[i as int],
{
    if i == 0 {
        "A"
    } else if i == 1 {
        "B"
    } else if i == 2 {
        "X"
    } else if i == 3 {
        "Y"
    } else if i == 4 {
        "L1"
    } else if i == 5 {
        "L2"
    } else if i == 6 {
        "R1"
    } else if i == 7 {
        "R2"
    } else if i == 8 {
        "Select"
    } else {
        "Start"
    }
}

/// The first position at or after `i` of the button called `name`.
pub open spec fn slot_from(name: Seq<char>, i: nat) -> Option<nat>
    decreases BUTTON_COUNT - i,
{
    if i >= BUTTON_COUNT {
        None
    } else if button_names()[i as int] == name {
        Some(i)
    } else {
        slot_from(name, i + 1)
    }
}

/// The position of the button called `name`, if it is one of the controller's.
pub open spec fn button_slot(name: Seq<char>) -> Option<nat> {
    slot_from(name, 0)
}

/// Finds the position of the button called `name`.
pub fn find_button(name: &str) -> (r: Option<usize>)
    ensures
        r is Some <==> button_slot(name@) is Some,
        r matches Some(i) ==> i < BUTTON_COUNT && button_slot(name@) == Some(i as nat),
{
    let mut i: usize = 0;
    while i < BUTTON_COUNT
        invariant
            i <= BUTTON_COUNT,
            slot_from(name@, 0) == slot_from(name@, i as nat),
        decreases BUTTON_COUNT - i,
    {
        if same_text(name, button_name(i)) {
            return Some(i);
        }
        i = i + 1;
    }
    None
}

/// The ten button names are pairwise distinct, so each names its own position.
pub proof fn lemma_button_slots()
    ensures
        forall|i: int| 0 <= i < BUTTON_COUNT ==> #[trigger] button_slot(button_names()[i]) == Some(
            i as nat,
        ),
{
    reveal_strlit("A");
    reveal_strlit("B");
    reveal_strlit("X");
    reveal_strlit("Y");
    reveal_strlit("L1");
    reveal_strlit("L2");
    reveal_strlit("R1");
    reveal_strlit("R2");
    reveal_strlit("Select");
    reveal_strlit("Start");
    reveal_with_fuel(slot_from, 11);
    let n = button_names();
    assert(n[0] =~= seq!['A']);
    assert(n[1] =~= seq!['B']);
    assert(n[2] =~= seq!['X']);
    assert(n[3] =~= seq!['Y']);
    assert(n[4] =~= seq!['L', '1']);
    assert(n[5] =~= seq!['L', '2']);
    assert(n[6] =~= seq!['R', '1']);
    assert(n[7] =~= seq!['R', '2']);
    assert(n[8] =~= seq!['S', 'e', 'l', 'e', 'c', 't']);
    assert(n[9] =~= seq!['S', 't', 'a', 'r', 't']);
    assert(n[0][0] != n[1][0]);
    assert(n[0][0] != n[2][0]);
    assert(n[1][0] != n[2][0]);
    assert(n[0][0] != n[3][0]);
    assert(n[1][0] != n[3][0]);
    assert(n[2][0] != n[3][0]);
    assert(n[0].len() != n[4].len());
    assert(n[1].len() != n[4].len());
    assert(n[2].len() != n[4].len());
    assert(n[3].len() != n[4].len());
    assert(n[0].len() != n[5].len());
    assert(n[1].len() != n[5].len());
    assert(n[2].len() != n[5].len());
    assert(n[3].len() != n[5].len());
    assert(n[4][1] != n[5][1]);
    assert(n[0].len() != n[6].len());
    assert(n[1].len() != n[6].len());
    assert(n[2].len() != n[6].len());
    assert(n[3].len() != n[6].len());
    assert(n[4][0] != n[6][0]);
    assert(n[5][0] != n[6][0]);
    assert(n[0].len() != n[7].len());
    assert(n[1].len() != n[7].len());
    assert(n[2].len() != n[7].len());
    assert(n[3].len() != n[7].len());
    assert(n[4][0] != n[7][0]);
    assert(n[5][0] != n[7][0]);
    assert(n[6][1] != n[7][1]);
    assert(n[0].len() != n[8].len());
    assert(n[1].len() != n[8].len());
    assert(n[2].len() != n[8].len());
    assert(n[3].len() != n[8].len());
    assert(n[4].len() != n[8].len());
    assert(n[5].len() != n[8].len());
    assert(n[6].len() != n[8].len());
    assert(n[7].len() != n[8].len());
    assert(n[0].len() != n[9].len());
    assert(n[1].len() != n[9].len());
    assert(n[2].len() != n[9].len());
    assert(n[3].len() != n[9].len());
    assert(n[4].len() != n[9].len());
    assert(n[5].len() != n[9].len());
    assert(n[6].len() != n[9].len());
    assert(n[7].len() != n[9].len());
    assert(n[8].len() != n[9].len());
    assert(slot_from(n[0], 0) == Some(0nat));
    assert(slot_from(n[1], 0) == Some(1nat));
    assert(slot_from(n[2], 0) == Some(2nat));
    assert(slot_from(n[3], 0) == Some(3nat));
    assert(slot_from(n[4], 0) == Some(4nat));
    assert(slot_from(n[5], 0) == Some(5nat));
    assert(slot_from(n[6], 0) == Some(6nat));
    assert(slot_from(n[7], 0) == Some(7nat));
    assert(slot_from(n[8], 0) == Some(8nat));
    assert(slot_from(n[9], 0) == Some(9nat));
}

/// One waiting status per controller button.
pub open spec fn all_waiting() -> Seq<TestStatus> {
    Seq::new(BUTTON_COUNT as nat, |i: int| TestStatus::Waiting)
}

/// The pressed/released map that a list of `(button, pressed)` entries stands for;
/// a later entry for the same button overrides an earlier one.
pub open spec fn pressed_map(entries: Seq<(Seq<char>, bool)>) -> Map<Seq<char>, bool>
    decreases entries.len(),
{
    if entries.len() == 0 {
        Map::empty()
    } else {
        pressed_map(entries.drop_last()).insert(entries.last().0, entries.last().1)
    }
}

/// No button occurs twice among the entries.
pub open spec fn unique_keys(entries: Seq<(Seq<char>, bool)>) -> bool {
    forall|i: int, j: int|
        0 <= i < entries.len() && 0 <= j < entries.len() && i != j ==> #[trigger] entries[i].0
            != #[trigger] entries[j].0
}

proof fn lemma_pressed_map_lookup(entries: Seq<(Seq<char>, bool)>, key: Seq<char>)
    requires
        unique_keys(entries),
    ensures
        pressed_map(entries).contains_key(key) <==> exists|j: int|
            0 <= j < entries.len() && #[trigger] entries[j].0 == key,
        forall|j: int|
            0 <= j < entries.len() && #[trigger] entries[j].0 == key ==> pressed_map(entries)[key]
                == entries[j].1,
    decreases entries.len(),
{
    if entries.len() > 0 {
        let rest = entries.drop_last();
        assert(unique_keys(rest));
        lemma_pressed_map_lookup(rest, key);
        let last = entries.len() - 1;
        assert(entries[last] == entries.last());
        assert forall|j: int| 0 <= j < rest.len() implies #[trigger] rest[j] == entries[j] by {}
        if pressed_map(entries).contains_key(key) && entries.last().0 != key {
            assert(pressed_map(rest).contains_key(key));
        }
        if exists|j: int| 0 <= j < entries.len() && #[trigger] entries[j].0 == key {
            let j = choose|j: int| 0 <= j < entries.len() && #[trigger] entries[j].0 == key;
            if j < last {
                assert(rest[j].0 == key);
            }
            assert(pressed_map(entries).contains_key(key));
        }
        if exists|j: int| 0 <= j < rest.len() && #[trigger] rest[j].0 == key {
            let j = choose|j: int| 0 <= j < rest.len() && #[trigger] rest[j].0 == key;
            assert(entries[j].0 == key);
        }
        assert forall|j: int|
            0 <= j < entries.len() && #[trigger] entries[j].0 == key implies pressed_map(
            entries,
        )[key] == entries[j].1 by {
            if j < entries.len() - 1 {
                assert(rest[j] == entries[j]);
                assert(entries.last().0 != key);
            }
        }
    }
}

proof fn lemma_pressed_map_update(entries: Seq<(Seq<char>, bool)>, j: int, value: bool)
    requires
        unique_keys(entries),
        0 <= j < entries.len(),
    ensures
        unique_keys(entries.update(j, (entries[j].0, value))),
        pressed_map(entries.update(j, (entries[j].0, value))) =~= pressed_map(entries).insert(
            entries[j].0,
            value,
        ),
    decreases entries.len(),
{
    let updated = entries.update(j, (entries[j].0, value));
    assert(unique_keys(updated)) by {
        assert forall|a: int, b: int|
            0 <= a < updated.len() && 0 <= b < updated.len() && a != b implies #[trigger] updated[a].0
            != #[trigger] updated[b].0 by {
            assert(updated[a].0 == entries[a].0);
            assert(updated[b].0 == entries[b].0);
        }
    }
    let rest = entries.drop_last();
    if j == entries.len() - 1 {
        assert(updated.drop_last() =~= rest);
    } else {
        assert(unique_keys(rest));
        lemma_pressed_map_update(rest, j, value);
        assert(updated.drop_last() =~= rest.update(j, (rest[j].0, value)));
        assert(entries.last().0 != entries[j].0);
    }
}

/// The abstract state of the diagnostic screen.
pub struct DiagnosticView {
    pub joystick_x: (u32, Seq<char>),
    pub joystick_y: (u32, Seq<char>),
    pub buttons: Map<Seq<char>, bool>,
    pub last_event: Seq<char>,
    pub bridge_status: Seq<char>,
    pub bridge_reason: Option<Seq<char>>,
    pub runtime_status: TestStatus,
    pub runtime_reason: Option<Seq<char>>,
    pub protocol_status: TestStatus,
    pub protocol_reason: Option<Seq<char>>,
    pub protocol_display: Seq<char>,
    pub input_bridge_status: TestStatus,
    pub display_data_status: TestStatus,
    pub display_data_reason: Option<Seq<char>>,
    pub display_match_status: TestStatus,
    pub display_match_reason: Option<Seq<char>>,
    pub matched_monitor: Seq<char>,
    pub available_monitors: Seq<Seq<char>>,
    pub lifecycle_bridge_status: TestStatus,
    pub lifecycle_bridge_label: Seq<char>,
    pub lifecycle_reason: Option<Seq<char>>,
    pub game_started_status: TestStatus,
    pub game_window_ready_status: TestStatus,
    pub game_display_ready_status: TestStatus,
    pub game_ready_status: TestStatus,
    pub game_exiting_status: TestStatus,
    pub player_id_status: TestStatus,
    pub joystick_status: TestStatus,
    pub pressed_status: TestStatus,
    pub released_status: TestStatus,
    pub button_statuses: Seq<TestStatus>,
    pub player_id: Option<u32>,
    pub input_active: bool,
}

/// The diagnostic screen's state.  The buttons seen so far are kept as a list of
/// `(button, pressed)` entries with no button twice; the check status of each of the
/// controller's buttons is kept at the button's position in [`button_names`].
pub struct Diagnostic {
    pub joystick_x: AxisValue,
    pub joystick_y: AxisValue,
    pub buttons: Vec<(String, bool)>,
    pub last_event: String,
    pub bridge_status: String,
    pub bridge_reason: Option<String>,
    pub runtime_status: TestStatus,
    pub runtime_reason: Option<String>,
    pub protocol_status: TestStatus,
    pub protocol_reason: Option<String>,
    pub protocol_display: String,
    pub input_bridge_status: TestStatus,
    pub display_data_status: TestStatus,
    pub display_data_reason: Option<String>,
    pub display_match_status: TestStatus,
    pub display_match_reason: Option<String>,
    pub matched_monitor: String,
    pub available_monitors: Vec<String>,
    pub lifecycle_bridge_status: TestStatus,
    pub lifecycle_bridge_label: String,
    pub lifecycle_reason: Option<String>,
    pub game_started_status: TestStatus,
    pub game_window_ready_status: TestStatus,
    pub game_display_ready_status: TestStatus,
    pub game_ready_status: TestStatus,
    pub game_exiting_status: TestStatus,
    pub player_id_status: TestStatus,
    pub joystick_status: TestStatus,
    pub pressed_status: TestStatus,
    pub released_status: TestStatus,
    pub button_statuses: Vec<TestStatus>,
    pub player_id: Option<u32>,
    pub input_active: bool,
}

impl View for Diagnostic {
    type V = DiagnosticView;

    open spec fn view(&self) -> DiagnosticView {
        DiagnosticView {
            joystick_x: (self.joystick_x.bits, self.joystick_x.text@),
            joystick_y: (self.joystick_y.bits, self.joystick_y.text@),
            buttons: pressed_map(self.buttons.deep_view()),
            last_event: self.last_event@,
            bridge_status: self.bridge_status@,
            bridge_reason: self.bridge_reason.deep_view(),
            runtime_status: self.runtime_status,
            runtime_reason: self.runtime_reason.deep_view(),
            protocol_status: self.protocol_status,
            protocol_reason: self.protocol_reason.deep_view(),
            protocol_display: self.protocol_display@,
            input_bridge_status: self.input_bridge_status,
            display_data_status: self.display_data_status,
            display_data_reason: self.display_data_reason.deep_view(),
            display_match_status: self.display_match_status,
            display_match_reason: self.display_match_reason.deep_view(),
            matched_monitor: self.matched_monitor@,
            available_monitors: self.available_monitors.deep_view(),
            lifecycle_bridge_status: self.lifecycle_bridge_status,
            lifecycle_bridge_label: self.lifecycle_bridge_label@,
            lifecycle_reason: self.lifecycle_reason.deep_view(),
            game_started_status: self.game_started_status,
            game_window_ready_status: self.game_window_ready_status,
            game_display_ready_status: self.game_display_ready_status,
            game_ready_status: self.game_ready_status,
            game_exiting_status: self.game_exiting_status,
            player_id_status: self.player_id_status,
            joystick_status: self.joystick_status,
            pressed_status: self.pressed_status,
            released_status: self.released_status,
            button_statuses: self.button_statuses@,
            player_id: self.player_id,
            input_active: self.input_active,
        }
    }
}

impl DiagnosticView {
    /// The shape every diagnostic state has: one status per controller button.
    pub open spec fn wf(self) -> bool {
        self.button_statuses.len() == BUTTON_COUNT
    }

    /// The check status of the button called `name`; unknown names are waiting.
    pub open spec fn button_status(self, name: Seq<char>) -> TestStatus {
        match button_slot(name) {
            Some(i) => self.button_statuses[i as int],
            None => TestStatus::Waiting,
        }
    }

    /// Whether the button called `name` was last seen down.
    pub open spec fn is_pressed(self, name: Seq<char>) -> bool {
        self.buttons.contains_key(name) && self.buttons[name]
    }

    /// Every check of the integration test has passed (the exit notice is not one).
    pub open spec fn all_passed(self) -> bool {
        &&& self.runtime_status == TestStatus::Pass
        &&& self.protocol_status == TestStatus::Pass
        &&& self.input_bridge_status == TestStatus::Pass
        &&& self.display_data_status == TestStatus::Pass
        &&& self.display_match_status == TestStatus::Pass
        &&& self.lifecycle_bridge_status == TestStatus::Pass
        &&& self.game_started_status == TestStatus::Pass
        &&& self.game_window_ready_status == TestStatus::Pass
        &&& self.game_display_ready_status == TestStatus::Pass
        &&& self.game_ready_status == TestStatus::Pass
        &&& self.player_id_status == TestStatus::Pass
        &&& self.joystick_status == TestStatus::Pass
        &&& self.pressed_status == TestStatus::Pass
        &&& self.released_status == TestStatus::Pass
        &&& forall|i: int|
            0 <= i < BUTTON_COUNT ==> #[trigger] self.button_status(button_names()[i])
                == TestStatus::Pass
    }

    /// A player has shown up.
    pub open spec fn with_player(self, player_id: u32) -> DiagnosticView {
        DiagnosticView {
            player_id: Some(player_id),
            player_id_status: TestStatus::Pass,
            ..self
        }
    }

    /// The state after an input event.
    pub open spec fn after_input(self, event: InputEvent) -> DiagnosticView {
        match event {
            InputEvent::Joystick { player_id, x, y } => {
                let moved = self.with_player(player_id);
                DiagnosticView {
                    input_active: true,
                    joystick_x: (x.bits, x.text@),
                    joystick_y: (y.bits, y.text@),
                    joystick_status: if beyond_dead_zone(x.bits) || beyond_dead_zone(y.bits) {
                        TestStatus::Pass
                    } else {
                        self.joystick_status
                    },
                    last_event: "Joystick p"@ + decimal(player_id as nat) + ": "@ + x.text@
                        + ", "@ + y.text@,
                    ..moved
                }
            },
            InputEvent::Button { player_id, button, state } => {
                let seen = self.with_player(player_id);
                let is_down = state@ == "down"@ || state@ == "pressed"@;
                let is_up = state@ == "up"@ || state@ == "released"@;
                DiagnosticView {
                    input_active: true,
                    buttons: if is_down || is_up {
                        self.buttons.insert(button@, is_down)
                    } else {
                        self.buttons
                    },
                    button_statuses: match button_slot(button@) {
                        Some(i) => if is_down || is_up {
                            self.button_statuses.update(i as int, TestStatus::Pass)
                        } else {
                            self.button_statuses
                        },
                        None => self.button_statuses,
                    },
                    pressed_status: if is_down {
                        TestStatus::Pass
                    } else {
                        self.pressed_status
                    },
                    released_status: if is_up {
                        TestStatus::Pass
                    } else {
                        self.released_status
                    },
                    last_event: "Button p"@ + decimal(player_id as nat) + ": "@ + button@ + " "@
                        + state@,
                    ..seen
                }
            },
        }
    }

    /// The state after a message of the input worker.
    pub open spec fn after_worker_message(self, message: InputWorkerMessage) -> DiagnosticView {
        match message {
            InputWorkerMessage::Connecting => DiagnosticView {
                bridge_status: "CONNECTING"@,
                ..self
            },
            InputWorkerMessage::Connected => DiagnosticView {
                bridge_status: "CONNECTED"@,
                bridge_reason: None,
                input_bridge_status: TestStatus::Pass,
                ..self
            },
            InputWorkerMessage::Disconnected(reason) => DiagnosticView {
                bridge_status: "DISCONNECTED"@,
                bridge_reason: Some(reason@),
                ..self
            },
            InputWorkerMessage::InvalidJson(reason) => DiagnosticView {
                last_event: reason@,
                bridge_reason: Some(reason@),
                ..self
            },
            InputWorkerMessage::Event(Ok(event)) => self.after_input(event),
            InputWorkerMessage::Event(Err(error)) => DiagnosticView {
                last_event: "Invalid event payload: "@ + error@,
                ..self
            },
        }
    }

    /// The state after a report of the lifecycle worker.
    pub open spec fn after_lifecycle_status(self, status: LifecycleStatus) -> DiagnosticView {
        match status {
            LifecycleStatus::Connecting => DiagnosticView {
                lifecycle_bridge_label: "CONNECTING"@,
                ..self
            },
            LifecycleStatus::Connected => DiagnosticView {
                lifecycle_bridge_label: "CONNECTED"@,
                lifecycle_bridge_status: TestStatus::Pass,
                lifecycle_reason: None,
                ..self
            },
            LifecycleStatus::Disconnected(reason) => DiagnosticView {
                lifecycle_bridge_label: "DISCONNECTED"@,
                lifecycle_reason: Some(reason@),
                ..self
            },
            LifecycleStatus::Sent(event) => match event {
                LifecycleEvent::Started => DiagnosticView {
                    game_started_status: TestStatus::Pass,
                    ..self
                },
                LifecycleEvent::WindowReady => DiagnosticView {
                    game_window_ready_status: TestStatus::Pass,
                    ..self
                },
                LifecycleEvent::DisplayReady => DiagnosticView {
                    game_display_ready_status: TestStatus::Pass,
                    ..self
                },
                LifecycleEvent::Ready => DiagnosticView {
                    game_ready_status: TestStatus::Pass,
                    ..self
                },
                LifecycleEvent::Exiting => DiagnosticView {
                    game_exiting_status: TestStatus::Pass,
                    ..self
                },
            },
        }
    }

    /// The state after the game window was placed on the expected monitor.
    pub open spec fn after_display_match(
        self,
        matched_monitor: Seq<char>,
        available_monitors: Seq<Seq<char>>,
    ) -> DiagnosticView {
        DiagnosticView {
            display_match_status: TestStatus::Pass,
            display_match_reason: None,
            matched_monitor,
            available_monitors,
            ..self
        }
    }

    /// The state after no monitor matched the expected display, for `reason`.
    pub open spec fn after_display_match_failed(
        self,
        reason: Seq<char>,
        available_monitors: Seq<Seq<char>>,
    ) -> DiagnosticView {
        DiagnosticView {
            display_match_status: TestStatus::Fail,
            display_match_reason: Some(reason),
            available_monitors,
            ..self
        }
    }

    /// The state after the input test was restarted: the input checks wait again,
    /// the configuration, display and lifecycle checks are kept.
    pub open spec fn after_restart(self) -> DiagnosticView {
        DiagnosticView {
            joystick_x: (0, "0.00"@),
            joystick_y: (0, "0.00"@),
            buttons: Map::empty(),
            last_event: "Test restarted"@,
            player_id: None,
            input_active: false,
            player_id_status: TestStatus::Waiting,
            joystick_status: TestStatus::Waiting,
            pressed_status: TestStatus::Waiting,
            released_status: TestStatus::Waiting,
            button_statuses: all_waiting(),
            ..self
        }
    }
}

impl Diagnostic {
    /// The shape every diagnostic state has.
    pub open spec fn wf(&self) -> bool {
        &&& self.button_statuses@.len() == BUTTON_COUNT
        &&& unique_keys(self.buttons.deep_view())
    }

    fn mark_player(&mut self, player_id: u32)
        ensures
            final(self)@ == old(self)@.with_player(player_id),
            final(self).buttons == old(self).buttons,
            final(self).button_statuses == old(self).button_statuses,
    {
        self.player_id = Some(player_id);
        self.player_id_status = TestStatus::Pass;
    }
}

/// `Pass` where `passed`, else the status as it was.
fn passed_if(passed: bool, status: TestStatus) -> (r: TestStatus)
    ensures
        r == if passed {
            TestStatus::Pass
        } else {
            status
        },
{
    if passed {
        TestStatus::Pass
    } else {
        status
    }
}

/// Notes a button that went down (`is_down`) or up (`is_up`): it is recorded as pressed
/// or released, and its check passes where it is one of the controller's.
fn note_button(
    buttons: &mut Vec<(String, bool)>,
    statuses: &mut Vec<TestStatus>,
    button: &String,
    is_down: bool,
    is_up: bool,
)
    requires
        unique_keys(old(buttons).deep_view()),
        old(statuses)@.len() == BUTTON_COUNT,
    ensures
        unique_keys(final(buttons).deep_view()),
        final(statuses)@.len() == BUTTON_COUNT,
        pressed_map(final(buttons).deep_view()) == if is_down || is_up {
            pressed_map(old(buttons).deep_view()).insert(button@, is_down)
        } else {
            pressed_map(old(buttons).deep_view())
        },
        final(statuses)@ == match button_slot(button@) {
            Some(i) => if is_down || is_up {
                old(statuses)@.update(i as int, TestStatus::Pass)
            } else {
                old(statuses)@
            },
            None => old(statuses)@,
        },
{
    if is_down || is_up {
        record_button(buttons, button, is_down);
        match find_button(button.as_str()) {
            Some(i) => statuses.set(i, TestStatus::Pass),
            None => {},
        }
    }
}

/// Records in `buttons` that `button` was last seen down (`pressed`) or up.
fn record_button(buttons: &mut Vec<(String, bool)>, button: &String, pressed: bool)
    requires
        unique_keys(old(buttons).deep_view()),
    ensures
        unique_keys(final(buttons).deep_view()),
        pressed_map(final(buttons).deep_view()) == pressed_map(
            old(buttons).deep_view(),
        ).insert(button@, pressed),
{
    let ghost entries = buttons.deep_view();
    let mut j: usize = 0;
    while j < buttons.len()
        invariant
            j <= buttons.len(),
            entries == buttons.deep_view(),
            entries == old(buttons).deep_view(),
            unique_keys(entries),
            forall|k: int| 0 <= k < j ==> #[trigger] entries[k].0 != button@,
        decreases buttons.len() - j,
    {
        if buttons[j].0 == *button {
            proof {
                assert(entries[j as int].0 == button@);
                lemma_pressed_map_update(entries, j as int, pressed);
            }
            let name = buttons[j].0.clone();
            buttons.set(j, (name, pressed));
            proof {
                assert(buttons.deep_view() =~= entries.update(
                    j as int,
                    (entries[j as int].0, pressed),
                ));
            }
            return ;
        }
        j = j + 1;
    }
    buttons.push((button.clone(), pressed));
    proof {
        let pushed = entries.push((button@, pressed));
        assert(buttons.deep_view() =~= pushed);
        assert(pushed.drop_last() =~= entries);
        assert(unique_keys(pushed)) by {
            assert forall|a: int, b: int|
                0 <= a < pushed.len() && 0 <= b < pushed.len() && a != b implies #[trigger] pushed[a].0
                != #[trigger] pushed[b].0 by {
                if a < entries.len() && b < entries.len() {
                    assert(pushed[a] == entries[a]);
                    assert(pushed[b] == entries[b]);
                } else if a < entries.len() {
                    assert(pushed[a] == entries[a]);
                } else {
                    assert(pushed[b] == entries[b]);
                }
            }
        }
    }
}


/// Status of the runtime check: waiting where no runtime is present.
pub open spec fn initial_runtime_status(config: RuntimeConfig) -> TestStatus {
    if config.runtime_raw is None {
        TestStatus::Waiting
    } else if config.spec_runtime_ok() {
        TestStatus::Pass
    } else {
        TestStatus::Fail
    }
}

pub open spec fn initial_runtime_reason(config: RuntimeConfig) -> Option<Seq<char>> {
    if config.runtime_raw is None {
        Some("STANDALONE MODE"@)
    } else if config.spec_runtime_ok() {
        None
    } else {
        Some("ONA_RUNTIME was not provided or was not 1"@)
    }
}

/// Whether the game runs on its own, with neither runtime nor protocol configured.
pub open spec fn standalone(config: RuntimeConfig) -> bool {
    config.runtime_raw is None && config.protocol_raw is None
}

pub open spec fn initial_protocol_status(config: RuntimeConfig) -> TestStatus {
    if standalone(config) {
        TestStatus::Waiting
    } else if config.spec_protocol_ok() {
        TestStatus::Pass
    } else {
        TestStatus::Fail
    }
}

/// The raw text of an optional value, `<missing>` where there is none.
pub open spec fn or_missing(raw: Option<String>) -> Seq<char> {
    match raw {
        Some(s) => s@,
        None => "<missing>"@,
    }
}

pub open spec fn initial_protocol_reason(config: RuntimeConfig) -> Option<Seq<char>> {
    if standalone(config) {
        Some("STANDALONE MODE"@)
    } else if config.spec_protocol_ok() {
        None
    } else {
        Some(
            "Expected: "@ + EXPECTED_PROTOCOL_VERSION@ + ", Received: "@ + or_missing(
                config.protocol_raw,
            ),
        )
    }
}

/// Why a bridge cannot be reached with the given host and port, if it cannot.
pub open spec fn bridge_problem(
    config: RuntimeConfig,
    host: Option<String>,
    port_raw: Option<String>,
    port: Option<u16>,
    host_key: Seq<char>,
    port_key: Seq<char>,
) -> Option<Seq<char>> {
    if config.spec_runtime_ok() && config.spec_protocol_ok() {
        if host is None {
            Some(host_key + " was not provided"@)
        } else if port_raw is None {
            Some(port_key + " was not provided"@)
        } else if port is None {
            Some(port_key + " is invalid: "@ + port_raw->0@)
        } else {
            None
        }
    } else {
        Some("Waiting for valid runtime and protocol configuration"@)
    }
}

pub open spec fn initial_display_data_status(config: RuntimeConfig) -> TestStatus {
    if config.display.spec_display_data_ok() {
        TestStatus::Pass
    } else if config.spec_runtime_ok() {
        TestStatus::Fail
    } else {
        TestStatus::Waiting
    }
}

/// The state of a fresh diagnostic for `config`.
pub open spec fn initial_view(config: RuntimeConfig) -> DiagnosticView {
    let fresh = DiagnosticView {
        joystick_x: (0, "0.00"@),
        joystick_y: (0, "0.00"@),
        buttons: Map::empty(),
        last_event: "None"@,
        bridge_status: "NOT STARTED"@,
        bridge_reason: bridge_problem(
            config,
            config.input_host,
            config.input_port_raw,
            config.input_port,
            "ONA_INPUT_HOST"@,
            "ONA_INPUT_PORT"@,
        ),
        runtime_status: initial_runtime_status(config),
        runtime_reason: initial_runtime_reason(config),
        protocol_status: initial_protocol_status(config),
        protocol_reason: initial_protocol_reason(config),
        protocol_display: or_missing(config.protocol_raw),
        input_bridge_status: TestStatus::Waiting,
        display_data_status: initial_display_data_status(config),
        display_data_reason: config.display.spec_data_problem(),
        display_match_status: TestStatus::Waiting,
        display_match_reason: None,
        matched_monitor: "<none>"@,
        available_monitors: Seq::empty(),
        lifecycle_bridge_status: TestStatus::Waiting,
        lifecycle_bridge_label: "NOT STARTED"@,
        lifecycle_reason: bridge_problem(
            config,
            config.lifecycle_host,
            config.lifecycle_port_raw,
            config.lifecycle_port,
            "ONA_LIFECYCLE_HOST"@,
            "ONA_LIFECYCLE_PORT"@,
        ),
        game_started_status: TestStatus::Waiting,
        game_window_ready_status: TestStatus::Waiting,
        game_display_ready_status: TestStatus::Waiting,
        game_ready_status: TestStatus::Waiting,
        game_exiting_status: TestStatus::Waiting,
        player_id_status: TestStatus::Waiting,
        joystick_status: TestStatus::Waiting,
        pressed_status: TestStatus::Waiting,
        released_status: TestStatus::Waiting,
        button_statuses: all_waiting(),
        player_id: None,
        input_active: false,
    };
    match config.player_id {
        Some(p) => fresh.with_player(p),
        None => fresh,
    }
}

/// One waiting status per controller button.
fn waiting_statuses() -> (r: Vec<TestStatus>)
    ensures
        r@ == all_waiting(),
{
    let mut r: Vec<TestStatus> = Vec::new();
    let mut i: usize = 0;
    while i < BUTTON_COUNT
        invariant
            i <= BUTTON_COUNT,
            r@ == Seq::new(i as nat, |k: int| TestStatus::Waiting),
        decreases BUTTON_COUNT - i,
    {
        r.push(TestStatus::Waiting);
        i = i + 1;
        proof {
            assert(r@ =~= Seq::new(i as nat, |k: int| TestStatus::Waiting));
        }
    }
    r
}

fn bridge_reason_for(
    config: &RuntimeConfig,
    host: &Option<String>,
    port_raw: &Option<String>,
    port: Option<u16>,
    host_key: &str,
    port_key: &str,
) -> (r: Option<String>)
    ensures
        r.deep_view() == bridge_problem(*config, *host, *port_raw, port, host_key@, port_key@),
{
    if config.runtime_ok() && config.protocol_ok() {
        match (host, port_raw, port) {
            (None, _, _) => {
                let mut m = text(host_key);
                m.append(" was not provided");
                Some(m)
            },
            (_, None, _) => {
                let mut m = text(port_key);
                m.append(" was not provided");
                Some(m)
            },
            (_, Some(raw), None) => {
                let mut m = text(port_key);
                m.append(" is invalid: ");
                m.append(raw.as_str());
                Some(m)
            },
            _ => None,
        }
    } else {
        Some(text("Waiting for valid runtime and protocol configuration"))
    }
}

impl Diagnostic {
    /// A fresh diagnostic for `config`: the configuration checks are decided at once,
    /// everything else waits.
    pub fn new(config: &RuntimeConfig) -> (r: Diagnostic)
        ensures
            r.wf(),
            r@ == initial_view(*config),
    {
        let button_statuses = waiting_statuses();
        let runtime_ok = config.runtime_ok();
        let protocol_ok = config.protocol_ok();
        let runtime_status = if config.runtime_raw.is_none() {
            TestStatus::Waiting
        } else if runtime_ok {
            TestStatus::Pass
        } else {
            TestStatus::Fail
        };
        let runtime_reason = if config.runtime_raw.is_none() {
            Some(text("STANDALONE MODE"))
        } else if runtime_ok {
            None
        } else {
            Some(text("ONA_RUNTIME was not provided or was not 1"))
        };
        let is_standalone = config.runtime_raw.is_none() && config.protocol_raw.is_none();
        let protocol_status = if is_standalone {
            TestStatus::Waiting
        } else if protocol_ok {
            TestStatus::Pass
        } else {
            TestStatus::Fail
        };
        let protocol_reason = if is_standalone {
            Some(text("STANDALONE MODE"))
        } else if protocol_ok {
            None
        } else {
            let mut m = text("Expected: ");
            m.append(EXPECTED_PROTOCOL_VERSION);
            m.append(", Received: ");
            match &config.protocol_raw {
                Some(raw) => m.append(raw.as_str()),
                None => m.append("<missing>"),
            }
            Some(m)
        };
        let protocol_display = match &config.protocol_raw {
            Some(raw) => raw.clone(),
            None => text("<missing>"),
        };
        let bridge_reason = bridge_reason_for(
            config,
            &config.input_host,
            &config.input_port_raw,
            config.input_port,
            "ONA_INPUT_HOST",
            "ONA_INPUT_PORT",
        );
        let display_data_status = if config.display.display_data_ok() {
            TestStatus::Pass
        } else if runtime_ok {
            TestStatus::Fail
        } else {
            TestStatus::Waiting
        };
        let display_data_reason = config.display.data_problem();
        let lifecycle_reason = bridge_reason_for(
            config,
            &config.lifecycle_host,
            &config.lifecycle_port_raw,
            config.lifecycle_port,
            "ONA_LIFECYCLE_HOST",
            "ONA_LIFECYCLE_PORT",
        );
        let mut diagnostic = Diagnostic {
            joystick_x: AxisValue::zero(),
            joystick_y: AxisValue::zero(),
            buttons: Vec::new(),
            last_event: text("None"),
            bridge_status: text("NOT STARTED"),
            bridge_reason,
            runtime_status,
            runtime_reason,
            protocol_status,
            protocol_reason,
            protocol_display,
            input_bridge_status: TestStatus::Waiting,
            display_data_status,
            display_data_reason,
            display_match_status: TestStatus::Waiting,
            display_match_reason: None,
            matched_monitor: text("<none>"),
            available_monitors: Vec::new(),
            lifecycle_bridge_status: TestStatus::Waiting,
            lifecycle_bridge_label: text("NOT STARTED"),
            lifecycle_reason,
            game_started_status: TestStatus::Waiting,
            game_window_ready_status: TestStatus::Waiting,
            game_display_ready_status: TestStatus::Waiting,
            game_ready_status: TestStatus::Waiting,
            game_exiting_status: TestStatus::Waiting,
            player_id_status: TestStatus::Waiting,
            joystick_status: TestStatus::Waiting,
            pressed_status: TestStatus::Waiting,
            released_status: TestStatus::Waiting,
            button_statuses,
            player_id: None,
            input_active: false,
        };
        proof {
            assert(diagnostic.buttons.deep_view() =~= Seq::<(Seq<char>, bool)>::empty());
            assert(diagnostic.available_monitors.deep_view() =~= Seq::<Seq<char>>::empty());
            assert(pressed_map(diagnostic.buttons.deep_view()) =~= Map::empty());
        }
        if let Some(player_id) = config.player_id {
            diagnostic.mark_player(player_id);
        }
        proof {
            assert(diagnostic@ == initial_view(*config));
        }
        diagnostic
    }
}


impl Diagnostic {
    /// Applies a message of the input worker.
    pub fn handle_worker_message(&mut self, message: InputWorkerMessage)
        requires
            old(self).wf(),
        ensures
            final(self).wf(),
            final(self)@ == old(self)@.after_worker_message(message),
    {
        match message {
            InputWorkerMessage::Connecting => self.bridge_connecting(),
            InputWorkerMessage::Connected => self.bridge_connected(),
            InputWorkerMessage::Disconnected(reason) => self.bridge_disconnected(reason),
            InputWorkerMessage::InvalidJson(reason) => self.invalid_json(reason),
            InputWorkerMessage::Event(decoded) => match decoded {
                Ok(event) => self.update(&event),
                Err(error) => self.invalid_payload(error),
            },
        }
    }

    fn bridge_connecting(&mut self)
        requires
            old(self).wf(),
        ensures
            final(self).wf(),
            final(self)@ == old(self)@.after_worker_message(InputWorkerMessage::Connecting),
    {
        self.bridge_status = text("CONNECTING");
    }

    fn bridge_connected(&mut self)
        requires
            old(self).wf(),
        ensures
            final(self).wf(),
            final(self)@ == old(self)@.after_worker_message(InputWorkerMessage::Connected),
    {
        self.bridge_status = text("CONNECTED");
        self.bridge_reason = None;
        self.input_bridge_status = TestStatus::Pass;
    }

    fn bridge_disconnected(&mut self, reason: String)
        requires
            old(self).wf(),
        ensures
            final(self).wf(),
            final(self)@ == old(self)@.after_worker_message(InputWorkerMessage::Disconnected(reason)),
    {
        self.bridge_status = text("DISCONNECTED");
        self.bridge_reason = Some(reason);
    }

    fn invalid_json(&mut self, reason: String)
        requires
            old(self).wf(),
        ensures
            final(self).wf(),
            final(self)@ == old(self)@.after_worker_message(InputWorkerMessage::InvalidJson(reason)),
    {
        self.last_event = reason.clone();
        self.bridge_reason = Some(reason);
    }

    fn invalid_payload(&mut self, error: String)
        requires
            old(self).wf(),
        ensures
            final(self).wf(),
            final(self)@ == old(self)@.after_worker_message(InputWorkerMessage::Event(Err(error))),
    {
        let mut m = text("Invalid event payload: ");
        m.append(error.as_str());
        self.last_event = m;
    }

    /// Applies a report of the lifecycle worker.
    pub fn handle_lifecycle_status(&mut self, status: LifecycleStatus)
        requires
            old(self).wf(),
        ensures
            final(self).wf(),
            final(self)@ == old(self)@.after_lifecycle_status(status),
    {
        match status {
            LifecycleStatus::Connecting => self.lifecycle_connecting(),
            LifecycleStatus::Connected => self.lifecycle_connected(),
            LifecycleStatus::Disconnected(reason) => self.lifecycle_disconnected(reason),
            LifecycleStatus::Sent(event) => self.lifecycle_sent(event),
        }
    }

    fn lifecycle_connecting(&mut self)
        requires
            old(self).wf(),
        ensures
            final(self).wf(),
            final(self)@ == old(self)@.after_lifecycle_status(LifecycleStatus::Connecting),
    {
        self.lifecycle_bridge_label = text("CONNECTING");
    }

    fn lifecycle_connected(&mut self)
        requires
            old(self).wf(),
        ensures
            final(self).wf(),
            final(self)@ == old(self)@.after_lifecycle_status(LifecycleStatus::Connected),
    {
        self.lifecycle_bridge_label = text("CONNECTED");
        self.lifecycle_bridge_status = TestStatus::Pass;
        self.lifecycle_reason = None;
    }

    fn lifecycle_disconnected(&mut self, reason: String)
        requires
            old(self).wf(),
        ensures
            final(self).wf(),
            final(self)@ == old(self)@.after_lifecycle_status(LifecycleStatus::Disconnected(reason)),
    {
        self.lifecycle_bridge_label = text("DISCONNECTED");
        self.lifecycle_reason = Some(reason);
    }

    fn lifecycle_sent(&mut self, event: LifecycleEvent)
        requires
            old(self).wf(),
        ensures
            final(self).wf(),
            final(self)@ == old(self)@.after_lifecycle_status(LifecycleStatus::Sent(event)),
    {
        let started = matches!(event, LifecycleEvent::Started);
        let window_ready = matches!(event, LifecycleEvent::WindowReady);
        let display_ready = matches!(event, LifecycleEvent::DisplayReady);
        let ready = matches!(event, LifecycleEvent::Ready);
        let exiting = matches!(event, LifecycleEvent::Exiting);
        self.game_started_status = passed_if(started, self.game_started_status);
        self.game_window_ready_status = passed_if(window_ready, self.game_window_ready_status);
        self.game_display_ready_status = passed_if(display_ready, self.game_display_ready_status);
        self.game_ready_status = passed_if(ready, self.game_ready_status);
        self.game_exiting_status = passed_if(exiting, self.game_exiting_status);
    }

    /// The game window was placed on the expected monitor.
    pub fn mark_display_match(&mut self, matched_monitor: String, available_monitors: Vec<String>)
        requires
            old(self).wf(),
        ensures
            final(self).wf(),
            final(self)@ == old(self)@.after_display_match(
                matched_monitor@,
                available_monitors.deep_view(),
            ),
    {
        self.display_match_status = TestStatus::Pass;
        self.display_match_reason = None;
        self.matched_monitor = matched_monitor;
        self.available_monitors = available_monitors;
    }

    /// No monitor matched the expected display.
    pub fn mark_display_match_failed(&mut self, reason: String, available_monitors: Vec<String>)
        requires
            old(self).wf(),
        ensures
            final(self).wf(),
            final(self)@ == old(self)@.after_display_match_failed(
                reason@,
                available_monitors.deep_view(),
            ),
    {
        self.display_match_status = TestStatus::Fail;
        self.display_match_reason = Some(reason);
        self.available_monitors = available_monitors;
    }

    /// Applies an input event: the player is recorded, joystick movement beyond the
    /// dead zone and buttons going down or up pass their checks.
    pub fn update(&mut self, event: &InputEvent)
        requires
            old(self).wf(),
        ensures
            final(self).wf(),
            final(self)@ == old(self)@.after_input(*event),
    {
        match event {
            InputEvent::Joystick { player_id, x, y } => self.update_joystick(*player_id, x, y),
            InputEvent::Button { player_id, button, state } => self.update_button(
                *player_id,
                button,
                state,
            ),
        }
    }

    fn update_joystick(&mut self, player_id: u32, x: &AxisValue, y: &AxisValue)
        requires
            old(self).wf(),
        ensures
            final(self).wf(),
            final(self)@ == old(self)@.after_input(
                InputEvent::Joystick { player_id, x: *x, y: *y },
            ),
    {
        self.input_active = true;
        self.joystick_x = x.clone_value();
        self.joystick_y = y.clone_value();
        self.mark_player(player_id);
        if is_beyond_dead_zone(x.bits) || is_beyond_dead_zone(y.bits) {
            self.joystick_status = TestStatus::Pass;
        }
        let mut m = text("Joystick p");
        push_decimal(&mut m, player_id as u64);
        m.append(": ");
        m.append(x.text.as_str());
        m.append(", ");
        m.append(y.text.as_str());
        self.last_event = m;
    }

    fn update_button(&mut self, player_id: u32, button: &String, state: &String)
        requires
            old(self).wf(),
        ensures
            final(self).wf(),
            final(self)@ == old(self)@.after_input(
                InputEvent::Button { player_id, button: *button, state: *state },
            ),
    {
        self.input_active = true;
        self.mark_player(player_id);
        let is_down = same_text(state.as_str(), "down") || same_text(state.as_str(), "pressed");
        let is_up = same_text(state.as_str(), "up") || same_text(state.as_str(), "released");
        note_button(&mut self.buttons, &mut self.button_statuses, button, is_down, is_up);
        let pressed_status = if is_down {
            TestStatus::Pass
        } else {
            self.pressed_status
        };
        let released_status = if is_up {
            TestStatus::Pass
        } else {
            self.released_status
        };
        self.pressed_status = pressed_status;
        self.released_status = released_status;
        let mut m = text("Button p");
        push_decimal(&mut m, player_id as u64);
        m.append(": ");
        m.append(button.as_str());
        m.append(" ");
        m.append(state.as_str());
        self.last_event = m;
    }

    /// Starts the input test over: joystick, buttons, player and input checks are
    /// reset, everything else is kept.
    pub fn restart_input_test(&mut self)
        requires
            old(self).wf(),
        ensures
            final(self).wf(),
            final(self)@ == old(self)@.after_restart(),
    {
        let ghost before = self@;
        self.joystick_x = AxisValue::zero();
        self.joystick_y = AxisValue::zero();
        self.buttons = Vec::new();
        self.last_event = text("Test restarted");
        self.player_id = None;
        self.input_active = false;
        self.player_id_status = TestStatus::Waiting;
        self.joystick_status = TestStatus::Waiting;
        self.pressed_status = TestStatus::Waiting;
        self.released_status = TestStatus::Waiting;
        self.button_statuses = waiting_statuses();
        proof {
            assert(self.buttons.deep_view() =~= Seq::<(Seq<char>, bool)>::empty());
            assert(pressed_map(self.buttons.deep_view()) =~= Map::empty());
            assert(self@ == before.after_restart());
        }
    }

    /// Whether the button called `btn` was last seen down.
    pub fn is_pressed(&self, btn: &str) -> (r: bool)
        requires
            self.wf(),
        ensures
            r == self@.is_pressed(btn@),
    {
        let ghost entries = self.buttons.deep_view();
        let mut j: usize = 0;
        while j < self.buttons.len()
            invariant
                j <= self.buttons.len(),
                entries == self.buttons.deep_view(),
                unique_keys(entries),
                forall|k: int| 0 <= k < j ==> #[trigger] entries[k].0 != btn@,
            decreases self.buttons.len() - j,
        {
            if same_text(self.buttons[j].0.as_str(), btn) {
                assert(entries[j as int].0 == btn@);
                assert(entries[j as int].1 == self.buttons@[j as int].1);
                proof {
                    lemma_pressed_map_lookup(entries, btn@);
                }
                return self.buttons[j].1;
            }
            j = j + 1;
        }
        proof {
            lemma_pressed_map_lookup(entries, btn@);
        }
        false
    }

    /// The check status of the button called `btn`; unknown names are waiting.
    pub fn button_status(&self, btn: &str) -> (r: TestStatus)
        requires
            self.wf(),
        ensures
            r == self@.button_status(btn@),
    {
        match find_button(btn) {
            Some(i) => self.button_statuses[i],
            None => TestStatus::Waiting,
        }
    }

    /// Whether every check of the integration test has passed.
    pub fn all_tests_passed(&self) -> (r: bool)
        requires
            self.wf(),
        ensures
            r == self@.all_passed(),
    {
        let checks = self.runtime_status == TestStatus::Pass && self.protocol_status
            == TestStatus::Pass && self.input_bridge_status == TestStatus::Pass
            && self.display_data_status == TestStatus::Pass && self.display_match_status
            == TestStatus::Pass && self.lifecycle_bridge_status == TestStatus::Pass
            && self.game_started_status == TestStatus::Pass && self.game_window_ready_status
            == TestStatus::Pass && self.game_display_ready_status == TestStatus::Pass
            && self.game_ready_status == TestStatus::Pass && self.player_id_status
            == TestStatus::Pass && self.joystick_status == TestStatus::Pass
            && self.pressed_status == TestStatus::Pass && self.released_status
            == TestStatus::Pass;
        if !checks {
            return false;
        }
        let mut i: usize = 0;
        while i < BUTTON_COUNT
            invariant
                i <= BUTTON_COUNT,
                self.wf(),
                forall|k: int|
                    0 <= k < i ==> #[trigger] self@.button_status(button_names()[k])
                        == TestStatus::Pass,
            decreases BUTTON_COUNT - i,
        {
            if self.button_status(button_name(i)) != TestStatus::Pass {
                return false;
            }
            i = i + 1;
        }
        true
    }

    /// The controller's buttons, in screen order.
    pub fn buttons() -> (r: Vec<&'static str>)
        ensures
            r@.len() == BUTTON_COUNT,
            forall|i: int| 0 <= i < BUTTON_COUNT ==> #[trigger] r@[i]@ == button_names()[i],
    {
        let mut r: Vec<&'static str> = Vec::new();
        let mut i: usize = 0;
        while i < BUTTON_COUNT
            invariant
                i <= BUTTON_COUNT,
                r@.len() == i,
                forall|k: int| 0 <= k < i ==> #[trigger] r@[k]@ == button_names()[k],
            decreases BUTTON_COUNT - i,
        {
            r.push(button_name(i));
            i = i + 1;
        }
        r
    }
}

} // verus!
