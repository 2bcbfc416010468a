//! Properties that hold across the operations of the library.
use crate::diagnostic::{
    all_waiting, button_names, button_slot, initial_view, lemma_button_slots, DiagnosticView,
    TestStatus, BUTTON_COUNT,
};
use crate::display::{
    fresh_loop, spec_loop_step, spec_window_events, DisplayTarget, LoopInput, LoopState, LoopStep,
};
use crate::input::{beyond_dead_zone, AxisValue, InputEvent, InputWorkerMessage};
use crate::lifecycle::{
    fresh_link, link_on_connect, link_on_message, link_on_write, spec_line, ActionView,
    LifecycleEvent, LifecycleLink, LifecycleMessage, LifecycleStatus, StatusView,
};
use crate::runtime::{
    problem_of, spec_read_display_mode, spec_read_u32, DisplayConfig, DisplayMode, EnvValue,
    RuntimeConfig,
};
use crate::text::{
    all_digits, decimal, digit_char, digit_value, digits_value, is_digit, parse_int, parsed_u32,
};
use vstd::prelude::*;

verus! {

/// Every check that has passed in `before` has passed in `after` too.
pub open spec fn keeps_passed(before: DiagnosticView, after: DiagnosticView) -> bool {
    &&& before.runtime_status == TestStatus::Pass ==> after.runtime_status == TestStatus::Pass
    &&& before.protocol_status == TestStatus::Pass ==> after.protocol_status == TestStatus::Pass
    &&& before.input_bridge_status == TestStatus::Pass ==> after.input_bridge_status
        == TestStatus::Pass
    &&& before.display_data_status == TestStatus::Pass ==> after.display_data_status
        == TestStatus::Pass
    &&& before.display_match_status == TestStatus::Pass ==> after.display_match_status
        == TestStatus::Pass
    &&& before.lifecycle_bridge_status == TestStatus::Pass ==> after.lifecycle_bridge_status
        == TestStatus::Pass
    &&& before.game_started_status == TestStatus::Pass ==> after.game_started_status
        == TestStatus::Pass
    &&& before.game_window_ready_status == TestStatus::Pass ==> after.game_window_ready_status
        == TestStatus::Pass
    &&& before.game_display_ready_status == TestStatus::Pass ==> after.game_display_ready_status
        == TestStatus::Pass
    &&& before.game_ready_status == TestStatus::Pass ==> after.game_ready_status == TestStatus::Pass
    &&& before.game_exiting_status == TestStatus::Pass ==> after.game_exiting_status
        == TestStatus::Pass
    &&& before.player_id_status == TestStatus::Pass ==> after.player_id_status == TestStatus::Pass
    &&& before.joystick_status == TestStatus::Pass ==> after.joystick_status == TestStatus::Pass
    &&& before.pressed_status == TestStatus::Pass ==> after.pressed_status == TestStatus::Pass
    &&& before.released_status == TestStatus::Pass ==> after.released_status == TestStatus::Pass
    &&& forall|i: int|
        0 <= i < BUTTON_COUNT ==> (#[trigger] before.button_status(button_names()[i])
            == TestStatus::Pass ==> after.button_status(button_names()[i]) == TestStatus::Pass)
}

/// An input event never takes back a check that has passed.
pub proof fn lemma_input_keeps_passed(d: DiagnosticView, event: InputEvent)
    requires
        d.wf(),
    ensures
        d.after_input(event).wf(),
        keeps_passed(d, d.after_input(event)),
{
    let after = d.after_input(event);
    if let InputEvent::Button { button, .. } = event {
        lemma_slot_bound(button@);
    }
    assert forall|i: int|
        0 <= i < BUTTON_COUNT && #[trigger] d.button_status(button_names()[i])
            == TestStatus::Pass implies after.button_status(button_names()[i])
        == TestStatus::Pass by {
        lemma_button_slots();
    }
}

/// A message of the input worker never takes back a check that has passed.
pub proof fn lemma_worker_message_keeps_passed(d: DiagnosticView, message: InputWorkerMessage)
    requires
        d.wf(),
    ensures
        d.after_worker_message(message).wf(),
        keeps_passed(d, d.after_worker_message(message)),
{
    match message {
        InputWorkerMessage::Event(Ok(event)) => lemma_input_keeps_passed(d, event),
        _ => {},
    }
}

/// A report of the lifecycle worker never takes back a check that has passed.
pub proof fn lemma_lifecycle_status_keeps_passed(d: DiagnosticView, status: LifecycleStatus)
    requires
        d.wf(),
    ensures
        d.after_lifecycle_status(status).wf(),
        keeps_passed(d, d.after_lifecycle_status(status)),
{
}

/// Once every check has passed, input and lifecycle traffic keep it so.
pub proof fn lemma_all_passed_is_stable(
    d: DiagnosticView,
    message: InputWorkerMessage,
    status: LifecycleStatus,
)
    requires
        d.wf(),
        d.all_passed(),
    ensures
        d.after_worker_message(message).all_passed(),
        d.after_lifecycle_status(status).all_passed(),
{
    lemma_worker_message_keeps_passed(d, message);
    lemma_lifecycle_status_keeps_passed(d, status);
    let a = d.after_worker_message(message);
    assert forall|i: int| 0 <= i < BUTTON_COUNT implies #[trigger] a.button_status(
        button_names()[i],
    ) == TestStatus::Pass by {
        assert(d.button_status(button_names()[i]) == TestStatus::Pass);
    }
    let b = d.after_lifecycle_status(status);
    assert forall|i: int| 0 <= i < BUTTON_COUNT implies #[trigger] b.button_status(
        button_names()[i],
    ) == TestStatus::Pass by {
        assert(d.button_status(button_names()[i]) == TestStatus::Pass);
    }
}


/// One call that moves a diagnostic: `update`, `handle_worker_message`,
/// `handle_lifecycle_status`, `mark_display_match`, `mark_display_match_failed` or
/// `restart_input_test`, with its arguments.
pub enum DiagnosticStep {
    Input(InputEvent),
    Worker(InputWorkerMessage),
    Lifecycle(LifecycleStatus),
    DisplayMatch(Seq<char>, Seq<Seq<char>>),
    DisplayMatchFailed(Seq<char>, Seq<Seq<char>>),
    Restart,
}

/// The state after one step.
pub open spec fn after_step(d: DiagnosticView, step: DiagnosticStep) -> DiagnosticView {
    match step {
        DiagnosticStep::Input(event) => d.after_input(event),
        DiagnosticStep::Worker(message) => d.after_worker_message(message),
        DiagnosticStep::Lifecycle(status) => d.after_lifecycle_status(status),
        DiagnosticStep::DisplayMatch(monitor, available) => d.after_display_match(
            monitor,
            available,
        ),
        DiagnosticStep::DisplayMatchFailed(reason, available) => d.after_display_match_failed(
            reason,
            available,
        ),
        DiagnosticStep::Restart => d.after_restart(),
    }
}

/// The state after the steps, in order.
pub open spec fn after_steps(d: DiagnosticView, steps: Seq<DiagnosticStep>) -> DiagnosticView
    decreases steps.len(),
{
    if steps.len() == 0 {
        d
    } else {
        after_step(after_steps(d, steps.drop_last()), steps.last())
    }
}

/// No button check of `d` has failed, and the check of a name that is not one of the
/// controller's buttons waits.
pub open spec fn no_button_failed(d: DiagnosticView) -> bool {
    &&& d.wf()
    &&& forall|i: int| 0 <= i < BUTTON_COUNT ==> #[trigger] d.button_statuses[i] != TestStatus::Fail
}

proof fn lemma_step_keeps_no_button_failed(d: DiagnosticView, step: DiagnosticStep)
    requires
        no_button_failed(d),
    ensures
        no_button_failed(after_step(d, step)),
{
    let a = after_step(d, step);
    match step {
        DiagnosticStep::Input(event) => {
            if let InputEvent::Button { button, .. } = event {
                lemma_slot_bound(button@);
            }
        },
        DiagnosticStep::Worker(message) => {
            if let InputWorkerMessage::Event(Ok(InputEvent::Button { button, .. })) = message {
                lemma_slot_bound(button@);
            }
        },
        DiagnosticStep::Restart => {
            assert(a.button_statuses == all_waiting());
        },
        _ => {},
    }
}

/// A button check never fails: in every state that a fresh diagnostic reaches, by
/// any calls in any order, no button's check reads `Fail`, and a name that is not
/// one of the controller's buttons reads `Waiting`.
pub proof fn lemma_no_button_check_fails(config: RuntimeConfig, steps: Seq<DiagnosticStep>)
    ensures
        after_steps(initial_view(config), steps).wf(),
        forall|name: Seq<char>| #[trigger]
            after_steps(initial_view(config), steps).button_status(name) != TestStatus::Fail,
        forall|name: Seq<char>|
            button_slot(name) is None ==> #[trigger] after_steps(
                initial_view(config),
                steps,
            ).button_status(name) == TestStatus::Waiting,
{
    let d = after_steps(initial_view(config), steps);
    assert(no_button_failed(d)) by {
        lemma_reached_no_button_failed(config, steps);
    }
    assert forall|name: Seq<char>| #[trigger] d.button_status(name) != TestStatus::Fail by {
        lemma_slot_bound(name);
    }
}

proof fn lemma_reached_no_button_failed(config: RuntimeConfig, steps: Seq<DiagnosticStep>)
    ensures
        no_button_failed(after_steps(initial_view(config), steps)),
    decreases steps.len(),
{
    if steps.len() == 0 {
        assert(initial_view(config).button_statuses == all_waiting());
    } else {
        lemma_reached_no_button_failed(config, steps.drop_last());
        lemma_step_keeps_no_button_failed(
            after_steps(initial_view(config), steps.drop_last()),
            steps.last(),
        );
    }
}


/// The loop's state and its decisions over a run of events, from a fresh loop.
pub open spec fn loop_run(inputs: Seq<LoopInput>) -> (LoopState, Seq<LoopStep>)
    decreases inputs.len(),
{
    if inputs.len() == 0 {
        (fresh_loop(), Seq::empty())
    } else {
        let (s, steps) = loop_run(inputs.drop_last());
        let (next, step) = spec_loop_step(s, inputs.last());
        (next, steps.push(step))
    }
}

/// The messages that the decisions hand to the lifecycle worker, in order.
pub open spec fn sent_messages(steps: Seq<LoopStep>) -> Seq<LifecycleMessage>
    decreases steps.len(),
{
    if steps.len() == 0 {
        Seq::empty()
    } else {
        match steps.last().send {
            Some(m) => sent_messages(steps.drop_last()).push(m),
            None => sent_messages(steps.drop_last()),
        }
    }
}

/// Every lifecycle message of a run of the window: those announced once the window
/// exists, then those of the loop's decisions over `inputs`.
pub open spec fn run_messages(target: DisplayTarget, inputs: Seq<LoopInput>) -> Seq<
    LifecycleMessage,
> {
    spec_window_events(target).map_values(|e: LifecycleEvent| LifecycleMessage::Send(e))
        + sent_messages(loop_run(inputs).1)
}

/// The decision `step` hands `event` to the lifecycle worker.
pub open spec fn sends(step: LoopStep, event: LifecycleEvent) -> bool {
    step.send == Some(LifecycleMessage::Send(event))
}

/// The events on which the loop ends: a close request, Escape going down, a frame
/// that could not be presented.
pub open spec fn ends_loop(input: LoopInput) -> bool {
    match input {
        LoopInput::Close => true,
        LoopInput::Key { escape, pressed } => escape && pressed,
        LoopInput::Frame(rendered) => !rendered,
    }
}

/// `event` occurs at most once among `messages`.
pub open spec fn at_most_once(messages: Seq<LifecycleMessage>, event: LifecycleEvent) -> bool {
    forall|j: int, k: int|
        0 <= j < messages.len() && 0 <= k < messages.len() && #[trigger] messages[j]
            == LifecycleMessage::Send(event) && #[trigger] messages[k] == LifecycleMessage::Send(
            event,
        ) ==> j == k
}

proof fn lemma_run_prefix(inputs: Seq<LoopInput>, k: int)
    requires
        0 <= k <= inputs.len(),
    ensures
        loop_run(inputs).1.len() == inputs.len(),
        loop_run(inputs.take(k)).1 == loop_run(inputs).1.take(k),
    decreases inputs.len(),
{
    if inputs.len() > 0 {
        let prev = inputs.drop_last();
        if k == inputs.len() {
            lemma_run_prefix(prev, 0);
            assert(inputs.take(k) =~= inputs);
            assert(loop_run(inputs).1.take(k) =~= loop_run(inputs).1);
        } else {
            lemma_run_prefix(prev, k);
            assert(prev.take(k) =~= inputs.take(k));
            assert(loop_run(inputs).1.take(k) =~= loop_run(prev).1.take(k));
        }
    } else {
        assert(inputs.take(k) =~= inputs);
        assert(loop_run(inputs).1.take(k) =~= loop_run(inputs).1);
    }
}

/// The decision at position `i` of a run is the step from the state that the events
/// before it left.
proof fn lemma_step_at(inputs: Seq<LoopInput>, i: int)
    requires
        0 <= i < inputs.len(),
    ensures
        loop_run(inputs).1.len() == inputs.len(),
        loop_run(inputs).1[i] == spec_loop_step(loop_run(inputs.take(i)).0, inputs[i]).1,
        loop_run(inputs.take(i + 1)).0 == spec_loop_step(loop_run(inputs.take(i)).0, inputs[i]).0,
{
    lemma_run_prefix(inputs, i + 1);
    let t = inputs.take(i + 1);
    assert(t.drop_last() =~= inputs.take(i));
    assert(t.last() == inputs[i]);
    let st = spec_loop_step(loop_run(inputs.take(i)).0, inputs[i]);
    assert(loop_run(t).1 == loop_run(inputs.take(i)).1.push(st.1));
    lemma_run_prefix(inputs.take(i), 0);
    assert(loop_run(t).1[i] == st.1);
    assert(loop_run(inputs).1.take(i + 1)[i] == loop_run(inputs).1[i]);
}

spec fn flags_match_steps(inputs: Seq<LoopInput>) -> bool {
    let s = loop_run(inputs).0;
    let steps = loop_run(inputs).1;
    &&& steps.len() == inputs.len()
    &&& (s.game_ready_sent <==> (exists|j: int|
        0 <= j < steps.len() && #[trigger] sends(steps[j], LifecycleEvent::Ready)))
    &&& (s.exiting_sent <==> (exists|j: int|
        0 <= j < steps.len() && #[trigger] sends(steps[j], LifecycleEvent::Exiting)))
}

proof fn lemma_flags_match_steps(inputs: Seq<LoopInput>)
    ensures
        flags_match_steps(inputs),
    decreases inputs.len(),
{
    if inputs.len() > 0 {
        let prev = inputs.drop_last();
        lemma_flags_match_steps(prev);
        let (s0, steps0) = loop_run(prev);
        let (s, step) = spec_loop_step(s0, inputs.last());
        let steps = steps0.push(step);
        assert(loop_run(inputs) == (s, steps));
        let n = prev.len() as int;
        assert forall|j: int| 0 <= j < n implies steps[j] == steps0[j] by {}
        assert(sends(step, LifecycleEvent::Ready) ==> s.game_ready_sent && !s0.game_ready_sent);
        assert(sends(step, LifecycleEvent::Exiting) ==> s.exiting_sent && !s0.exiting_sent);
        assert(s0.game_ready_sent ==> s.game_ready_sent);
        assert(s0.exiting_sent ==> s.exiting_sent);
        if s.game_ready_sent {
            if s0.game_ready_sent {
                let j = choose|j: int|
                    0 <= j < steps0.len() && #[trigger] sends(steps0[j], LifecycleEvent::Ready);
                assert(sends(steps[j], LifecycleEvent::Ready));
            } else {
                assert(sends(steps[n], LifecycleEvent::Ready));
            }
        } else {
            assert forall|j: int| 0 <= j < steps.len() implies !#[trigger] sends(
                steps[j],
                LifecycleEvent::Ready,
            ) by {
                if j < n {
                    assert(steps[j] == steps0[j]);
                }
            }
        }
        if s.exiting_sent {
            if s0.exiting_sent {
                let j = choose|j: int|
                    0 <= j < steps0.len() && #[trigger] sends(steps0[j], LifecycleEvent::Exiting);
                assert(sends(steps[j], LifecycleEvent::Exiting));
            } else {
                assert(sends(steps[n], LifecycleEvent::Exiting));
            }
        } else {
            assert forall|j: int| 0 <= j < steps.len() implies !#[trigger] sends(
                steps[j],
                LifecycleEvent::Exiting,
            ) by {
                if j < n {
                    assert(steps[j] == steps0[j]);
                }
            }
        }
        assert(steps.len() == inputs.len());
        assert(s.game_ready_sent <==> (exists|j: int|
            0 <= j < steps.len() && #[trigger] sends(steps[j], LifecycleEvent::Ready)));
        assert(s.exiting_sent <==> (exists|j: int|
            0 <= j < steps.len() && #[trigger] sends(steps[j], LifecycleEvent::Exiting)));
        assert(loop_run(inputs).1 == steps);
        assert(loop_run(inputs).0 == s);
        assert(loop_run(inputs).0.game_ready_sent <==> (exists|j: int|
            0 <= j < loop_run(inputs).1.len() && #[trigger] sends(
                loop_run(inputs).1[j],
                LifecycleEvent::Ready,
            )));
    } else {
        assert(loop_run(inputs) == (fresh_loop(), Seq::<LoopStep>::empty()));
    }
}

spec fn messages_match_flags(inputs: Seq<LoopInput>) -> bool {
    let s = loop_run(inputs).0;
    let m = sent_messages(loop_run(inputs).1);
    &&& (s.game_ready_sent <==> m.contains(LifecycleMessage::Send(LifecycleEvent::Ready)))
    &&& (s.exiting_sent <==> m.contains(LifecycleMessage::Send(LifecycleEvent::Exiting)))
    &&& forall|k: int|
        0 <= k < m.len() ==> #[trigger] m[k] == LifecycleMessage::Send(LifecycleEvent::Ready)
            || m[k] == LifecycleMessage::Send(LifecycleEvent::Exiting)
    &&& at_most_once(m, LifecycleEvent::Ready)
    &&& at_most_once(m, LifecycleEvent::Exiting)
}

proof fn lemma_messages_match_flags(inputs: Seq<LoopInput>)
    ensures
        messages_match_flags(inputs),
    decreases inputs.len(),
{
    if inputs.len() > 0 {
        let prev = inputs.drop_last();
        lemma_messages_match_flags(prev);
        let s0 = loop_run(prev).0;
        let steps0 = loop_run(prev).1;
        let m0 = sent_messages(steps0);
        let (s, step) = spec_loop_step(s0, inputs.last());
        let steps = steps0.push(step);
        assert(loop_run(inputs) == (s, steps));
        assert(steps.drop_last() =~= steps0);
        let ready = LifecycleMessage::Send(LifecycleEvent::Ready);
        let exiting = LifecycleMessage::Send(LifecycleEvent::Exiting);
        match step.send {
            Some(msg) => {
                let m = m0.push(msg);
                assert(sent_messages(steps) == m);
                assert(msg == ready ==> !s0.game_ready_sent && s.game_ready_sent);
                assert(msg == exiting ==> !s0.exiting_sent && s.exiting_sent);
                assert(msg == ready || msg == exiting);
                assert(m[m0.len() as int] == msg);
                assert forall|k: int| 0 <= k < m0.len() implies m[k] == m0[k] by {}
                assert(m.contains(ready) <==> m0.contains(ready) || msg == ready) by {
                    if m.contains(ready) {
                        let k = choose|k: int| 0 <= k < m.len() && m[k] == ready;
                        if k < m0.len() {
                            assert(m0[k] == m[k]);
                        }
                    }
                    if m0.contains(ready) {
                        let k = choose|k: int| 0 <= k < m0.len() && m0[k] == ready;
                        assert(m[k] == ready);
                    }
                }
                assert(m.contains(exiting) <==> m0.contains(exiting) || msg == exiting) by {
                    if m.contains(exiting) {
                        let k = choose|k: int| 0 <= k < m.len() && m[k] == exiting;
                        if k < m0.len() {
                            assert(m0[k] == m[k]);
                        }
                    }
                    if m0.contains(exiting) {
                        let k = choose|k: int| 0 <= k < m0.len() && m0[k] == exiting;
                        assert(m[k] == exiting);
                    }
                }
                assert(at_most_once(m, LifecycleEvent::Ready)) by {
                    assert forall|j: int, k: int|
                        0 <= j < m.len() && 0 <= k < m.len() && #[trigger] m[j] == ready
                            && #[trigger] m[k] == ready implies j == k by {
                        if j < m0.len() && k < m0.len() {
                            assert(m0[j] == ready && m0[k] == ready);
                        } else if j < m0.len() {
                            assert(m0[j] == ready);
                        } else if k < m0.len() {
                            assert(m0[k] == ready);
                        }
                    }
                }
                assert(at_most_once(m, LifecycleEvent::Exiting)) by {
                    assert forall|j: int, k: int|
                        0 <= j < m.len() && 0 <= k < m.len() && #[trigger] m[j] == exiting
                            && #[trigger] m[k] == exiting implies j == k by {
                        if j < m0.len() && k < m0.len() {
                            assert(m0[j] == exiting && m0[k] == exiting);
                        } else if j < m0.len() {
                            assert(m0[j] == exiting);
                        } else if k < m0.len() {
                            assert(m0[k] == exiting);
                        }
                    }
                }
            },
            None => {
                assert(sent_messages(steps) == m0);
            },
        }
    } else {
        assert(loop_run(inputs) == (fresh_loop(), Seq::<LoopStep>::empty()));
        assert(sent_messages(loop_run(inputs).1) =~= Seq::<LifecycleMessage>::empty());
    }
}

proof fn lemma_step_facts(inputs: Seq<LoopInput>, i: int)
    requires
        0 <= i < inputs.len(),
    ensures
        ({
            let steps = loop_run(inputs).1;
            &&& steps.len() == inputs.len()
            &&& steps[i].exit == ends_loop(inputs[i])
            &&& sends(steps[i], LifecycleEvent::Ready) ==> inputs[i] == LoopInput::Frame(true)
            &&& inputs[i] is Key && !ends_loop(inputs[i]) ==> steps[i].send is None
            &&& inputs[i] == LoopInput::Frame(true) ==> exists|j: int|
                0 <= j <= i && #[trigger] sends(steps[j], LifecycleEvent::Ready)
            &&& steps[i].exit ==> exists|j: int|
                0 <= j <= i && #[trigger] sends(steps[j], LifecycleEvent::Exiting)
        }),
{
    let steps = loop_run(inputs).1;
    lemma_step_at(inputs, i);
    lemma_run_prefix(inputs, i);
    lemma_flags_match_steps(inputs.take(i));
    let before = loop_run(inputs.take(i));
    assert(before.1 == steps.take(i));
    if inputs[i] == LoopInput::Frame(true) {
        if before.0.game_ready_sent {
            let j = choose|j: int|
                0 <= j < before.1.len() && #[trigger] sends(before.1[j], LifecycleEvent::Ready);
            assert(steps[j] == before.1[j]);
            assert(sends(steps[j], LifecycleEvent::Ready));
        } else {
            assert(sends(steps[i], LifecycleEvent::Ready));
        }
    }
    if steps[i].exit {
        if before.0.exiting_sent {
            let j = choose|j: int|
                0 <= j < before.1.len() && #[trigger] sends(before.1[j], LifecycleEvent::Exiting);
            assert(steps[j] == before.1[j]);
            assert(sends(steps[j], LifecycleEvent::Exiting));
        } else {
            assert(sends(steps[i], LifecycleEvent::Exiting));
        }
    }
}

/// The lifecycle notices of a run of the game window, whatever events its loop gets
/// and in whatever order.  The window-ready notice comes first and only once; the
/// display-ready notice follows it exactly where the gaming display was matched; the
/// loop itself sends nothing but the ready and exit notices, each at most once.  The
/// ready notice goes out only on a presented frame, and by the first one.  The loop
/// ends exactly on a close request, Escape going down or a frame that could not be
/// presented, and whenever it ends the exit notice has gone out by then.  Any other
/// key neither ends the loop nor sends anything.
pub proof fn lemma_run_notices(target: DisplayTarget, inputs: Seq<LoopInput>)
    ensures
        ({
            let steps = loop_run(inputs).1;
            let m = run_messages(target, inputs);
            let p = spec_window_events(target).len() as int;
            &&& steps.len() == inputs.len()
            &&& m[0] == LifecycleMessage::Send(LifecycleEvent::WindowReady)
            &&& target is Matched ==> p == 2 && m[1] == LifecycleMessage::Send(
                LifecycleEvent::DisplayReady,
            )
            &&& !(target is Matched) ==> p == 1
            &&& forall|k: int|
                p <= k < m.len() ==> #[trigger] m[k] == LifecycleMessage::Send(
                    LifecycleEvent::Ready,
                ) || m[k] == LifecycleMessage::Send(LifecycleEvent::Exiting)
            &&& at_most_once(m, LifecycleEvent::Ready)
            &&& at_most_once(m, LifecycleEvent::Exiting)
            &&& forall|i: int| 0 <= i < steps.len() ==> (#[trigger] steps[i]).exit == ends_loop(inputs[i])
            &&& forall|i: int|
                0 <= i < steps.len() && sends(#[trigger] steps[i], LifecycleEvent::Ready)
                    ==> inputs[i] == LoopInput::Frame(true)
            &&& forall|i: int|
                0 <= i < steps.len() && #[trigger] inputs[i] == LoopInput::Frame(true)
                    ==> exists|j: int| 0 <= j <= i && #[trigger] sends(steps[j], LifecycleEvent::Ready)
            &&& forall|i: int|
                0 <= i < steps.len() && (#[trigger] steps[i]).exit ==> exists|j: int|
                    0 <= j <= i && #[trigger] sends(steps[j], LifecycleEvent::Exiting)
            &&& forall|i: int|
                0 <= i < steps.len() && #[trigger] inputs[i] is Key && !ends_loop(inputs[i])
                    ==> steps[i].send is None
        }),
{
    let steps = loop_run(inputs).1;
    let loop_messages = sent_messages(steps);
    let w = spec_window_events(target).map_values(|e: LifecycleEvent| LifecycleMessage::Send(e));
    let m = run_messages(target, inputs);
    let p = w.len() as int;
    lemma_messages_match_flags(inputs);
    lemma_run_prefix(inputs, 0);
    assert(m == w + loop_messages);
    assert forall|k: int| 0 <= k < loop_messages.len() implies m[p + k] == loop_messages[k] by {}
    assert forall|k: int| 0 <= k < p implies m[k] == w[k] by {}
    let ready = LifecycleMessage::Send(LifecycleEvent::Ready);
    let exiting = LifecycleMessage::Send(LifecycleEvent::Exiting);
    assert forall|k: int|
        p <= k < m.len() implies #[trigger] m[k] == ready || m[k] == exiting by {
        assert(m[k] == loop_messages[k - p]);
    }
    assert forall|j: int, k: int|
        0 <= j < m.len() && 0 <= k < m.len() && #[trigger] m[j] == ready && #[trigger] m[k]
            == ready implies j == k by {
        assert(j >= p && k >= p);
        assert(loop_messages[j - p] == ready && loop_messages[k - p] == ready);
    }
    assert forall|j: int, k: int|
        0 <= j < m.len() && 0 <= k < m.len() && #[trigger] m[j] == exiting && #[trigger] m[k]
            == exiting implies j == k by {
        assert(j >= p && k >= p);
        assert(loop_messages[j - p] == exiting && loop_messages[k - p] == exiting);
    }
    assert forall|i: int| 0 <= i < steps.len() implies {
        &&& (#[trigger] steps[i]).exit == ends_loop(inputs[i])
        &&& sends(steps[i], LifecycleEvent::Ready) ==> inputs[i] == LoopInput::Frame(true)
        &&& inputs[i] is Key && !ends_loop(inputs[i]) ==> steps[i].send is None
        &&& inputs[i] == LoopInput::Frame(true) ==> exists|j: int|
            0 <= j <= i && #[trigger] sends(steps[j], LifecycleEvent::Ready)
        &&& steps[i].exit ==> exists|j: int|
            0 <= j <= i && #[trigger] sends(steps[j], LifecycleEvent::Exiting)
    } by {
        lemma_step_facts(inputs, i);
    }
    assert forall|i: int|
        0 <= i < steps.len() && #[trigger] inputs[i] == LoopInput::Frame(true) implies exists|j: int|
            0 <= j <= i && #[trigger] sends(steps[j], LifecycleEvent::Ready) by {
        lemma_step_facts(inputs, i);
    }
}

/// What the bridge does with one request to send: the errors of the connection
/// attempts that fail before one succeeds (they matter only where no connection is
/// open), and the outcome of writing the line.
pub struct Delivery {
    pub connect_errors: Seq<Seq<char>>,
    pub write: Result<(), Seq<char>>,
}

/// No report or one.
pub open spec fn reports(status: Option<StatusView>) -> Seq<StatusView> {
    match status {
        Some(s) => seq![s],
        None => Seq::empty(),
    }
}

/// Performs an action that needs no connection attempt: writing a line, or nothing.
pub open spec fn link_write_step(
    link: LifecycleLink,
    action: ActionView,
    write: Result<(), Seq<char>>,
) -> (LifecycleLink, Seq<StatusView>, Seq<Seq<char>>) {
    match action {
        ActionView::Write(line) => {
            let (next, status) = link_on_write(link, write);
            (next, reports(status), seq![line])
        },
        _ => (link, Seq::empty(), Seq::empty()),
    }
}

/// Performs `action` as the worker does, with these outcomes: connection attempts
/// until one succeeds, then the write that follows.  The state, the reports and the
/// lines written.
pub open spec fn link_perform(
    link: LifecycleLink,
    action: ActionView,
    connect_errors: Seq<Seq<char>>,
    write: Result<(), Seq<char>>,
) -> (LifecycleLink, Seq<StatusView>, Seq<Seq<char>>)
    decreases connect_errors.len(),
{
    match action {
        ActionView::Connect { .. } => if connect_errors.len() == 0 {
            let (next, status, then) = link_on_connect(link, Ok(()));
            let (after, more, lines) = link_write_step(next, then, write);
            (after, seq![status] + more, lines)
        } else {
            let (next, status, then) = link_on_connect(link, Err(connect_errors[0]));
            let (after, more, lines) = link_perform(
                next,
                then,
                connect_errors.drop_first(),
                write,
            );
            (after, seq![status] + more, lines)
        },
        _ => link_write_step(link, action, write),
    }
}

/// One request to send `event`, handled with the outcomes `delivery`.
pub open spec fn link_deliver(link: LifecycleLink, event: LifecycleEvent, delivery: Delivery) -> (
    LifecycleLink,
    Seq<StatusView>,
    Seq<Seq<char>>,
) {
    let (next, status, action) = link_on_message(link, LifecycleMessage::Send(event));
    let (after, more, lines) = link_perform(
        next,
        action,
        delivery.connect_errors,
        delivery.write,
    );
    (after, reports(status) + more, lines)
}

/// A fresh worker handling the requests in order: its state, all its reports and
/// all the lines it wrote.
pub open spec fn link_stream(requests: Seq<(LifecycleEvent, Delivery)>) -> (
    LifecycleLink,
    Seq<StatusView>,
    Seq<Seq<char>>,
)
    decreases requests.len(),
{
    if requests.len() == 0 {
        (fresh_link(), Seq::empty(), Seq::empty())
    } else {
        let (link, statuses, lines) = link_stream(requests.drop_last());
        let (after, more, written) = link_deliver(link, requests.last().0, requests.last().1);
        (after, statuses + more, lines + written)
    }
}

/// The report on writing `event`'s line.
pub open spec fn write_report(event: LifecycleEvent, write: Result<(), Seq<char>>) -> StatusView {
    match write {
        Ok(()) => StatusView::Sent(event),
        Err(e) => StatusView::Disconnected("Lifecycle send failed: "@ + e),
    }
}

/// The reports on failed connection attempts.
pub open spec fn connect_failures(errors: Seq<Seq<char>>) -> Seq<StatusView> {
    errors.map_values(|e: Seq<char>| StatusView::Disconnected("Lifecycle connection failed: "@ + e))
}

/// The reports on one request to send `event`: where no connection was open, that it
/// connects, each failed attempt and the success; then whether the line went out.
pub open spec fn delivery_reports(connected: bool, event: LifecycleEvent, delivery: Delivery) -> Seq<
    StatusView,
> {
    if connected {
        seq![write_report(event, delivery.write)]
    } else {
        seq![StatusView::Connecting] + connect_failures(delivery.connect_errors) + seq![
            StatusView::Connected,
            write_report(event, delivery.write),
        ]
    }
}

/// Whether a connection is open after the requests: the last line went out.
pub open spec fn open_after(requests: Seq<(LifecycleEvent, Delivery)>) -> bool {
    requests.len() > 0 && requests.last().1.write is Ok
}

/// All reports on the requests, in order.
pub open spec fn stream_reports(requests: Seq<(LifecycleEvent, Delivery)>) -> Seq<StatusView>
    decreases requests.len(),
{
    if requests.len() == 0 {
        Seq::empty()
    } else {
        stream_reports(requests.drop_last()) + delivery_reports(
            open_after(requests.drop_last()),
            requests.last().0,
            requests.last().1,
        )
    }
}

proof fn lemma_perform_connect(
    event: LifecycleEvent,
    connected: bool,
    retry: bool,
    errors: Seq<Seq<char>>,
    write: Result<(), Seq<char>>,
)
    ensures
        link_perform(
            LifecycleLink { connected, pending: Some(event) },
            ActionView::Connect { retry },
            errors,
            write,
        ) == (LifecycleLink { connected: write is Ok, pending: None }, connect_failures(errors)
            + seq![StatusView::Connected, write_report(event, write)], seq![spec_line(event)]),
    decreases errors.len(),
{
    let link = LifecycleLink { connected, pending: Some(event) };
    if errors.len() == 0 {
        assert(connect_failures(errors) =~= Seq::<StatusView>::empty());
        assert(seq![StatusView::Connected] + seq![write_report(event, write)] =~= connect_failures(
            errors,
        ) + seq![StatusView::Connected, write_report(event, write)]);
    } else {
        let failed = "Lifecycle connection failed: "@ + errors[0];
        lemma_perform_connect(event, false, true, errors.drop_first(), write);
        let rest = connect_failures(errors.drop_first()) + seq![
            StatusView::Connected,
            write_report(event, write),
        ];
        assert(connect_failures(errors) =~= seq![StatusView::Disconnected(failed)]
            + connect_failures(errors.drop_first()));
        assert(seq![StatusView::Disconnected(failed)] + rest =~= connect_failures(errors) + seq![
            StatusView::Connected,
            write_report(event, write),
        ]);
    }
}

proof fn lemma_deliver(connected: bool, event: LifecycleEvent, delivery: Delivery)
    ensures
        link_deliver(LifecycleLink { connected, pending: None }, event, delivery) == (
        LifecycleLink { connected: delivery.write is Ok, pending: None }, delivery_reports(
            connected,
            event,
            delivery,
        ), seq![spec_line(event)]),
{
    if connected {
        assert(reports(None) + seq![write_report(event, delivery.write)] =~= delivery_reports(
            connected,
            event,
            delivery,
        ));
    } else {
        lemma_perform_connect(event, false, false, delivery.connect_errors, delivery.write);
        assert(reports(Some(StatusView::Connecting)) + (connect_failures(delivery.connect_errors)
            + seq![StatusView::Connected, write_report(event, delivery.write)])
            =~= delivery_reports(connected, event, delivery));
    }
}

/// The lifecycle worker over any stream of requests to send and any outcomes of the
/// bridge.  Each event's line is written exactly once, in the order of the requests,
/// and no other line is.  The worker reports that it connects, each failed attempt
/// and the success exactly where no connection was open; then that the event was
/// sent exactly where its write succeeded, and otherwise why it failed, after which
/// the connection is dropped, so that the next request connects anew, and the event
/// is not written again.  Nothing waits once a request is handled.
pub proof fn lemma_lifecycle_stream(requests: Seq<(LifecycleEvent, Delivery)>)
    ensures
        link_stream(requests) == (LifecycleLink {
            connected: open_after(requests),
            pending: None,
        }, stream_reports(requests), requests.map_values(
            |r: (LifecycleEvent, Delivery)| spec_line(r.0),
        )),
    decreases requests.len(),
{
    if requests.len() > 0 {
        let prev = requests.drop_last();
        lemma_lifecycle_stream(prev);
        lemma_deliver(open_after(prev), requests.last().0, requests.last().1);
        assert(prev.map_values(|r: (LifecycleEvent, Delivery)| spec_line(r.0)) + seq![
            spec_line(requests.last().0),
        ] =~= requests.map_values(|r: (LifecycleEvent, Delivery)| spec_line(r.0)));
    } else {
        assert(requests.map_values(|r: (LifecycleEvent, Delivery)| spec_line(r.0)) =~= Seq::<
            Seq<char>,
        >::empty());
    }
}

/// The player an input event comes from.
pub open spec fn event_player(event: InputEvent) -> u32 {
    match event {
        InputEvent::Joystick { player_id, .. } => player_id,
        InputEvent::Button { player_id, .. } => player_id,
    }
}

/// The checks that input events do not touch: configuration, bridges, display and
/// lifecycle are the same in `a` and `b`.
pub open spec fn same_outside_input(a: DiagnosticView, b: DiagnosticView) -> bool {
    &&& a.runtime_status == b.runtime_status
    &&& a.protocol_status == b.protocol_status
    &&& a.input_bridge_status == b.input_bridge_status
    &&& a.display_data_status == b.display_data_status
    &&& a.display_match_status == b.display_match_status
    &&& a.lifecycle_bridge_status == b.lifecycle_bridge_status
    &&& a.game_started_status == b.game_started_status
    &&& a.game_window_ready_status == b.game_window_ready_status
    &&& a.game_display_ready_status == b.game_display_ready_status
    &&& a.game_ready_status == b.game_ready_status
    &&& a.game_exiting_status == b.game_exiting_status
    &&& a.bridge_status == b.bridge_status
    &&& a.lifecycle_bridge_label == b.lifecycle_bridge_label
}

/// Any input event, joystick or button, records its player: afterwards the player is
/// the event's, the player check has passed and input counts as active.  Input leaves
/// the configuration, bridge, display and lifecycle checks alone.
pub proof fn lemma_input_records_player(d: DiagnosticView, event: InputEvent)
    ensures
        d.after_input(event).player_id == Some(event_player(event)),
        d.after_input(event).player_id_status == TestStatus::Pass,
        d.after_input(event).input_active,
        same_outside_input(d, d.after_input(event)),
{
}

/// A joystick event shows both axis values and passes the joystick check exactly
/// where it passed before or one axis lies beyond the dead zone; it leaves the
/// buttons and the pressed and released checks as they were.
pub proof fn lemma_joystick_event(d: DiagnosticView, player_id: u32, x: AxisValue, y: AxisValue)
    ensures
        ({
            let after = d.after_input(InputEvent::Joystick { player_id, x, y });
            &&& after.joystick_x == (x.bits, x.text@)
            &&& after.joystick_y == (y.bits, y.text@)
            &&& (after.joystick_status == TestStatus::Pass) == (d.joystick_status
                == TestStatus::Pass || beyond_dead_zone(x.bits) || beyond_dead_zone(y.bits))
            &&& !(beyond_dead_zone(x.bits) || beyond_dead_zone(y.bits)) ==> after.joystick_status
                == d.joystick_status
            &&& after.buttons == d.buttons
            &&& after.button_statuses == d.button_statuses
            &&& after.pressed_status == d.pressed_status
            &&& after.released_status == d.released_status
        }),
{
}

/// A button event passes the pressed check exactly where it passed before or the
/// button went down, and the released check exactly where it passed before or the
/// button went up; it leaves the joystick as it was.
pub proof fn lemma_button_event_checks(
    d: DiagnosticView,
    player_id: u32,
    button: String,
    state: String,
)
    ensures
        ({
            let after = d.after_input(InputEvent::Button { player_id, button, state });
            let down = state@ == "down"@ || state@ == "pressed"@;
            let up = state@ == "up"@ || state@ == "released"@;
            &&& (after.pressed_status == TestStatus::Pass) == (d.pressed_status == TestStatus::Pass
                || down)
            &&& (after.released_status == TestStatus::Pass) == (d.released_status
                == TestStatus::Pass || up)
            &&& !down ==> after.pressed_status == d.pressed_status
            &&& !up ==> after.released_status == d.released_status
            &&& after.joystick_x == d.joystick_x
            &&& after.joystick_y == d.joystick_y
            &&& after.joystick_status == d.joystick_status
        }),
{
}

/// The whole integration test counts as passed exactly when each of its checks has
/// passed: runtime, protocol, input bridge, display data, display match, lifecycle
/// bridge, the started, window-ready, display-ready and ready notices, player id,
/// joystick, pressed, released, and every one of the controller's buttons.  (The exit
/// notice is not one of them.)
pub proof fn lemma_all_passed_is_every_check(d: DiagnosticView)
    requires
        d.wf(),
    ensures
        d.all_passed() <==> {
            &&& d.runtime_status == TestStatus::Pass
            &&& d.protocol_status == TestStatus::Pass
            &&& d.input_bridge_status == TestStatus::Pass
            &&& d.display_data_status == TestStatus::Pass
            &&& d.display_match_status == TestStatus::Pass
            &&& d.lifecycle_bridge_status == TestStatus::Pass
            &&& d.game_started_status == TestStatus::Pass
            &&& d.game_window_ready_status == TestStatus::Pass
            &&& d.game_display_ready_status == TestStatus::Pass
            &&& d.game_ready_status == TestStatus::Pass
            &&& d.player_id_status == TestStatus::Pass
            &&& d.joystick_status == TestStatus::Pass
            &&& d.pressed_status == TestStatus::Pass
            &&& d.released_status == TestStatus::Pass
            &&& forall|i: int| 0 <= i < BUTTON_COUNT ==> #[trigger] d.button_statuses[i]
                == TestStatus::Pass
        },
{
    lemma_button_slots();
    if d.all_passed() {
        assert forall|i: int| 0 <= i < BUTTON_COUNT implies #[trigger] d.button_statuses[i]
            == TestStatus::Pass by {
            assert(d.button_status(button_names()[i]) == TestStatus::Pass);
        }
    }
}

/// The check of the game notice `event`.
pub open spec fn notice_status(d: DiagnosticView, event: LifecycleEvent) -> TestStatus {
    match event {
        LifecycleEvent::Started => d.game_started_status,
        LifecycleEvent::WindowReady => d.game_window_ready_status,
        LifecycleEvent::DisplayReady => d.game_display_ready_status,
        LifecycleEvent::Ready => d.game_ready_status,
        LifecycleEvent::Exiting => d.game_exiting_status,
    }
}

/// A report that `event` was sent passes that notice's check and no other: every
/// other notice's check, and every other check, stays as it was.
pub proof fn lemma_sent_passes_its_own_notice(d: DiagnosticView, event: LifecycleEvent)
    ensures
        ({
            let after = d.after_lifecycle_status(LifecycleStatus::Sent(event));
            &&& notice_status(after, event) == TestStatus::Pass
            &&& forall|other: LifecycleEvent|
                other != event ==> #[trigger] notice_status(after, other) == notice_status(
                    d,
                    other,
                )
            &&& after.runtime_status == d.runtime_status
            &&& after.protocol_status == d.protocol_status
            &&& after.input_bridge_status == d.input_bridge_status
            &&& after.display_data_status == d.display_data_status
            &&& after.display_match_status == d.display_match_status
            &&& after.lifecycle_bridge_status == d.lifecycle_bridge_status
            &&& after.player_id_status == d.player_id_status
            &&& after.joystick_status == d.joystick_status
            &&& after.pressed_status == d.pressed_status
            &&& after.released_status == d.released_status
            &&& after.button_statuses == d.button_statuses
        }),
{
}

/// Reports on the lifecycle connection pass no game notice: a connection that is
/// made passes the lifecycle bridge check, one that is being made or was lost leaves
/// it as it was.
pub proof fn lemma_connection_reports_pass_no_notice(d: DiagnosticView, status: LifecycleStatus)
    requires
        !(status is Sent),
    ensures
        forall|e: LifecycleEvent| #[trigger]
            notice_status(d.after_lifecycle_status(status), e) == notice_status(d, e),
        status is Connected ==> d.after_lifecycle_status(status).lifecycle_bridge_status
            == TestStatus::Pass,
        !(status is Connected) ==> d.after_lifecycle_status(status).lifecycle_bridge_status
            == d.lifecycle_bridge_status,
{
}

/// Messages of the input worker that carry no event touch no input check: only a
/// made connection passes the input bridge check; the player, joystick, pressed,
/// released and button checks, and the buttons seen, stay as they were.
pub proof fn lemma_worker_reports_touch_no_input_check(
    d: DiagnosticView,
    message: InputWorkerMessage,
)
    requires
        !(message is Event),
    ensures
        ({
            let after = d.after_worker_message(message);
            &&& message is Connected ==> after.input_bridge_status == TestStatus::Pass
            &&& !(message is Connected) ==> after.input_bridge_status == d.input_bridge_status
            &&& after.player_id == d.player_id
            &&& after.player_id_status == d.player_id_status
            &&& after.joystick_status == d.joystick_status
            &&& after.pressed_status == d.pressed_status
            &&& after.released_status == d.released_status
            &&& after.button_statuses == d.button_statuses
            &&& after.buttons == d.buttons
            &&& after.runtime_status == d.runtime_status
            &&& after.lifecycle_bridge_status == d.lifecycle_bridge_status
            &&& forall|e: LifecycleEvent| #[trigger] notice_status(after, e) == notice_status(d, e)
        }),
{
}

proof fn lemma_slot_from_bound(name: Seq<char>, i: nat)
    ensures
        slot_from_bounded(name, i),
    decreases BUTTON_COUNT - i,
{
    if i < BUTTON_COUNT {
        lemma_slot_from_bound(name, i + 1);
    }
}

spec fn slot_from_bounded(name: Seq<char>, i: nat) -> bool {
    crate::diagnostic::slot_from(name, i) matches Some(j) ==> j < BUTTON_COUNT
}

proof fn lemma_slot_bound(name: Seq<char>)
    ensures
        button_slot(name) matches Some(j) ==> j < BUTTON_COUNT,
{
    lemma_slot_from_bound(name, 0);
}

/// What a button event leaves behind: a button that went down reads as pressed and one
/// that went up as released; a controller button's check passes either way.  Any other
/// state changes nothing about the button.
pub proof fn lemma_button_event_is_remembered(
    d: DiagnosticView,
    player_id: u32,
    button: String,
    state: String,
)
    requires
        d.wf(),
    ensures
        ({
            let after = d.after_input(InputEvent::Button { player_id, button, state });
            &&& (state@ == "down"@ || state@ == "pressed"@) ==> after.is_pressed(button@)
            &&& (state@ == "up"@ || state@ == "released"@) ==> !after.is_pressed(button@)
            &&& (state@ == "down"@ || state@ == "pressed"@ || state@ == "up"@ || state@
                == "released"@) && button_slot(button@) is Some ==> after.button_status(button@)
                == TestStatus::Pass
            &&& !(state@ == "down"@ || state@ == "pressed"@ || state@ == "up"@ || state@
                == "released"@) ==> after.buttons == d.buttons && after.button_statuses
                == d.button_statuses
            &&& forall|other: Seq<char>|
                other != button@ ==> #[trigger] after.is_pressed(other) == d.is_pressed(other)
        }),
{
    reveal_strlit("down");
    reveal_strlit("pressed");
    reveal_strlit("up");
    reveal_strlit("released");
    lemma_slot_bound(button@);
    if (state@ == "up"@ || state@ == "released"@) {
        assert(state@ != "down"@ && state@ != "pressed"@) by {
            if state@ == "up"@ {
                assert(state@.len() == 2);
            } else {
                assert(state@.len() == 8);
            }
        }
    }
}

/// Restarting the input test: player, joystick, pressed, released and every button
/// check wait again, so the test as a whole no longer counts as passed, while the
/// checks of runtime, protocol, bridges, display and lifecycle stay as they were.
pub proof fn lemma_restart_waits_for_input(d: DiagnosticView)
    requires
        d.wf(),
    ensures
        ({
            let r = d.after_restart();
            &&& r.wf()
            &&& r.player_id is None
            &&& r.player_id_status == TestStatus::Waiting
            &&& r.joystick_status == TestStatus::Waiting
            &&& r.pressed_status == TestStatus::Waiting
            &&& r.released_status == TestStatus::Waiting
            &&& forall|i: int|
                0 <= i < BUTTON_COUNT ==> #[trigger] r.button_status(button_names()[i])
                    == TestStatus::Waiting
            &&& forall|name: Seq<char>| !#[trigger] r.is_pressed(name)
            &&& !r.all_passed()
            &&& r.runtime_status == d.runtime_status
            &&& r.protocol_status == d.protocol_status
            &&& r.input_bridge_status == d.input_bridge_status
            &&& r.display_data_status == d.display_data_status
            &&& r.display_match_status == d.display_match_status
            &&& r.lifecycle_bridge_status == d.lifecycle_bridge_status
            &&& r.game_started_status == d.game_started_status
            &&& r.game_window_ready_status == d.game_window_ready_status
            &&& r.game_display_ready_status == d.game_display_ready_status
            &&& r.game_ready_status == d.game_ready_status
            &&& r.game_exiting_status == d.game_exiting_status
        }),
{
    let r = d.after_restart();
    assert forall|i: int| 0 <= i < BUTTON_COUNT implies #[trigger] r.button_status(
        button_names()[i],
    ) == TestStatus::Waiting by {
        lemma_button_slots();
    }
}

/// A fresh diagnostic names no input bridge problem exactly when the input worker can
/// be started, for any configuration that has a port only where it has the raw port
/// text (as every configuration read with `RuntimeConfig::from_raw` has); likewise for
/// the lifecycle bridge.
pub proof fn lemma_new_agrees_with_workers(config: RuntimeConfig)
    requires
        config.input_port is Some ==> config.input_port_raw is Some,
        config.lifecycle_port is Some ==> config.lifecycle_port_raw is Some,
    ensures
        initial_view(config).bridge_reason is None <==> config.spec_can_start_input_worker(),
        initial_view(config).lifecycle_reason is None
            <==> config.spec_can_start_lifecycle_worker(),
{
}

/// Display data that names no problem has a complete target rectangle and a usable
/// mode; display data found good has at most the scale factor missing.
pub proof fn lemma_display_problems_agree(display: DisplayConfig)
    ensures
        display.spec_data_problem() is None ==> display.spec_has_valid_target_rect()
            && display.mode is Valid,
        display.spec_display_data_ok() ==> display.spec_problems() == problem_of(
            "ONA_DISPLAY_SCALE_FACTOR"@,
            display.scale_factor,
        ),
{
    let p = display.spec_problems();
    if display.spec_data_problem() is None {
        assert(p.len() == 0);
    }
    if display.spec_display_data_ok() {
        assert(p =~= problem_of("ONA_DISPLAY_SCALE_FACTOR"@, display.scale_factor));
    }
}

proof fn lemma_decimal_digits(n: nat)
    ensures
        decimal(n).len() > 0,
        all_digits(decimal(n)),
        digits_value(decimal(n)) == n,
    decreases n,
{
    reveal_with_fuel(decimal, 1);
    if n < 10 {
        let s = decimal(n);
        assert(s == seq![digit_char(n)]);
        assert(s.drop_last() =~= Seq::<char>::empty());
        assert(is_digit(digit_char(n)) && digit_value(digit_char(n)) == n);
        assert(s.last() == digit_char(n));
        assert(digits_value(s) == digits_value(s.drop_last()) * 10 + digit_value(s.last()));
    } else {
        lemma_decimal_digits(n / 10);
        let d = (n % 10) as nat;
        let s = decimal(n);
        assert(s == decimal(n / 10) + seq![digit_char(d)]);
        assert(s.drop_last() =~= decimal(n / 10));
        assert(is_digit(digit_char(d)) && digit_value(digit_char(d)) == d);
        assert(s.last() == digit_char(d));
        assert(digits_value(s) == digits_value(s.drop_last()) * 10 + digit_value(s.last()));
        assert forall|i: int| 0 <= i < s.len() implies #[trigger] is_digit(s[i]) by {
            if i < s.len() - 1 {
                assert(s[i] == decimal(n / 10)[i]);
            }
        }
    }
}

/// Reading back what was written: the decimal notation of a number parses to that
/// number, signed or not.
pub proof fn lemma_parse_decimal_roundtrip(n: nat, signed: bool)
    ensures
        parse_int(decimal(n), signed) == Some(n as int),
{
    lemma_decimal_digits(n);
    let s = decimal(n);
    assert(is_digit(s[0]));
    assert(s[0] != '+' && s[0] != '-');
}

/// A display mode written by its label reads back as the same mode.
pub proof fn lemma_display_mode_reads_back(mode: DisplayMode, raw: String)
    requires
        raw@ == mode.spec_label(),
    ensures
        spec_read_display_mode(Some(raw)) == EnvValue::Valid(mode),
{
    reveal_strlit("CONSOLE_FULLSCREEN");
    reveal_strlit("WINDOWED");
    assert("CONSOLE_FULLSCREEN"@.len() != "WINDOWED"@.len());
}

/// An unsigned number written in decimal (as its label shows it) reads back as the
/// same number.
pub proof fn lemma_unsigned_reads_back(n: u32, raw: String)
    requires
        raw@ == decimal(n as nat),
    ensures
        spec_read_u32(Some(raw)) == EnvValue::<u32>::Valid(n),
{
    lemma_parse_decimal_roundtrip(n as nat, false);
    assert(parsed_u32(raw@) == Some(n));
}

} // verus!
