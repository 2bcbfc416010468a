//! What the diagnostic screen shows, as a list of drawing steps, and drawing it.
use crate::diagnostic::{button_names, or_missing, Diagnostic, DiagnosticView, TestStatus, BUTTON_COUNT};
use crate::display::{bridge_color, spec_bridge_color};
use crate::rendering::{
    after_ops, op_fits, op_views, ops_fit, paint_ops, push_rect, push_text, DrawOp, DrawOpView,
    GLYPH_COUNT,
};
use crate::runtime::{
    mode_label, signed_label, text_label, unsigned_label, DisplayConfig, RuntimeConfig,
    EXPECTED_PROTOCOL_VERSION,
};
use crate::text::{decimal, pad_to, padded, push_decimal, text};
use vstd::prelude::*;
use vstd::string::*;

verus! {

pub const WHITE: [u8; 3] = [255, 255, 255];

pub const LIGHT_GREY: [u8; 3] = [200, 200, 200];

pub const GREY: [u8; 3] = [150, 150, 150];

pub const DARK_GREY: [u8; 3] = [130, 130, 130];

pub const DIM_GREY: [u8; 3] = [100, 100, 100];

pub const ORANGE: [u8; 3] = [255, 130, 70];

pub const SKY_BLUE: [u8; 3] = [100, 200, 255];

pub const GREEN: [u8; 3] = [0, 255, 0];

pub const YELLOW: [u8; 3] = [255, 255, 0];

pub const DARK_GREEN: [u8; 3] = [0, 70, 25];

/// A text step.
pub open spec fn text_op(x: usize, y: usize, t: Seq<char>, color: [u8; 3]) -> DrawOpView {
    DrawOpView::Text { x, y, text: t, color }
}

/// A status shown by its label in its color.
pub open spec fn badge(x: usize, y: usize, status: TestStatus) -> Seq<DrawOpView> {
    seq![text_op(x, y, status.spec_label(), status.spec_color())]
}

/// `label:` followed by the status badge.
pub open spec fn status_line(x: usize, y: usize, label: Seq<char>, status: TestStatus) -> Seq<
    DrawOpView,
> {
    seq![text_op(x, y, label + ":"@, LIGHT_GREY)] + badge((x + 170) as usize, y, status)
}

/// The label dotted out to 24 characters, followed by the status badge.
pub open spec fn test_line(x: usize, y: usize, label: Seq<char>, status: TestStatus) -> Seq<
    DrawOpView,
> {
    seq![text_op(x, y, padded(label, 24, '.'), LIGHT_GREY)] + badge((x + 230) as usize, y, status)
}

/// `Reason: ...`, where there is a reason.
pub open spec fn reason_line(x: usize, y: usize, reason: Option<Seq<char>>) -> Seq<DrawOpView> {
    match reason {
        Some(r) => seq![text_op(x, y, "Reason: "@ + r, ORANGE)],
        None => Seq::empty(),
    }
}

/// Title, runtime and protocol checks, and the input bridge.
pub open spec fn runtime_section(prev: Seq<DrawOpView>, d: DiagnosticView) -> Seq<DrawOpView> {
    prev + seq![text_op(10, 8, "GAME ONA 001 - DISPLAY/LIFECYCLE DIAGNOSTIC"@, WHITE)] + status_line(
        10,
        28,
        "ONA Runtime"@,
        d.runtime_status,
    ) + reason_line(10, 44, d.runtime_reason) + seq![
        text_op(
            10,
            52,
            "Protocol: "@ + d.protocol_display + " / expected "@ + EXPECTED_PROTOCOL_VERSION@,
            LIGHT_GREY,
        ),
    ] + badge(250, 52, d.protocol_status) + reason_line(10, 68, d.protocol_reason) + seq![
        text_op(10, 78, "Input Bridge: "@ + d.bridge_status, spec_bridge_color(d.bridge_status)),
    ] + badge(250, 78, d.input_bridge_status)
}

/// The gaming display's data and the display checks.
pub open spec fn display_section(prev: Seq<DrawOpView>, d: DiagnosticView, display: DisplayConfig) -> Seq<DrawOpView> {
    prev + seq![text_op(10, 92, "GAMING DISPLAY"@, WHITE)] + seq![
        text_op(10, 110, "ID: "@ + text_label(display.id), LIGHT_GREY),
    ] + seq![text_op(10, 126, "Name: "@ + text_label(display.name), LIGHT_GREY)] + seq![
        text_op(
            10,
            142,
            "Target: "@ + signed_label(display.x) + ","@ + signed_label(display.y) + " "@
                + unsigned_label(display.width) + "x"@ + unsigned_label(display.height),
            LIGHT_GREY,
        ),
    ] + seq![text_op(10, 158, "Mode: "@ + mode_label(display.mode), LIGHT_GREY)] + test_line(10, 178, "Display Data"@, d.display_data_status) + test_line(
        10,
        196,
        "Monitor Match"@,
        d.display_match_status,
    ) + seq![text_op(10, 214, "Matched: "@ + d.matched_monitor, DARK_GREY)] + reason_line(
        10,
        232,
        match d.display_match_reason {
            Some(r) => Some(r),
            None => d.display_data_reason,
        },
    )
}

/// The lifecycle bridge and the lifecycle checks.
pub open spec fn lifecycle_section(prev: Seq<DrawOpView>, d: DiagnosticView) -> Seq<DrawOpView> {
    prev + seq![text_op(10, 258, "LIFECYCLE"@, WHITE)] + seq![
        text_op(
            10,
            276,
            "Bridge: "@ + d.lifecycle_bridge_label,
            spec_bridge_color(d.lifecycle_bridge_label),
        ),
    ] + badge(250, 276, d.lifecycle_bridge_status) + test_line(
        10,
        296,
        "GAME_STARTED"@,
        d.game_started_status,
    ) + test_line(10, 314, "WINDOW_READY"@, d.game_window_ready_status) + test_line(
        10,
        332,
        "DISPLAY_READY"@,
        d.game_display_ready_status,
    ) + test_line(10, 350, "GAME_READY"@, d.game_ready_status) + test_line(
        10,
        368,
        "GAME_EXITING"@,
        d.game_exiting_status,
    ) + reason_line(10, 386, d.lifecycle_reason)
}

/// The player and the joystick position.
pub open spec fn player_section(prev: Seq<DrawOpView>, d: DiagnosticView, config: RuntimeConfig) -> Seq<DrawOpView> {
    prev + seq![
        text_op(
            10,
            404,
            match d.player_id {
                Some(p) => "Player ID: "@ + decimal(p as nat),
                None => "Player ID: WAITING"@,
            },
            LIGHT_GREY,
        ),
    ] + seq![text_op(10, 418, "Player Env: "@ + or_missing(config.player_id_raw), DARK_GREY)]
        + seq![text_op(10, 432, "Joystick: X="@ + d.joystick_x.1 + "  Y="@ + d.joystick_y.1, SKY_BLUE)]
}

/// The captions of the buttons on screen.
pub open spec fn button_captions() -> Seq<Seq<char>> {
    seq![
        "A"@,
        "B"@,
        "X"@,
        "Y"@,
        "L1"@,
        "L2"@,
        "R1"@,
        "R2"@,
        "SELECT"@,
        "START"@,
    ]
}

/// A text with its ASCII lower-case letters made capitals.
pub open spec fn ascii_upper(s: Seq<char>) -> Seq<char> {
    s.map_values(
        |c: char|
            if 'a' as u32 <= c as u32 && c as u32 <= 'z' as u32 {
                (c as u32 - 32) as char
            } else {
                c
            },
    )
}

/// Each caption is its button's name in capitals.
pub proof fn lemma_captions_are_capitals()
    ensures
        forall|i: int|
            0 <= i < BUTTON_COUNT ==> #[trigger] button_captions()[i] == ascii_upper(
                button_names()[i],
            ),
{
    reveal_strlit("A");
    reveal_strlit("B");
    reveal_strlit("X");
    reveal_strlit("Y");
    reveal_strlit("L1");
    reveal_strlit("L2");
    reveal_strlit("R1");
    reveal_strlit("R2");
    reveal_strlit("Select");
    reveal_strlit("SELECT");
    reveal_strlit("Start");
    reveal_strlit("START");
    assert forall|i: int| 0 <= i < BUTTON_COUNT implies #[trigger] button_captions()[i]
        == ascii_upper(button_names()[i]) by {
        assert(button_captions()[i] =~= ascii_upper(button_names()[i]));
    }
}

/// The caption of button `i`: its name in capitals.
pub fn button_caption(i: usize) -> (r: &'static str)
    requires
        i < BUTTON_COUNT,
    ensures
        r@ == button_captions()[i as int],
{
    if i == 0 {
        "A"
    } else if i == 1 {
        "B"
    } else if i == 2 {
        "X"
    } else if i == 3 {
        "Y"
    } else if i == 4 {
        "L1"
    } else if i == 5 {
        "L2"
    } else if i == 6 {
        "R1"
    } else if i == 7 {
        "R2"
    } else if i == 8 {
        "SELECT"
    } else {
        "START"
    }
}

/// The row of button `i` in the button panel: a lamp and `CAPTION DOWN` or `UP`.
pub open spec fn button_row(d: DiagnosticView, i: int) -> Seq<DrawOpView> {
    let y = (450 + 13 * i) as usize;
    let pressed = d.is_pressed(button_names()[i]);
    seq![
        DrawOpView::Rect {
            x: 10,
            y,
            w: 12,
            h: 12,
            color: if pressed {
                GREEN
            } else {
                DIM_GREY
            },
        },
    ] + seq![
        text_op(
            30,
            y,
            padded(button_captions()[i], 6, ' ') + " "@ + if pressed {
                "DOWN"@
            } else {
                "UP"@
            },
            LIGHT_GREY,
        ),
    ]
}

/// The rows of the first `n` buttons.
pub open spec fn button_rows(prev: Seq<DrawOpView>, d: DiagnosticView, n: int) -> Seq<DrawOpView>
    decreases n,
{
    if n <= 0 {
        prev
    } else {
        button_rows(prev, d, n - 1) + button_row(d, n - 1)
    }
}

/// The check lines of the first `n` buttons in the integration test.
pub open spec fn button_checks(prev: Seq<DrawOpView>, d: DiagnosticView, n: int) -> Seq<DrawOpView>
    decreases n,
{
    if n <= 0 {
        prev
    } else {
        button_checks(prev, d, n - 1) + test_line(
            360,
            (276 + 16 * (n - 1)) as usize,
            button_captions()[n - 1],
            d.button_status(button_names()[n - 1]),
        )
    }
}

/// The integration test: every check with its status.
pub open spec fn integration_section(prev: Seq<DrawOpView>, d: DiagnosticView) -> Seq<DrawOpView> {
    let checks = prev + seq![text_op(360, 28, "INTEGRATION TEST"@, WHITE)] + test_line(
        360,
        50,
        "ONA Runtime"@,
        d.runtime_status,
    ) + test_line(360, 68, "Protocol"@, d.protocol_status) + test_line(
        360,
        86,
        "Input Bridge"@,
        d.input_bridge_status,
    ) + test_line(360, 104, "Gaming Display Data"@, d.display_data_status) + test_line(
        360,
        122,
        "Gaming Display Match"@,
        d.display_match_status,
    ) + test_line(360, 140, "Lifecycle Bridge"@, d.lifecycle_bridge_status) + test_line(
        360,
        158,
        "Game Started"@,
        d.game_started_status,
    ) + test_line(360, 176, "Game Window Ready"@, d.game_window_ready_status) + test_line(
        360,
        194,
        "Game Display Ready"@,
        d.game_display_ready_status,
    ) + test_line(360, 212, "Game Ready"@, d.game_ready_status) + test_line(
        360,
        230,
        "Player ID"@,
        d.player_id_status,
    ) + test_line(360, 248, "Joystick X/Y"@, d.joystick_status);
    button_checks(checks, d, 10) + test_line(360, 444, "Pressed"@, d.pressed_status) + test_line(
        360,
        462,
        "Released"@,
        d.released_status,
    )
}

/// The last event and the overall result.
pub open spec fn result_section(prev: Seq<DrawOpView>, d: DiagnosticView) -> Seq<DrawOpView> {
    let with_last = prev + seq![text_op(10, 582, "Last event: "@ + d.last_event, GREY)];
    if d.all_passed() {
        with_last + seq![DrawOpView::Rect { x: 360, y: 520, w: 390, h: 54, color: DARK_GREEN }]
            + seq![text_op(374, 530, "RESULT: ALL TESTS PASSED"@, GREEN)] + seq![
            text_op(374, 548, "ONA GAME RUNTIME V1 VERIFIED"@, WHITE),
        ]
    } else {
        with_last + seq![text_op(360, 548, "RESULT: TEST IN PROGRESS"@, YELLOW)] + seq![
            text_op(360, 566, "WAITING ITEMS ARE NOT FAILURES"@, GREY),
        ]
    }
}


/// Whether `op` is no square of the button panel: anything but a rectangle at the
/// panel's left edge.
spec fn off_panel(op: DrawOpView) -> bool {
    !(op is Rect && op->Rect_x == 10)
}

/// `s` starts with `prev` and adds only steps off the button panel.
spec fn adds_off_panel(prev: Seq<DrawOpView>, s: Seq<DrawOpView>) -> bool {
    &&& prev.len() <= s.len()
    &&& forall|k: int| 0 <= k < prev.len() ==> #[trigger] s[k] == prev[k]
    &&& forall|k: int| prev.len() <= k < s.len() ==> off_panel(#[trigger] s[k])
}

proof fn lemma_adds_trans(a: Seq<DrawOpView>, b: Seq<DrawOpView>, c: Seq<DrawOpView>)
    requires
        adds_off_panel(a, b),
        adds_off_panel(b, c),
    ensures
        adds_off_panel(a, c),
{
    assert forall|k: int| a.len() <= k < c.len() implies off_panel(#[trigger] c[k]) by {
        if k < b.len() {
            assert(c[k] == b[k]);
        }
    }
}

proof fn lemma_add_text(prev: Seq<DrawOpView>, more: Seq<DrawOpView>)
    requires
        forall|k: int| 0 <= k < more.len() ==> #[trigger] more[k] is Text,
    ensures
        adds_off_panel(prev, prev + more),
{
    assert forall|k: int| prev.len() <= k < (prev + more).len() implies off_panel(
        #[trigger] (prev + more)[k],
    ) by {
        assert((prev + more)[k] == more[k - prev.len()]);
    }
}

proof fn lemma_lines_are_text(x: usize, y: usize, label: Seq<char>, status: TestStatus, reason: Option<Seq<char>>)
    ensures
        forall|k: int| 0 <= k < status_line(x, y, label, status).len() ==> #[trigger] status_line(x, y, label, status)[k] is Text,
        forall|k: int| 0 <= k < test_line(x, y, label, status).len() ==> #[trigger] test_line(x, y, label, status)[k] is Text,
        forall|k: int| 0 <= k < badge(x, y, status).len() ==> #[trigger] badge(x, y, status)[k] is Text,
        forall|k: int| 0 <= k < reason_line(x, y, reason).len() ==> #[trigger] reason_line(x, y, reason)[k] is Text,
{
    let s = status_line(x, y, label, status);
    assert forall|k: int| 0 <= k < s.len() implies #[trigger] s[k] is Text by {
        if k == 1 {
            assert(s[k] == badge((x + 170) as usize, y, status)[0]);
        }
    }
    let t = test_line(x, y, label, status);
    assert forall|k: int| 0 <= k < t.len() implies #[trigger] t[k] is Text by {
        if k == 1 {
            assert(t[k] == badge((x + 230) as usize, y, status)[0]);
        }
    }
}

proof fn lemma_runtime_section_off_panel(prev: Seq<DrawOpView>, d: DiagnosticView)
    ensures
        adds_off_panel(prev, runtime_section(prev, d)),
{
    lemma_lines_are_text(10, 28, "ONA Runtime"@, d.runtime_status, d.runtime_reason);
    lemma_lines_are_text(250, 52, "Protocol"@, d.protocol_status, d.protocol_reason);
    lemma_lines_are_text(250, 78, "Input Bridge"@, d.input_bridge_status, None);
    let s = runtime_section(prev, d);
    assert forall|k: int| prev.len() <= k < s.len() implies off_panel(#[trigger] s[k]) by {}
}

proof fn lemma_display_section_off_panel(prev: Seq<DrawOpView>, d: DiagnosticView, display: DisplayConfig)
    ensures
        adds_off_panel(prev, display_section(prev, d, display)),
{
    lemma_lines_are_text(10, 178, "Display Data"@, d.display_data_status, None);
    lemma_lines_are_text(10, 196, "Monitor Match"@, d.display_match_status, match d.display_match_reason {
            Some(r) => Some(r),
            None => d.display_data_reason,
        });
    let s = display_section(prev, d, display);
    assert forall|k: int| prev.len() <= k < s.len() implies off_panel(#[trigger] s[k]) by {
    }
}

proof fn lemma_lifecycle_section_off_panel(prev: Seq<DrawOpView>, d: DiagnosticView)
    ensures
        adds_off_panel(prev, lifecycle_section(prev, d)),
{
    lemma_lines_are_text(250, 276, "Bridge"@, d.lifecycle_bridge_status, d.lifecycle_reason);
    lemma_lines_are_text(10, 296, "GAME_STARTED"@, d.game_started_status, None);
    lemma_lines_are_text(10, 314, "WINDOW_READY"@, d.game_window_ready_status, None);
    lemma_lines_are_text(10, 332, "DISPLAY_READY"@, d.game_display_ready_status, None);
    lemma_lines_are_text(10, 350, "GAME_READY"@, d.game_ready_status, None);
    lemma_lines_are_text(10, 368, "GAME_EXITING"@, d.game_exiting_status, None);
    let s = lifecycle_section(prev, d);
    assert forall|k: int| prev.len() <= k < s.len() implies off_panel(#[trigger] s[k]) by {}
}

proof fn lemma_player_section_off_panel(prev: Seq<DrawOpView>, d: DiagnosticView, config: RuntimeConfig)
    ensures
        adds_off_panel(prev, player_section(prev, d, config)),
{
    let s = player_section(prev, d, config);
    assert forall|k: int| prev.len() <= k < s.len() implies off_panel(#[trigger] s[k]) by {}
}

proof fn lemma_button_checks_off_panel(prev: Seq<DrawOpView>, d: DiagnosticView, n: int)
    ensures
        adds_off_panel(prev, button_checks(prev, d, n)),
    decreases n,
{
    if n > 0 {
        lemma_button_checks_off_panel(prev, d, n - 1);
        let line = test_line(
            360,
            (276 + 16 * (n - 1)) as usize,
            button_captions()[n - 1],
            d.button_status(button_names()[n - 1]),
        );
        lemma_lines_are_text(
            360,
            (276 + 16 * (n - 1)) as usize,
            button_captions()[n - 1],
            d.button_status(button_names()[n - 1]),
            None,
        );
        lemma_add_text(button_checks(prev, d, n - 1), line);
        lemma_adds_trans(prev, button_checks(prev, d, n - 1), button_checks(prev, d, n));
    }
}

proof fn lemma_integration_section_off_panel(prev: Seq<DrawOpView>, d: DiagnosticView)
    ensures
        adds_off_panel(prev, integration_section(prev, d)),
{
    lemma_lines_are_text(360, 50, "ONA Runtime"@, d.runtime_status, None);
    lemma_lines_are_text(360, 68, "Protocol"@, d.protocol_status, None);
    lemma_lines_are_text(360, 86, "Input Bridge"@, d.input_bridge_status, None);
    lemma_lines_are_text(360, 104, "Gaming Display Data"@, d.display_data_status, None);
    lemma_lines_are_text(360, 122, "Gaming Display Match"@, d.display_match_status, None);
    lemma_lines_are_text(360, 140, "Lifecycle Bridge"@, d.lifecycle_bridge_status, None);
    lemma_lines_are_text(360, 158, "Game Started"@, d.game_started_status, None);
    lemma_lines_are_text(360, 176, "Game Window Ready"@, d.game_window_ready_status, None);
    lemma_lines_are_text(360, 194, "Game Display Ready"@, d.game_display_ready_status, None);
    lemma_lines_are_text(360, 212, "Game Ready"@, d.game_ready_status, None);
    lemma_lines_are_text(360, 230, "Player ID"@, d.player_id_status, None);
    lemma_lines_are_text(360, 248, "Joystick X/Y"@, d.joystick_status, None);
    lemma_lines_are_text(360, 444, "Pressed"@, d.pressed_status, None);
    lemma_lines_are_text(360, 462, "Released"@, d.released_status, None);
    let checks = prev + seq![text_op(360, 28, "INTEGRATION TEST"@, WHITE)] + test_line(
        360,
        50,
        "ONA Runtime"@,
        d.runtime_status,
    ) + test_line(360, 68, "Protocol"@, d.protocol_status) + test_line(
        360,
        86,
        "Input Bridge"@,
        d.input_bridge_status,
    ) + test_line(360, 104, "Gaming Display Data"@, d.display_data_status) + test_line(
        360,
        122,
        "Gaming Display Match"@,
        d.display_match_status,
    ) + test_line(360, 140, "Lifecycle Bridge"@, d.lifecycle_bridge_status) + test_line(
        360,
        158,
        "Game Started"@,
        d.game_started_status,
    ) + test_line(360, 176, "Game Window Ready"@, d.game_window_ready_status) + test_line(
        360,
        194,
        "Game Display Ready"@,
        d.game_display_ready_status,
    ) + test_line(360, 212, "Game Ready"@, d.game_ready_status) + test_line(
        360,
        230,
        "Player ID"@,
        d.player_id_status,
    ) + test_line(360, 248, "Joystick X/Y"@, d.joystick_status);
    assert(adds_off_panel(prev, checks)) by {
        assert forall|k: int| prev.len() <= k < checks.len() implies off_panel(
            #[trigger] checks[k],
        ) by {}
    }
    let rows = button_checks(checks, d, 10);
    lemma_button_checks_off_panel(checks, d, 10);
    lemma_adds_trans(prev, checks, rows);
    let s = integration_section(prev, d);
    let tail = test_line(360, 444, "Pressed"@, d.pressed_status) + test_line(
        360,
        462,
        "Released"@,
        d.released_status,
    );
    assert(s =~= rows + tail);
    assert forall|k: int| 0 <= k < tail.len() implies #[trigger] tail[k] is Text by {}
    lemma_add_text(rows, tail);
    lemma_adds_trans(prev, rows, s);
}

proof fn lemma_result_section_off_panel(prev: Seq<DrawOpView>, d: DiagnosticView)
    ensures
        adds_off_panel(prev, result_section(prev, d)),
{
    let s = result_section(prev, d);
    assert forall|k: int| prev.len() <= k < s.len() implies off_panel(#[trigger] s[k]) by {}
}


/// The whole diagnostic screen, in drawing order.
pub open spec fn spec_layout(d: DiagnosticView, config: RuntimeConfig) -> Seq<DrawOpView> {
    let a = runtime_section(Seq::empty(), d);
    let b = display_section(a, d, config.display);
    let c = lifecycle_section(b, d);
    let e = player_section(c, d, config);
    let f = button_rows(e, d, 10);
    let g = integration_section(f, d);
    result_section(g, d)
}

proof fn lemma_button_rows(prev: Seq<DrawOpView>, d: DiagnosticView, n: int)
    requires
        0 <= n,
    ensures
        button_rows(prev, d, n).len() == prev.len() + 2 * n,
        forall|k: int| 0 <= k < prev.len() ==> #[trigger] button_rows(prev, d, n)[k] == prev[k],
        forall|j: int|
            0 <= j < n ==> button_rows(prev, d, n)[prev.len() + 2 * j] == (#[trigger] button_row(
                d,
                j,
            ))[0] && button_rows(prev, d, n)[prev.len() + 2 * j + 1] == button_row(d, j)[1],
    decreases n,
{
    if n > 0 {
        lemma_button_rows(prev, d, n - 1);
        let before = button_rows(prev, d, n - 1);
        let s = button_rows(prev, d, n);
        assert(s == before + button_row(d, n - 1));
        assert forall|j: int| 0 <= j < n implies s[prev.len() + 2 * j] == (#[trigger] button_row(
            d,
            j,
        ))[0] && s[prev.len() + 2 * j + 1] == button_row(d, j)[1] by {
            if j < n - 1 {
                assert(s[prev.len() + 2 * j] == before[prev.len() + 2 * j]);
                assert(s[prev.len() + 2 * j + 1] == before[prev.len() + 2 * j + 1]);
            }
        }
    }
}

/// The lamps of the button panel: the screen shows, for each of the controller's
/// buttons `i`, a 12 by 12 square at the panel's left edge on the button's row, green
/// (`[0, 255, 0]`) where the button was last seen down and dim grey
/// (`[100, 100, 100]`) otherwise; and every square drawn at that place has that color.
pub proof fn lemma_button_lamps(d: DiagnosticView, config: RuntimeConfig, i: int)
    requires
        0 <= i < BUTTON_COUNT,
    ensures
        ({
            let screen = spec_layout(d, config);
            let lamp: [u8; 3] = if d.is_pressed(button_names()[i]) {
                [0u8, 255u8, 0u8]
            } else {
                [100u8, 100u8, 100u8]
            };
            &&& exists|k: int|
                0 <= k < screen.len() && #[trigger] screen[k] == DrawOpView::Rect {
                    x: 10,
                    y: (450 + 13 * i) as usize,
                    w: 12,
                    h: 12,
                    color: lamp,
                }
            &&& forall|k: int|
                0 <= k < screen.len() && #[trigger] screen[k] is Rect && screen[k]->Rect_x == 10
                    && screen[k]->Rect_y == 450 + 13 * i ==> screen[k]->Rect_color == lamp
        }),
{
    let a = runtime_section(Seq::empty(), d);
    let b = display_section(a, d, config.display);
    let c = lifecycle_section(b, d);
    let e = player_section(c, d, config);
    let f = button_rows(e, d, 10);
    let g = integration_section(f, d);
    let screen = result_section(g, d);
    lemma_runtime_section_off_panel(Seq::empty(), d);
    lemma_display_section_off_panel(a, d, config.display);
    lemma_lifecycle_section_off_panel(b, d);
    lemma_player_section_off_panel(c, d, config);
    lemma_adds_trans(Seq::empty(), a, b);
    lemma_adds_trans(Seq::empty(), b, c);
    lemma_adds_trans(Seq::empty(), c, e);
    lemma_integration_section_off_panel(f, d);
    lemma_result_section_off_panel(g, d);
    lemma_adds_trans(f, g, screen);
    lemma_button_rows(e, d, 10);
    let lamp: [u8; 3] = if d.is_pressed(button_names()[i]) {
        [0u8, 255u8, 0u8]
    } else {
        [100u8, 100u8, 100u8]
    };
    let n = e.len() as int;
    assert(button_row(d, i)[0] == DrawOpView::Rect {
        x: 10,
        y: (450 + 13 * i) as usize,
        w: 12,
        h: 12,
        color: lamp,
    });
    assert(screen[n + 2 * i] == f[n + 2 * i]);
    assert forall|k: int|
        0 <= k < screen.len() && #[trigger] screen[k] is Rect && screen[k]->Rect_x == 10
            && screen[k]->Rect_y == 450 + 13 * i implies screen[k]->Rect_color == lamp by {
        if k < n {
            assert(screen[k] == f[k] && f[k] == e[k]);
        } else if k < n + 20 {
            let j = (k - n) / 2;
            assert(0 <= j < 10);
            assert(screen[k] == f[k]);
            let row = button_row(d, j);
            if k == n + 2 * j {
                assert(f[k] == row[0]);
                assert(j == i);
            } else {
                assert(k == n + 2 * j + 1);
                assert(f[k] == row[1]);
            }
        }
    }
}


fn draw_status_badge(ops: &mut Vec<DrawOp>, x: usize, y: usize, status: TestStatus)
    ensures
        op_views(final(ops)@) == op_views(old(ops)@) + badge(x, y, status),
{
    let ghost before = op_views(ops@);
    push_text(ops, x, y, text(status.label()), status.color());
    assert(op_views(ops@) =~= before + badge(x, y, status));
}

fn draw_status_line(ops: &mut Vec<DrawOp>, x: usize, y: usize, label: &str, status: TestStatus)
    requires
        x <= 1000,
    ensures
        op_views(final(ops)@) == op_views(old(ops)@) + status_line(x, y, label@, status),
{
    let ghost before = op_views(ops@);
    let mut line = text(label);
    line.append(":");
    push_text(ops, x, y, line, LIGHT_GREY);
    draw_status_badge(ops, x + 170, y, status);
    assert(op_views(ops@) =~= before + status_line(x, y, label@, status));
}

fn draw_test_line(ops: &mut Vec<DrawOp>, x: usize, y: usize, label: &str, status: TestStatus)
    requires
        x <= 1000,
    ensures
        op_views(final(ops)@) == op_views(old(ops)@) + test_line(x, y, label@, status),
{
    let ghost before = op_views(ops@);
    let mut line = text(label);
    proof {
        reveal_strlit(".");
    }
    pad_to(&mut line, 24, ".");
    push_text(ops, x, y, line, LIGHT_GREY);
    draw_status_badge(ops, x + 230, y, status);
    assert(op_views(ops@) =~= before + test_line(x, y, label@, status));
}

fn draw_reason(ops: &mut Vec<DrawOp>, x: usize, y: usize, reason: &Option<String>)
    ensures
        op_views(final(ops)@) == op_views(old(ops)@) + reason_line(x, y, reason.deep_view()),
{
    let ghost before = op_views(ops@);
    match reason {
        Some(r) => {
            let mut line = text("Reason: ");
            line.append(r.as_str());
            push_text(ops, x, y, line, ORANGE);
        },
        None => {},
    }
    assert(op_views(ops@) =~= before + reason_line(x, y, reason.deep_view()));
}

fn push_runtime_section(ops: &mut Vec<DrawOp>, d: &Diagnostic)
    ensures
        op_views(final(ops)@) == runtime_section(op_views(old(ops)@), d@),
{
    push_text(ops, 10, 8, text("GAME ONA 001 - DISPLAY/LIFECYCLE DIAGNOSTIC"), WHITE);
    draw_status_line(ops, 10, 28, "ONA Runtime", d.runtime_status);
    draw_reason(ops, 10, 44, &d.runtime_reason);
    let mut protocol = text("Protocol: ");
    protocol.append(d.protocol_display.as_str());
    protocol.append(" / expected ");
    protocol.append(EXPECTED_PROTOCOL_VERSION);
    push_text(ops, 10, 52, protocol, LIGHT_GREY);
    draw_status_badge(ops, 250, 52, d.protocol_status);
    draw_reason(ops, 10, 68, &d.protocol_reason);
    let mut bridge = text("Input Bridge: ");
    bridge.append(d.bridge_status.as_str());
    push_text(ops, 10, 78, bridge, bridge_color(d.bridge_status.as_str()));
    draw_status_badge(ops, 250, 78, d.input_bridge_status);
    
}

fn push_display_section(ops: &mut Vec<DrawOp>, d: &Diagnostic, display: &DisplayConfig)
    ensures
        op_views(final(ops)@) == display_section(op_views(old(ops)@), d@, *display),
{
    push_text(ops, 10, 92, text("GAMING DISPLAY"), WHITE);
    let mut id = text("ID: ");
    id.append(display.id.as_label().as_str());
    push_text(ops, 10, 110, id, LIGHT_GREY);
    let mut name = text("Name: ");
    name.append(display.name.as_label().as_str());
    push_text(ops, 10, 126, name, LIGHT_GREY);
    let mut target = text("Target: ");
    target.append(display.x.as_label().as_str());
    target.append(",");
    target.append(display.y.as_label().as_str());
    target.append(" ");
    target.append(display.width.as_label().as_str());
    target.append("x");
    target.append(display.height.as_label().as_str());
    push_text(ops, 10, 142, target, LIGHT_GREY);
    let mut mode = text("Mode: ");
    mode.append(display.mode.as_label().as_str());
    push_text(ops, 10, 158, mode, LIGHT_GREY);
    draw_test_line(ops, 10, 178, "Display Data", d.display_data_status);
    draw_test_line(ops, 10, 196, "Monitor Match", d.display_match_status);
    let mut matched = text("Matched: ");
    matched.append(d.matched_monitor.as_str());
    push_text(ops, 10, 214, matched, DARK_GREY);
    if d.display_match_reason.is_some() {
        draw_reason(ops, 10, 232, &d.display_match_reason);
    } else {
        draw_reason(ops, 10, 232, &d.display_data_reason);
    }
    
}

fn push_lifecycle_section(ops: &mut Vec<DrawOp>, d: &Diagnostic)
    ensures
        op_views(final(ops)@) == lifecycle_section(op_views(old(ops)@), d@),
{
    push_text(ops, 10, 258, text("LIFECYCLE"), WHITE);
    let mut bridge = text("Bridge: ");
    bridge.append(d.lifecycle_bridge_label.as_str());
    push_text(ops, 10, 276, bridge, bridge_color(d.lifecycle_bridge_label.as_str()));
    draw_status_badge(ops, 250, 276, d.lifecycle_bridge_status);
    draw_test_line(ops, 10, 296, "GAME_STARTED", d.game_started_status);
    draw_test_line(ops, 10, 314, "WINDOW_READY", d.game_window_ready_status);
    draw_test_line(ops, 10, 332, "DISPLAY_READY", d.game_display_ready_status);
    draw_test_line(ops, 10, 350, "GAME_READY", d.game_ready_status);
    draw_test_line(ops, 10, 368, "GAME_EXITING", d.game_exiting_status);
    draw_reason(ops, 10, 386, &d.lifecycle_reason);
    
}

fn push_player_section(ops: &mut Vec<DrawOp>, d: &Diagnostic, config: &RuntimeConfig)
    ensures
        op_views(final(ops)@) == player_section(op_views(old(ops)@), d@, *config),
{
    let player = match d.player_id {
        Some(p) => {
            let mut s = text("Player ID: ");
            push_decimal(&mut s, p as u64);
            s
        },
        None => text("Player ID: WAITING"),
    };
    push_text(ops, 10, 404, player, LIGHT_GREY);
    let mut env = text("Player Env: ");
    match &config.player_id_raw {
        Some(raw) => env.append(raw.as_str()),
        None => env.append("<missing>"),
    }
    push_text(ops, 10, 418, env, DARK_GREY);
    let mut joystick = text("Joystick: X=");
    joystick.append(d.joystick_x.text.as_str());
    joystick.append("  Y=");
    joystick.append(d.joystick_y.text.as_str());
    push_text(ops, 10, 432, joystick, SKY_BLUE);
    
}

fn push_button_rows(ops: &mut Vec<DrawOp>, d: &Diagnostic)
    requires
        d.wf(),
    ensures
        op_views(final(ops)@) == button_rows(op_views(old(ops)@), d@, 10),
{
    let ghost before = op_views(ops@);
    let names = Diagnostic::buttons();
    let mut i: usize = 0;
    let mut y: usize = 450;
    
    while i < BUTTON_COUNT
        invariant
            i <= BUTTON_COUNT,
            d.wf(),
            y == 450 + 13 * i,
            names@.len() == BUTTON_COUNT,
            forall|k: int| 0 <= k < BUTTON_COUNT ==> #[trigger] names@[k]@ == button_names()[k],
            op_views(ops@) == button_rows(before, d@, i as int),
        decreases BUTTON_COUNT - i,
    {
        let pressed = d.is_pressed(names[i]);
        let lamp = if pressed {
            GREEN
        } else {
            DIM_GREY
        };
        push_rect(ops, 10, y, 12, 12, lamp);
        let mut caption = text(button_caption(i));
        proof {
            reveal_strlit(" ");
        }
        pad_to(&mut caption, 6, " ");
        caption.append(" ");
        if pressed {
            caption.append("DOWN");
        } else {
            caption.append("UP");
        }
        push_text(ops, 30, y, caption, LIGHT_GREY);
        proof {
            assert(button_rows(before, d@, i + 1) == button_rows(before, d@, i as int) + button_row(d@, i as int));
        }
        i = i + 1;
        y = y + 13;
    }
}

fn push_button_checks(ops: &mut Vec<DrawOp>, d: &Diagnostic)
    requires
        d.wf(),
    ensures
        op_views(final(ops)@) == button_checks(op_views(old(ops)@), d@, 10),
{
    let ghost before = op_views(ops@);
    let names = Diagnostic::buttons();
    let mut i: usize = 0;
    let mut y: usize = 276;
    
    while i < BUTTON_COUNT
        invariant
            i <= BUTTON_COUNT,
            d.wf(),
            y == 276 + 16 * i,
            names@.len() == BUTTON_COUNT,
            forall|k: int| 0 <= k < BUTTON_COUNT ==> #[trigger] names@[k]@ == button_names()[k],
            op_views(ops@) == button_checks(before, d@, i as int),
        decreases BUTTON_COUNT - i,
    {
        draw_test_line(ops, 360, y, button_caption(i), d.button_status(names[i]));
        proof {
            assert(button_checks(before, d@, i + 1) == button_checks(before, d@, i as int) + test_line(
                360,
                (276 + 16 * i) as usize,
                button_captions()[i as int],
                d@.button_status(button_names()[i as int]),
            ));
        }
        i = i + 1;
        y = y + 16;
    }
}

fn push_integration_section(ops: &mut Vec<DrawOp>, d: &Diagnostic)
    requires
        d.wf(),
    ensures
        op_views(final(ops)@) == integration_section(op_views(old(ops)@), d@),
{
    push_text(ops, 360, 28, text("INTEGRATION TEST"), WHITE);
    draw_test_line(ops, 360, 50, "ONA Runtime", d.runtime_status);
    draw_test_line(ops, 360, 68, "Protocol", d.protocol_status);
    draw_test_line(ops, 360, 86, "Input Bridge", d.input_bridge_status);
    draw_test_line(ops, 360, 104, "Gaming Display Data", d.display_data_status);
    draw_test_line(ops, 360, 122, "Gaming Display Match", d.display_match_status);
    draw_test_line(ops, 360, 140, "Lifecycle Bridge", d.lifecycle_bridge_status);
    draw_test_line(ops, 360, 158, "Game Started", d.game_started_status);
    draw_test_line(ops, 360, 176, "Game Window Ready", d.game_window_ready_status);
    draw_test_line(ops, 360, 194, "Game Display Ready", d.game_display_ready_status);
    draw_test_line(ops, 360, 212, "Game Ready", d.game_ready_status);
    draw_test_line(ops, 360, 230, "Player ID", d.player_id_status);
    draw_test_line(ops, 360, 248, "Joystick X/Y", d.joystick_status);
    let ghost mid = op_views(ops@);
    push_button_checks(ops, d);
    draw_test_line(ops, 360, 444, "Pressed", d.pressed_status);
    draw_test_line(ops, 360, 462, "Released", d.released_status);
    assert(op_views(ops@) == button_checks(mid, d@, 10) + test_line(360, 444, "Pressed"@, d@.pressed_status) + test_line(
        360,
        462,
        "Released"@,
        d@.released_status,
    ));
    
}

fn push_result_section(ops: &mut Vec<DrawOp>, d: &Diagnostic)
    requires
        d.wf(),
    ensures
        op_views(final(ops)@) == result_section(op_views(old(ops)@), d@),
{
    let mut last = text("Last event: ");
    last.append(d.last_event.as_str());
    push_text(ops, 10, 582, last, GREY);
    if d.all_tests_passed() {
        push_rect(ops, 360, 520, 390, 54, DARK_GREEN);
        push_text(ops, 374, 530, text("RESULT: ALL TESTS PASSED"), GREEN);
        push_text(ops, 374, 548, text("ONA GAME RUNTIME V1 VERIFIED"), WHITE);
    } else {
        push_text(ops, 360, 548, text("RESULT: TEST IN PROGRESS"), YELLOW);
        push_text(ops, 360, 566, text("WAITING ITEMS ARE NOT FAILURES"), GREY);
    }
    
}

/// The drawing steps of the diagnostic screen for this state and configuration.
pub fn diagnostic_layout(diagnostic: &Diagnostic, config: &RuntimeConfig) -> (r: Vec<DrawOp>)
    requires
        diagnostic.wf(),
    ensures
        op_views(r@) == spec_layout(diagnostic@, *config),
{
    let mut ops: Vec<DrawOp> = Vec::new();
    assert(op_views(ops@) =~= Seq::<DrawOpView>::empty());
    push_runtime_section(&mut ops, diagnostic);
    push_display_section(&mut ops, diagnostic, &config.display);
    push_lifecycle_section(&mut ops, diagnostic);
    push_player_section(&mut ops, diagnostic, config);
    push_button_rows(&mut ops, diagnostic);
    push_integration_section(&mut ops, diagnostic);
    push_result_section(&mut ops, diagnostic);
    ops
}

/// Draws the diagnostic screen into `frame`, where every step fits (see [`ops_fit`]).
pub fn draw_diagnostic(
    frame: &mut [u8],
    font: &[[u8; 8]],
    diagnostic: &Diagnostic,
    config: &RuntimeConfig,
)
    requires
        diagnostic.wf(),
        font@.len() == GLYPH_COUNT,
        forall|i: int|
            0 <= i < spec_layout(diagnostic@, *config).len() ==> #[trigger] op_fits(
                spec_layout(diagnostic@, *config)[i],
            ),
    ensures
        final(frame)@ == after_ops(old(frame)@, font@, spec_layout(diagnostic@, *config)),
{
    let ops = diagnostic_layout(diagnostic, config);
    paint_ops(frame, font, &ops);
}

/// Whether the diagnostic screen can be drawn: every step fits.
pub fn layout_fits(diagnostic: &Diagnostic, config: &RuntimeConfig) -> (r: bool)
    requires
        diagnostic.wf(),
    ensures
        r == forall|i: int|
            0 <= i < spec_layout(diagnostic@, *config).len() ==> #[trigger] op_fits(
                spec_layout(diagnostic@, *config)[i],
            ),
{
    let ops = diagnostic_layout(diagnostic, config);
    ops_fit(&ops)
}

} // verus!
