use ona_diagnostic::diagnostic::Diagnostic;
use ona_diagnostic::input::InputWorkerMessage;
use ona_diagnostic::layout::{diagnostic_layout, draw_diagnostic, layout_fits};
use ona_diagnostic::rendering::{clear, draw_char, draw_rect, draw_string, ops_fit, paint_ops, DrawOp, GLYPH_COUNT, HEIGHT, WIDTH};
use ona_diagnostic::runtime::{DisplayConfig, EnvValue, RuntimeConfig};

const FRAME_LEN: usize = WIDTH * HEIGHT * 4;

/// A font whose glyph for every character is a diagonal line, the first row's pixel at the left.
fn diagonal_font() -> Vec<[u8; 8]> {
    vec![[0x80, 0x40, 0x20, 0x10, 0x08, 0x04, 0x02, 0x01]; GLYPH_COUNT]
}

fn pixel(frame: &[u8], x: usize, y: usize) -> [u8; 4] {
    let i = (y * WIDTH + x) * 4;
    [frame[i], frame[i + 1], frame[i + 2], frame[i + 3]]
}

#[test]
fn glyph_bits_become_pixels() {
    let mut frame = vec![0u8; FRAME_LEN];
    let font = diagonal_font();
    draw_char(&mut frame, &font, 10, 20, 'A', [1, 2, 3]);
    for row in 0..8 {
        for col in 0..8 {
            let expected = if row == col { [1, 2, 3, 255] } else { [0, 0, 0, 0] };
            assert_eq!(pixel(&frame, 10 + col, 20 + row), expected);
        }
    }
    assert_eq!(frame.iter().filter(|b| **b != 0).count(), 8 * 4);
}

#[test]
fn characters_without_glyph_draw_nothing() {
    let mut frame = vec![7u8; FRAME_LEN];
    let font = diagonal_font();
    draw_char(&mut frame, &font, 0, 0, '\u{7f}', [1, 2, 3]);
    draw_char(&mut frame, &font, 0, 0, 'é', [1, 2, 3]);
    draw_char(&mut frame, &font, 0, 0, '\u{1f}', [1, 2, 3]);
    assert!(frame.iter().all(|b| *b == 7));
}

#[test]
fn drawing_is_clipped_to_the_frame() {
    let mut frame = vec![0u8; FRAME_LEN];
    let font = diagonal_font();
    draw_char(&mut frame, &font, 796, 596, '#', [9, 9, 9]);
    assert_eq!(pixel(&frame, 799, 599), [9, 9, 9, 255]);
    assert_eq!(frame.iter().filter(|b| **b != 0).count(), 4 * 4);
    let mut small = vec![0u8; 10];
    draw_rect(&mut small, 0, 0, 5, 5, [1, 1, 1]);
    assert_eq!(small, vec![1, 1, 1, 255, 1, 1, 1, 255, 0, 0]);
}

#[test]
fn strings_advance_and_skip_line_breaks() {
    let mut frame = vec![0u8; FRAME_LEN];
    let font = diagonal_font();
    draw_string(&mut frame, &font, 0, 0, "a\nb", [5, 5, 5]);
    assert_eq!(pixel(&frame, 0, 0), [5, 5, 5, 255]);
    assert_eq!(pixel(&frame, 9, 0), [5, 5, 5, 255]);
    assert_eq!(pixel(&frame, 18, 0), [0, 0, 0, 0]);
}

#[test]
fn rectangles_and_clearing() {
    let mut frame = vec![0u8; FRAME_LEN];
    draw_rect(&mut frame, 795, 10, 12, 2, [4, 5, 6]);
    assert_eq!(pixel(&frame, 795, 10), [4, 5, 6, 255]);
    assert_eq!(pixel(&frame, 799, 11), [4, 5, 6, 255]);
    assert_eq!(frame.iter().filter(|b| **b != 0).count(), 5 * 2 * 4);
    clear(&mut frame);
    assert!(frame.iter().all(|b| *b == 0));
}

#[test]
fn painting_steps_in_order() {
    let mut frame = vec![0u8; FRAME_LEN];
    let font = diagonal_font();
    let ops = vec![
        DrawOp::Rect { x: 0, y: 0, w: 2, h: 1, color: [1, 1, 1] },
        DrawOp::Text { x: 0, y: 0, text: "x".to_string(), color: [2, 2, 2] },
    ];
    assert!(ops_fit(&ops));
    paint_ops(&mut frame, &font, &ops);
    assert_eq!(pixel(&frame, 0, 0), [2, 2, 2, 255]);
    assert_eq!(pixel(&frame, 1, 0), [1, 1, 1, 255]);
    let too_far = vec![DrawOp::Text { x: usize::MAX - 3, y: 0, text: "x".to_string(), color: [0, 0, 0] }];
    assert!(!ops_fit(&too_far));
}

fn config() -> RuntimeConfig {
    RuntimeConfig {
        runtime_raw: Some("1".to_string()),
        protocol_raw: Some("1".to_string()),
        input_host: None,
        input_port_raw: None,
        input_port: None,
        lifecycle_host: None,
        lifecycle_port_raw: None,
        lifecycle_port: None,
        player_id_raw: Some("4".to_string()),
        player_id: Some(4),
        display: DisplayConfig {
            id: EnvValue::Valid("d".to_string()),
            target: EnvValue::Missing,
            name: EnvValue::Invalid(String::new()),
            x: EnvValue::Valid(-5),
            y: EnvValue::Valid(0),
            width: EnvValue::Valid(640),
            height: EnvValue::Missing,
            scale_factor: EnvValue::Missing,
            mode: EnvValue::Missing,
        },
    }
}

fn texts(ops: &[DrawOp]) -> Vec<(usize, usize, String)> {
    ops.iter()
        .filter_map(|op| match op {
            DrawOp::Text { x, y, text, .. } => Some((*x, *y, text.clone())),
            DrawOp::Rect { .. } => None,
        })
        .collect()
}

#[test]
fn diagnostic_screen_layout() {
    let mut diagnostic = Diagnostic::new(&config());
    diagnostic.handle_worker_message(InputWorkerMessage::Connected);
    let ops = diagnostic_layout(&diagnostic, &config());
    let t = texts(&ops);
    assert_eq!(t[0], (10, 8, "GAME ONA 001 - DISPLAY/LIFECYCLE DIAGNOSTIC".to_string()));
    assert!(t.contains(&(10, 28, "ONA Runtime:".to_string())));
    assert!(t.contains(&(180, 28, "PASS".to_string())));
    assert!(t.contains(&(10, 52, "Protocol: 1 / expected 1".to_string())));
    assert!(t.contains(&(10, 78, "Input Bridge: CONNECTED".to_string())));
    assert!(t.contains(&(10, 110, "ID: d".to_string())));
    assert!(t.contains(&(10, 126, "Name: <invalid:>".to_string())));
    assert!(t.contains(&(10, 142, "Target: -5,0 640x<missing>".to_string())));
    assert!(t.contains(&(10, 158, "Mode: <missing>".to_string())));
    assert!(t.contains(&(10, 178, "Display Data............".to_string())));
    assert!(t.contains(&(240, 178, "FAIL".to_string())));
    assert!(t.contains(&(10, 404, "Player ID: 4".to_string())));
    assert!(t.contains(&(10, 418, "Player Env: 4".to_string())));
    assert!(t.contains(&(10, 432, "Joystick: X=0.00  Y=0.00".to_string())));
    assert!(t.contains(&(30, 450 + 13 * 8, "SELECT UP".to_string())));
    assert!(t.contains(&(360, 276 + 16 * 9, "START...................".to_string())));
    assert!(t.contains(&(360, 462, "Released................".to_string())));
    assert!(t.contains(&(10, 582, "Last event: None".to_string())));
    assert!(t.contains(&(360, 548, "RESULT: TEST IN PROGRESS".to_string())));
    assert!(layout_fits(&diagnostic, &config()));
    let mut frame = vec![0u8; FRAME_LEN];
    draw_diagnostic(&mut frame, &diagnostic_font(), &diagnostic, &config());
    assert!(frame.iter().any(|b| *b != 0));
}

fn diagnostic_font() -> Vec<[u8; 8]> {
    diagonal_font()
}
