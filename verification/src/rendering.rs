//! Painting into the 800x600 RGBA frame: text in an 8x8 bitmap font, and rectangles.
use vstd::prelude::*;

verus! {

/// Width of the frame, in pixels.
pub const WIDTH: usize = 800;

/// Height of the frame, in pixels.
pub const HEIGHT: usize = 600;

/// Horizontal distance between two characters of a text, in pixels.
pub const CHAR_ADVANCE: usize = 9;

/// Number of glyphs in the font: the printable ASCII characters, space to tilde.
pub const GLYPH_COUNT: usize = 95;

/// Whether the pixel at `row`, `col` of an 8x8 glyph is set; the most significant bit
/// of a row's byte is its leftmost pixel.
pub open spec fn glyph_bit(glyph: [u8; 8], row: int, col: int) -> bool {
    (glyph[row] >> ((7 - col) as u8)) & 1u8 == 1u8
}

/// Whether a shape covers its pixel at `row`, `col`: a glyph where its bit is set, a
/// solid block (`None`) everywhere.
pub open spec fn covers(shape: Option<[u8; 8]>, row: int, col: int) -> bool {
    match shape {
        Some(glyph) => glyph_bit(glyph, row, col),
        None => true,
    }
}

/// Whether pixel `px`, `py` of the frame is painted by the shape placed with its top
/// left corner at `x`, `y` and `w` by `h` pixels large.
pub open spec fn painted(
    x: int,
    y: int,
    w: int,
    h: int,
    shape: Option<[u8; 8]>,
    px: int,
    py: int,
) -> bool {
    &&& x <= px < x + w
    &&& y <= py < y + h
    &&& px < WIDTH
    &&& py < HEIGHT
    &&& covers(shape, py - y, px - x)
}

/// Byte `j` of a pixel painted in `color`: red, green, blue, then full opacity.
pub open spec fn color_byte(color: [u8; 3], j: int) -> u8 {
    if j == 3 {
        255u8
    } else {
        color[j]
    }
}

/// Byte `k` of a frame of `len` bytes, which held `old`, after the shape is painted.
/// A pixel is painted only where all four of its bytes lie in the frame.
pub open spec fn byte_after(
    old: u8,
    k: int,
    len: int,
    x: int,
    y: int,
    w: int,
    h: int,
    shape: Option<[u8; 8]>,
    color: [u8; 3],
) -> u8 {
    let p = k / 4;
    if painted(x, y, w, h, shape, p % (WIDTH as int), p / (WIDTH as int)) && p * 4 + 3 < len {
        color_byte(color, k % 4)
    } else {
        old
    }
}

/// The frame after the shape is painted on it.
pub open spec fn after_fill(
    frame: Seq<u8>,
    x: int,
    y: int,
    w: int,
    h: int,
    shape: Option<[u8; 8]>,
    color: [u8; 3],
) -> Seq<u8> {
    Seq::new(frame.len(), |k: int| byte_after(frame[k], k, frame.len() as int, x, y, w, h, shape, color))
}

/// Whether the pixel at `px`, `py` comes before position `row`, `col` of the shape in
/// painting order (row by row, left to right).
pub open spec fn done_before(x: int, y: int, w: int, px: int, py: int, row: int, col: int) -> bool {
    x <= px < x + w && y <= py && (py - y < row || (py - y == row && px - x < col))
}

/// Byte `k` when the shape has been painted up to position `row`, `col`.
pub open spec fn byte_partial(
    old: u8,
    k: int,
    len: int,
    x: int,
    y: int,
    w: int,
    h: int,
    shape: Option<[u8; 8]>,
    color: [u8; 3],
    row: int,
    col: int,
) -> u8 {
    let p = k / 4;
    if done_before(x, y, w, p % (WIDTH as int), p / (WIDTH as int), row, col) {
        byte_after(old, k, len, x, y, w, h, shape, color)
    } else {
        old
    }
}

proof fn lemma_pixel_position(p: int, px: int, py: int)
    requires
        0 <= p,
        0 <= px < WIDTH,
        0 <= py,
    ensures
        (p % (WIDTH as int) == px && p / (WIDTH as int) == py) <==> p == py * (WIDTH as int) + px,
{
    assert((p % 800 == px && p / 800 == py) <==> p == py * 800 + px) by (nonlinear_arith)
        requires
            0 <= p,
            0 <= px < 800,
            0 <= py,
    ;
}

/// Paints `shape` with its top left corner at `x`, `y`, `w` by `h` pixels large.
fn fill(
    frame: &mut [u8],
    x: usize,
    y: usize,
    w: usize,
    h: usize,
    shape: Option<[u8; 8]>,
    color: [u8; 3],
)
    requires
        h > 0 ==> x + w <= usize::MAX + 1,
        y + h <= usize::MAX + 1,
        shape is Some ==> w <= 8 && h <= 8,
    ensures
        final(frame)@ == after_fill(old(frame)@, x as int, y as int, w as int, h as int, shape, color),
{
    let ghost orig = frame@;
    let ghost len = frame@.len() as int;
    let mut row: usize = 0;
    while row < h
        invariant
            row <= h,
            h > 0 ==> x + w <= usize::MAX + 1,
            y + h <= usize::MAX + 1,
            shape is Some ==> w <= 8 && h <= 8,
            frame@.len() == len,
            orig.len() == len,
            forall|k: int|
                0 <= k < len ==> #[trigger] frame@[k] == byte_partial(
                    orig[k],
                    k,
                    len,
                    x as int,
                    y as int,
                    w as int,
                    h as int,
                    shape,
                    color,
                    row as int,
                    0,
                ),
        decreases h - row,
    {
        let mut col: usize = 0;
        while col < w
            invariant
                row < h,
                col <= w,
                x + w <= usize::MAX + 1,
                y + h <= usize::MAX + 1,
                shape is Some ==> w <= 8 && h <= 8,
                frame@.len() == len,
                orig.len() == len,
                forall|k: int|
                    0 <= k < len ==> #[trigger] frame@[k] == byte_partial(
                        orig[k],
                        k,
                        len,
                        x as int,
                        y as int,
                        w as int,
                        h as int,
                        shape,
                        color,
                        row as int,
                        col as int,
                    ),
            decreases w - col,
        {
            let px = x + col;
            let py = y + row;
            let on = match shape {
                Some(glyph) => (glyph[row] >> ((7 - col) as u8)) & 1u8 == 1u8,
                None => true,
            };
            let ghost before = frame@;
            if on && px < WIDTH && py < HEIGHT {
                let idx = (py * WIDTH + px) * 4;
                if idx + 3 < frame.len() {
                    frame[idx] = color[0];
                    frame[idx + 1] = color[1];
                    frame[idx + 2] = color[2];
                    frame[idx + 3] = 255;
                }
            }
            proof {
                assert forall|k: int| 0 <= k < len implies #[trigger] frame@[k] == byte_partial(
                    orig[k],
                    k,
                    len,
                    x as int,
                    y as int,
                    w as int,
                    h as int,
                    shape,
                    color,
                    row as int,
                    col + 1,
                ) by {
                    let p = k / 4;
                    if px < WIDTH {
                        lemma_pixel_position(p, px as int, py as int);
                        if p == py * WIDTH + px {
                            assert(p % (WIDTH as int) == px && p / (WIDTH as int) == py);
                        } else {
                            assert(!(p % (WIDTH as int) == px && p / (WIDTH as int) == py));
                        }
                    }
                    assert(before[k] == byte_partial(
                        orig[k],
                        k,
                        len,
                        x as int,
                        y as int,
                        w as int,
                        h as int,
                        shape,
                        color,
                        row as int,
                        col as int,
                    ));
                }
            }
            col = col + 1;
        }
        proof {
            assert forall|k: int| 0 <= k < len implies #[trigger] frame@[k] == byte_partial(
                orig[k],
                k,
                len,
                x as int,
                y as int,
                w as int,
                h as int,
                shape,
                color,
                row + 1,
                0,
            ) by {
                assert(frame@[k] == byte_partial(
                    orig[k],
                    k,
                    len,
                    x as int,
                    y as int,
                    w as int,
                    h as int,
                    shape,
                    color,
                    row as int,
                    w as int,
                ));
            }
        }
        row = row + 1;
    }
    proof {
        assert(frame@ =~= after_fill(orig, x as int, y as int, w as int, h as int, shape, color));
    }
}

/// Whether `ch` has a glyph: the printable ASCII characters.
pub open spec fn printable(ch: char) -> bool {
    32 <= ch as u32 <= 126
}

/// The frame after `ch` is drawn with its top left corner at `x`, `y`; a character
/// without a glyph draws nothing.
pub open spec fn after_char(
    frame: Seq<u8>,
    font: Seq<[u8; 8]>,
    x: int,
    y: int,
    ch: char,
    color: [u8; 3],
) -> Seq<u8> {
    if printable(ch) {
        after_fill(frame, x, y, 8, 8, Some(font[ch as u32 - 32]), color)
    } else {
        frame
    }
}

/// Draws the character `ch` with the glyphs of `font` (`font[i]` is the glyph of the
/// character with code `32 + i`), its top left corner at `x`, `y`.
pub fn draw_char(frame: &mut [u8], font: &[[u8; 8]], x: usize, y: usize, ch: char, color: [u8; 3])
    requires
        font@.len() == GLYPH_COUNT,
        printable(ch) ==> x + 7 <= usize::MAX && y + 7 <= usize::MAX,
    ensures
        final(frame)@ == after_char(old(frame)@, font@, x as int, y as int, ch, color),
{
    let code = ch as u32;
    if code < 32 || code > 126 {
        return ;
    }
    let glyph = font[(code - 32) as usize];
    fill(frame, x, y, 8, 8, Some(glyph), color);
}

/// Byte `j` (red, green, blue, opacity) of the pixel at `px`, `py` of a frame.
pub open spec fn pixel_byte(frame: Seq<u8>, px: int, py: int, j: int) -> u8 {
    frame[(py * (WIDTH as int) + px) * 4 + j]
}

proof fn lemma_byte_position(px: int, py: int, j: int)
    requires
        0 <= px < WIDTH,
        0 <= py,
        0 <= j < 4,
    ensures
        ((py * (WIDTH as int) + px) * 4 + j) / 4 == py * (WIDTH as int) + px,
        ((py * (WIDTH as int) + px) * 4 + j) % 4 == j,
        (py * (WIDTH as int) + px) % (WIDTH as int) == px,
        (py * (WIDTH as int) + px) / (WIDTH as int) == py,
{
    let p = py * 800 + px;
    assert((p * 4 + j) / 4 == p && (p * 4 + j) % 4 == j) by (nonlinear_arith)
        requires
            0 <= p,
            0 <= j < 4,
    ;
    lemma_pixel_position(p, px, py);
}

/// Drawing a printable character `ch` at `x`, `y` paints the pixel at column `col`
/// and row `row` of its 8 by 8 box exactly where bit `7 - col` of row `row` of the
/// glyph `font[ch - 32]` is set: there its bytes become the color's red, green and
/// blue and full opacity, elsewhere they keep their value.  (This holds for every
/// pixel of the box that lies in the frame.)  Bytes outside the box never change, nor
/// does the frame's length, and a character without a glyph changes nothing.
pub proof fn lemma_char_pixels(
    frame: Seq<u8>,
    font: Seq<[u8; 8]>,
    x: int,
    y: int,
    ch: char,
    color: [u8; 3],
)
    requires
        font.len() == GLYPH_COUNT,
        0 <= x,
        0 <= y,
    ensures
        after_char(frame, font, x, y, ch, color).len() == frame.len(),
        !printable(ch) ==> after_char(frame, font, x, y, ch, color) == frame,
        printable(ch) ==> forall|row: int, col: int, j: int|
            0 <= row < 8 && 0 <= col < 8 && 0 <= j < 4 && x + col < WIDTH && y + row < HEIGHT
                && ((y + row) * (WIDTH as int) + x + col) * 4 + 3 < frame.len() ==> #[trigger]
            pixel_byte(after_char(frame, font, x, y, ch, color), x + col, y + row, j) == if (font[ch
                as u32 - 32][row] >> ((7 - col) as u8)) & 1u8 == 1u8 {
                if j == 3 {
                    255u8
                } else {
                    color[j]
                }
            } else {
                pixel_byte(frame, x + col, y + row, j)
            },
        forall|k: int|
            0 <= k < frame.len() && !(x <= (k / 4) % (WIDTH as int) < x + 8 && y <= (k / 4) / (
            WIDTH as int) < y + 8) ==> #[trigger] after_char(frame, font, x, y, ch, color)[k]
                == frame[k],
{
    if printable(ch) {
        let after = after_char(frame, font, x, y, ch, color);
        assert forall|row: int, col: int, j: int|
            0 <= row < 8 && 0 <= col < 8 && 0 <= j < 4 && x + col < WIDTH && y + row < HEIGHT
                && ((y + row) * (WIDTH as int) + x + col) * 4 + 3 < frame.len() implies #[trigger]
            pixel_byte(after, x + col, y + row, j) == if (font[ch as u32 - 32][row] >> ((7
                - col) as u8)) & 1u8 == 1u8 {
                if j == 3 {
                    255u8
                } else {
                    color[j]
                }
            } else {
                pixel_byte(frame, x + col, y + row, j)
            } by {
            let px = x + col;
            let py = y + row;
            lemma_byte_position(px, py, j);
            let k = (py * (WIDTH as int) + px) * 4 + j;
            assert(0 <= k) by (nonlinear_arith)
                requires
                    0 <= px,
                    0 <= py,
                    0 <= j,
                    k == (py * 800 + px) * 4 + j,
            ;
            assert(k <= ((y + row) * (WIDTH as int) + x + col) * 4 + 3);
            assert(after[k] == byte_after(frame[k], k, frame.len() as int, x, y, 8, 8, Some(font[ch as u32 - 32]), color));
        }
    }
}

/// The frame after `text` is drawn from `x`, `y` on: each character one advance to the
/// right of the one before; a line break draws nothing and takes no room.
pub open spec fn after_string(
    frame: Seq<u8>,
    font: Seq<[u8; 8]>,
    x: int,
    y: int,
    text: Seq<char>,
    color: [u8; 3],
) -> Seq<u8>
    decreases text.len(),
{
    if text.len() == 0 {
        frame
    } else if text[0] == '\n' {
        after_string(frame, font, x, y, text.drop_first(), color)
    } else {
        after_string(
            after_char(frame, font, x, y, text[0], color),
            font,
            x + CHAR_ADVANCE,
            y,
            text.drop_first(),
            color,
        )
    }
}

/// Draws `text` from `x`, `y` on.
pub fn draw_string(frame: &mut [u8], font: &[[u8; 8]], x: usize, y: usize, text: &str, color: [u8; 3])
    requires
        font@.len() == GLYPH_COUNT,
        x + CHAR_ADVANCE * text@.len() <= usize::MAX,
        y + 7 <= usize::MAX,
    ensures
        final(frame)@ == after_string(old(frame)@, font@, x as int, y as int, text@, color),
{
    let ghost goal = after_string(frame@, font@, x as int, y as int, text@, color);
    let n = text.unicode_len();
    let mut cx = x;
    let mut i: usize = 0;
    assert(text@.skip(0) =~= text@);
    while i < n
        invariant
            i <= n,
            n == text@.len(),
            font@.len() == GLYPH_COUNT,
            cx + CHAR_ADVANCE * (n - i) <= usize::MAX,
            y + 7 <= usize::MAX,
            goal == after_string(frame@, font@, cx as int, y as int, text@.skip(i as int), color),
        decreases n - i,
    {
        let ch = text.get_char(i);
        proof {
            assert(text@.skip(i as int)[0] == ch);
            assert(text@.skip(i as int).drop_first() =~= text@.skip(i + 1));
        }
        if ch == '\n' {
            i = i + 1;
            continue;
        }
        draw_char(frame, font, cx, y, ch, color);
        cx = cx + CHAR_ADVANCE;
        i = i + 1;
    }
    assert(text@.skip(n as int) =~= Seq::<char>::empty());
}

/// Paints a `w` by `h` rectangle with its top left corner at `x`, `y`; what falls
/// outside the frame is cut off.
pub fn draw_rect(frame: &mut [u8], x: usize, y: usize, w: usize, h: usize, color: [u8; 3])
    requires
        y + h <= usize::MAX,
        h > 0 ==> x + w <= usize::MAX,
    ensures
        final(frame)@ == after_fill(old(frame)@, x as int, y as int, w as int, h as int, None, color),
{
    fill(frame, x, y, w, h, None, color);
}

/// Painting a rectangle sets every pixel of it that lies in the frame to the color,
/// with full opacity, and leaves every byte outside it as it was.
pub proof fn lemma_rect_pixels(frame: Seq<u8>, x: int, y: int, w: int, h: int, color: [u8; 3])
    requires
        0 <= x,
        0 <= y,
    ensures
        after_fill(frame, x, y, w, h, None, color).len() == frame.len(),
        forall|px: int, py: int, j: int|
            x <= px < x + w && y <= py < y + h && px < WIDTH && py < HEIGHT && 0 <= j < 4 && (py
                * (WIDTH as int) + px) * 4 + 3 < frame.len() ==> #[trigger] pixel_byte(
                after_fill(frame, x, y, w, h, None, color),
                px,
                py,
                j,
            ) == if j == 3 {
                255u8
            } else {
                color[j]
            },
        forall|k: int|
            0 <= k < frame.len() && !(x <= (k / 4) % (WIDTH as int) < x + w && y <= (k / 4) / (
            WIDTH as int) < y + h) ==> #[trigger] after_fill(frame, x, y, w, h, None, color)[k]
                == frame[k],
{
    let after = after_fill(frame, x, y, w, h, None, color);
    assert forall|px: int, py: int, j: int|
        x <= px < x + w && y <= py < y + h && px < WIDTH && py < HEIGHT && 0 <= j < 4 && (py
            * (WIDTH as int) + px) * 4 + 3 < frame.len() implies #[trigger] pixel_byte(
            after,
            px,
            py,
            j,
        ) == if j == 3 {
            255u8
        } else {
            color[j]
        } by {
        lemma_byte_position(px, py, j);
        let k = (py * (WIDTH as int) + px) * 4 + j;
        assert(0 <= k) by (nonlinear_arith)
            requires
                0 <= px,
                0 <= py,
                0 <= j,
                k == (py * 800 + px) * 4 + j,
        ;
        assert(after[k] == byte_after(frame[k], k, frame.len() as int, x, y, w, h, None, color));
    }
}

/// Blanks the whole frame.
pub fn clear(frame: &mut [u8])
    ensures
        final(frame)@ == Seq::new(old(frame)@.len(), |k: int| 0u8),
{
    let len = frame.len();
    let mut i: usize = 0;
    while i < len
        invariant
            i <= len,
            frame@.len() == len,
            forall|k: int| 0 <= k < i ==> #[trigger] frame@[k] == 0u8,
        decreases len - i,
    {
        frame[i] = 0;
        i = i + 1;
    }
    assert(frame@ =~= Seq::new(len as nat, |k: int| 0u8));
}

/// One drawing step of a screen.
#[derive(Debug, Clone)]
pub enum DrawOp {
    Text { x: usize, y: usize, text: String, color: [u8; 3] },
    Rect { x: usize, y: usize, w: usize, h: usize, color: [u8; 3] },
}

/// A drawing step with its text as characters.
pub enum DrawOpView {
    Text { x: usize, y: usize, text: Seq<char>, color: [u8; 3] },
    Rect { x: usize, y: usize, w: usize, h: usize, color: [u8; 3] },
}

pub open spec fn op_view(op: DrawOp) -> DrawOpView {
    match op {
        DrawOp::Text { x, y, text, color } => DrawOpView::Text { x, y, text: text@, color },
        DrawOp::Rect { x, y, w, h, color } => DrawOpView::Rect { x, y, w, h, color },
    }
}

/// The drawing steps, with their texts as characters.
pub open spec fn op_views(ops: Seq<DrawOp>) -> Seq<DrawOpView> {
    ops.map_values(|op: DrawOp| op_view(op))
}

/// Whether a step can be drawn without its coordinates overflowing.
pub open spec fn op_fits(op: DrawOpView) -> bool {
    match op {
        DrawOpView::Text { x, y, text, .. } => x + CHAR_ADVANCE * text.len() <= usize::MAX && y
            + 7 <= usize::MAX,
        DrawOpView::Rect { x, y, w, h, .. } => y + h <= usize::MAX && (h > 0 ==> x + w
            <= usize::MAX),
    }
}

/// The frame after one step.
pub open spec fn after_op(frame: Seq<u8>, font: Seq<[u8; 8]>, op: DrawOpView) -> Seq<u8> {
    match op {
        DrawOpView::Text { x, y, text, color } => after_string(
            frame,
            font,
            x as int,
            y as int,
            text,
            color,
        ),
        DrawOpView::Rect { x, y, w, h, color } => after_fill(
            frame,
            x as int,
            y as int,
            w as int,
            h as int,
            None,
            color,
        ),
    }
}

/// The frame after all steps, in order.
pub open spec fn after_ops(frame: Seq<u8>, font: Seq<[u8; 8]>, ops: Seq<DrawOpView>) -> Seq<u8>
    decreases ops.len(),
{
    if ops.len() == 0 {
        frame
    } else {
        after_op(after_ops(frame, font, ops.drop_last()), font, ops.last())
    }
}

/// Appends a text step.
pub fn push_text(ops: &mut Vec<DrawOp>, x: usize, y: usize, text: String, color: [u8; 3])
    ensures
        op_views(final(ops)@) == op_views(old(ops)@) + seq![
            DrawOpView::Text { x, y, text: text@, color },
        ],
{
    let ghost before = ops@;
    ops.push(DrawOp::Text { x, y, text, color });
    assert(op_views(ops@) =~= op_views(before) + seq![DrawOpView::Text { x, y, text: text@, color }]);
}

/// Appends a rectangle step.
pub fn push_rect(ops: &mut Vec<DrawOp>, x: usize, y: usize, w: usize, h: usize, color: [u8; 3])
    ensures
        op_views(final(ops)@) == op_views(old(ops)@) + seq![DrawOpView::Rect { x, y, w, h, color }],
{
    let ghost before = ops@;
    ops.push(DrawOp::Rect { x, y, w, h, color });
    assert(op_views(ops@) =~= op_views(before) + seq![DrawOpView::Rect { x, y, w, h, color }]);
}

proof fn lemma_room_for(n: int, room: int)
    requires
        0 <= n,
        0 <= room,
    ensures
        n <= room / 9 <==> 9 * n <= room,
{
    assert(n <= room / 9 <==> 9 * n <= room) by (nonlinear_arith)
        requires
            0 <= n,
            0 <= room,
    ;
}

/// Whether every step can be drawn without its coordinates overflowing.
pub fn ops_fit(ops: &Vec<DrawOp>) -> (r: bool)
    ensures
        r == forall|i: int| 0 <= i < ops@.len() ==> #[trigger] op_fits(op_views(ops@)[i]),
{
    let mut i: usize = 0;
    while i < ops.len()
        invariant
            i <= ops.len(),
            forall|k: int| 0 <= k < i ==> #[trigger] op_fits(op_views(ops@)[k]),
        decreases ops.len() - i,
    {
        let ok = match &ops[i] {
            DrawOp::Text { x, y, text, .. } => {
                let n = text.as_str().unicode_len();
                proof {
                    lemma_room_for(n as int, (usize::MAX - *x) as int);
                }
                let r = *y <= usize::MAX - 7 && n <= (usize::MAX - *x) / CHAR_ADVANCE;
                assert(r == op_fits(op_view(ops@[i as int])));
                r
            },
            DrawOp::Rect { x, y, w, h, .. } => {
                let r = *h <= usize::MAX - *y && (*h == 0 || *w <= usize::MAX - *x);
                assert(r == op_fits(op_view(ops@[i as int])));
                r
            },
        };
        proof {
            assert(op_views(ops@)[i as int] == op_view(ops@[i as int]));
        }
        if !ok {
            return false;
        }
        i = i + 1;
    }
    true
}

/// Performs the steps, in order.
pub fn paint_ops(frame: &mut [u8], font: &[[u8; 8]], ops: &Vec<DrawOp>)
    requires
        font@.len() == GLYPH_COUNT,
        forall|i: int| 0 <= i < ops@.len() ==> #[trigger] op_fits(op_views(ops@)[i]),
    ensures
        final(frame)@ == after_ops(old(frame)@, font@, op_views(ops@)),
{
    let ghost orig = frame@;
    let mut i: usize = 0;
    while i < ops.len()
        invariant
            i <= ops.len(),
            font@.len() == GLYPH_COUNT,
            forall|k: int| 0 <= k < ops@.len() ==> #[trigger] op_fits(op_views(ops@)[k]),
            frame@ == after_ops(orig, font@, op_views(ops@).take(i as int)),
        decreases ops.len() - i,
    {
        proof {
            assert(op_views(ops@).take(i + 1).drop_last() =~= op_views(ops@).take(i as int));
            assert(op_views(ops@)[i as int] == op_view(ops@[i as int]));
            assert(op_fits(op_views(ops@)[i as int]));
        }
        match &ops[i] {
            DrawOp::Text { x, y, text, color } => draw_string(frame, font, *x, *y, text.as_str(), *color),
            DrawOp::Rect { x, y, w, h, color } => draw_rect(frame, *x, *y, *w, *h, *color),
        }
        i = i + 1;
    }
    assert(op_views(ops@).take(ops@.len() as int) =~= op_views(ops@));
}

} // verus!
