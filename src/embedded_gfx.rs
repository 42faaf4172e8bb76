use crate::launchpad::{valid_button, Button, ButtonStyle, Buttons, RgbColor, GRID_HEIGHT, GRID_WIDTH};
use embedded_graphics::mock_display::MockDisplay;
use embedded_graphics::mono_font::ascii::FONT_4X6;
use embedded_graphics::mono_font::MonoTextStyle;
use embedded_graphics::pixelcolor::BinaryColor;
use embedded_graphics::prelude::Point;
use embedded_graphics::text::{Baseline, Text};
use embedded_graphics::Drawable;
use vstd::arithmetic::div_mod::{
    lemma_fundamental_div_mod, lemma_fundamental_div_mod_converse, lemma_mod_bound,
};
use vstd::prelude::*;

verus! {

/// Height in pixels of a line of text.
pub const TEXT_HEIGHT: u32 = 6;

/// Ticks that a text rests at either end of its scroll.
pub const WAIT_MARGIN: u64 = 10;

/// Longest text, in characters, that is drawn: its pixel coordinates must fit in an `i32`.
pub const MAX_TEXT_CHARS: usize = 100_000_000;

/// Whether pixel `(x, y)` is lit when `text` is drawn in the 4x6 font with its top left corner
/// at `(x_shift, 0)`.
pub uninterp spec fn glyph_lit(text: Seq<char>, x_shift: int, x: int, y: int) -> bool;

/// Relies on embedded-graphics: `Text::with_baseline` in `FONT_4X6` with a top baseline,
/// drawn on a `MockDisplay`, and `MockDisplay::get_pixel`, which panics outside 64x64.
/// Drawing advances the pen by 4 pixels a character in `i32` arithmetic, so the pen's last
/// position must fit in an `i32`.
#[verifier::external_body]
fn text_pixel(text: &str, x_shift: i32, x: i32, y: i32) -> (lit: bool)
    requires
        0 <= x < 64,
        0 <= y < 64,
        text@.len() <= MAX_TEXT_CHARS,
        x_shift + 4 * text@.len() <= i32::MAX,
    ensures
        lit == glyph_lit(text@, x_shift as int, x as int, y as int),
{
    let mut display: MockDisplay<BinaryColor> = MockDisplay::new();
    display.set_allow_out_of_bounds_drawing(true);
    display.set_allow_overdraw(true);
    let style = MonoTextStyle::new(&FONT_4X6, BinaryColor::On);
    let _ = Text::with_baseline(text, Point::new(x_shift, 0), style, Baseline::Top).draw(
        &mut display,
    );
    display.get_pixel(Point::new(x, y)) == Some(BinaryColor::On)
}

/// Width in pixels of a text in the 4x6 font.
pub fn text_width(text: &str) -> (w: usize)
    requires
        4 * text@.len() <= usize::MAX,
    ensures
        w == 4 * text@.len(),
{
    text.unicode_len() * 4
}

/// How far a text whose hidden part is `invisible` pixels wide is shifted left after
/// `counter` ticks: it rests, scrolls left one pixel a tick, and on every second cycle runs
/// the same way backwards.
pub open spec fn scroll_offset(counter: int, invisible: int) -> int {
    let cycle = invisible + WAIT_MARGIN;
    let raw = counter % cycle;
    let forward = if raw - WAIT_MARGIN > 0 { raw - WAIT_MARGIN } else { 0 };
    if (counter / cycle) % 2 == 1 {
        invisible - forward
    } else {
        forward
    }
}

/// The left shift of a text at tick `counter`; see `scroll_offset`.
pub fn text_scroll_offset(counter: u64, invisible: u64) -> (offset: u64)
    requires
        invisible <= u64::MAX - WAIT_MARGIN,
    ensures
        offset == scroll_offset(counter as int, invisible as int),
        offset <= invisible,
{
    let cycle = invisible + WAIT_MARGIN;
    let raw = counter % cycle;
    let forward = if raw > WAIT_MARGIN {
        raw - WAIT_MARGIN
    } else {
        0
    };
    if (counter / cycle) % 2 == 1 {
        invisible - forward
    } else {
        forward
    }
}

/// A text never moves where it fits, rests at the start of every even cycle, and each cycle
/// runs the one before it backwards.
pub proof fn lemma_scroll_offset_cycle(counter: int, invisible: int, n: int)
    requires
        counter >= 0,
        invisible >= 0,
        n >= 0,
    ensures
        scroll_offset(0, invisible) == 0,
        invisible == 0 ==> scroll_offset(counter, invisible) == 0,
        scroll_offset(2 * n * (invisible + WAIT_MARGIN), invisible) == 0,
        scroll_offset(counter + invisible + WAIT_MARGIN, invisible) == invisible - scroll_offset(
            counter,
            invisible,
        ),
{
    let c = invisible + WAIT_MARGIN;
    assert(0int % c == 0 && 0int / c == 0) by (nonlinear_arith)
        requires
            c > 0,
    ;
    lemma_fundamental_div_mod_converse(2 * n * c, c, 2 * n, 0);
    lemma_fundamental_div_mod(counter, c);
    lemma_mod_bound(counter, c);
    assert((counter / c + 1) * c == c * (counter / c) + c) by (nonlinear_arith);
    lemma_fundamental_div_mod_converse(counter + c, c, counter / c + 1, counter % c);
    assert((2 * n) % 2 == 0);
    assert((counter / c + 1) % 2 == 1 <==> (counter / c) % 2 != 1);
}

/// The part of the pad that a text is drawn into: its origin in pad space and its size in
/// pixels. Pixels outside it, or off the playable grid, are dropped.
pub struct PadTarget {
    pub origin: (i64, i64),
    pub size: (u32, u32),
}

impl PadTarget {
    pub fn new(origin: (i64, i64), size: (u32, u32)) -> (r: PadTarget)
        ensures
            r.origin == origin,
            r.size == size,
    {
        PadTarget { origin, size }
    }
}

/// Button `b` is a pixel of a target, among the first `rows` rows and the first `cols`
/// pixels of row `rows`, and is lit when `text` is drawn there: `b` is on the playable grid,
/// and its pixel is `(b.x - origin.0, b.y - origin.1)`.
pub open spec fn text_covers_upto(
    text: Seq<char>,
    origin: (i64, i64),
    size: (u32, u32),
    x_shift: int,
    rows: int,
    cols: int,
    b: Button,
) -> bool {
    match b {
        Button::GridButton { x, y } => {
            let px = x - origin.0;
            let py = y - origin.1;
            &&& x < GRID_WIDTH && y < GRID_HEIGHT
            &&& 0 <= px < size.0 && 0 <= py < size.1
            &&& py < rows || (py == rows && px < cols)
            &&& glyph_lit(text, x_shift, px, py)
        },
        Button::ControlButton { .. } => false,
    }
}

/// Button `b` is a lit pixel of `text` drawn into a target.
pub open spec fn text_covers(
    text: Seq<char>,
    origin: (i64, i64),
    size: (u32, u32),
    x_shift: int,
    b: Button,
) -> bool {
    text_covers_upto(text, origin, size, x_shift, size.1 as int, 0, b)
}

/// `m` with the buttons of `cells` set to `s`.
pub open spec fn paint(
    m: Map<Button, ButtonStyle>,
    cells: spec_fn(Button) -> bool,
    s: ButtonStyle,
) -> Map<Button, ButtonStyle> {
    Map::new(
        |b: Button| m.contains_key(b) || (valid_button(b) && cells(b)),
        |b: Button|
            if valid_button(b) && cells(b) {
                s
            } else {
                m[b]
            },
    )
}

/// Painting one more cell is an insert of that cell.
pub proof fn lemma_paint_extend(
    m: Map<Button, ButtonStyle>,
    f1: spec_fn(Button) -> bool,
    f2: spec_fn(Button) -> bool,
    here: Button,
    lit: bool,
    s: ButtonStyle,
)
    requires
        forall|b: Button| #[trigger] f2(b) == (f1(b) || (lit && b == here)),
        lit ==> valid_button(here),
    ensures
        paint(m, f2, s) == if lit {
            paint(m, f1, s).insert(here, s)
        } else {
            paint(m, f1, s)
        },
{
    if lit {
        assert(paint(m, f2, s) =~= paint(m, f1, s).insert(here, s));
    } else {
        assert(paint(m, f2, s) =~= paint(m, f1, s));
    }
}

/// Draws `text` into a target of `buttons`, shifted `x_shift` pixels, in `color`.
pub fn draw_text(
    buttons: &mut Buttons,
    text: &str,
    origin: (i64, i64),
    size: (u32, u32),
    x_shift: i32,
    color: RgbColor,
)
    requires
        old(buttons).wf(),
        size.0 <= 8,
        size.1 <= 8,
        text@.len() <= MAX_TEXT_CHARS,
        x_shift + 4 * text@.len() <= i32::MAX,
    ensures
        final(buttons).wf(),
        final(buttons)@ == paint(
            old(buttons)@,
            |b: Button| text_covers(text@, origin, size, x_shift as int, b),
            ButtonStyle::Rgb(color),
        ),
{
    let target = PadTarget::new(origin, size);
    let ghost start = buttons@;
    let ghost style = ButtonStyle::Rgb(color);
    let mut py: u32 = 0;
    while py < target.size.1
        invariant
            target.origin == origin,
            target.size == size,
            style == ButtonStyle::Rgb(color),
            size.0 <= 8,
            size.1 <= 8,
            text@.len() <= MAX_TEXT_CHARS,
            x_shift + 4 * text@.len() <= i32::MAX,
            py <= size.1,
            buttons.wf(),
            buttons@ == paint(
                start,
                |b: Button| text_covers_upto(text@, origin, size, x_shift as int, py as int, 0, b),
                style,
            ),
        decreases size.1 - py,
    {
        let mut px: u32 = 0;
        while px < target.size.0
            invariant
                target.origin == origin,
                target.size == size,
                style == ButtonStyle::Rgb(color),
                size.0 <= 8,
                size.1 <= 8,
                text@.len() <= MAX_TEXT_CHARS,
                x_shift + 4 * text@.len() <= i32::MAX,
                py < size.1,
                px <= size.0,
                buttons.wf(),
                buttons@ == paint(
                    start,
                    |b: Button|
                        text_covers_upto(
                            text@,
                            origin,
                            size,
                            x_shift as int,
                            py as int,
                            px as int,
                            b,
                        ),
                    style,
                ),
            decreases size.0 - px,
        {
            let x = target.origin.0 as i128 + px as i128;
            let y = target.origin.1 as i128 + py as i128;
            let ghost here = Button::GridButton { x: #[verifier::truncate] (x as u8), y: #[verifier::truncate] (y as u8) };
            let ghost before = buttons@;
            let ghost lit_here = 0 <= x < GRID_WIDTH && 0 <= y < GRID_HEIGHT && glyph_lit(
                text@,
                x_shift as int,
                px as int,
                py as int,
            );
            if 0 <= x && x < GRID_WIDTH as i128 && 0 <= y && y < GRID_HEIGHT as i128 {
                if text_pixel(text, x_shift, px as i32, py as i32) {
                    buttons.insert(Button::grid(x as u8, y as u8), ButtonStyle::Rgb(color));
                }
            }
            assert(buttons@ == if lit_here {
                before.insert(here, style)
            } else {
                before
            });
            px += 1;
        }
        assert(buttons@ =~= paint(
            start,
            |b: Button| text_covers_upto(text@, origin, size, x_shift as int, py + 1, 0, b),
            style,
        ));
        py += 1;
    }
    assert(buttons@ =~= paint(
        start,
        |b: Button| text_covers(text@, origin, size, x_shift as int, b),
        style,
    ));
}

} // verus!
