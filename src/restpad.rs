use crate::colors::{quantized, rgb_to_palette};
use crate::embedded_gfx::{
    draw_text, lemma_paint_extend, paint, scroll_offset, text_covers, text_scroll_offset, text_width, MAX_TEXT_CHARS,
    TEXT_HEIGHT,
};
use crate::launchpad::{
    valid_button, Button, ButtonStyle, Buttons, InputMessage, PaletteColor, RgbColor, BLACK,
    DARK_GRAY, DOWN, GRID_HEIGHT, GRID_WIDTH, LEFT, MIXER, RED, RIGHT, UP, WHITE, YELLOW,
};
use crate::navigator::{NavModel, Navigator};
use crate::payload::{Action, ButtonSpec, Payload, Style, TextSpec};
use crate::preferences::Preferences;
use vstd::prelude::*;

verus! {

/// Rows of the scroll bar between its two arrow cells that the thumb moves over, less one.
pub const THUMB_TRAVEL: u64 = 5;

/// A control button by its index.
pub open spec fn ctrl(index: u8) -> Button {
    Button::ControlButton { index }
}

/// The cell of the scroll bar column at row `y`.
pub open spec fn bar_cell(y: u8) -> Button {
    Button::GridButton { x: GRID_WIDTH, y }
}

pub open spec fn palette_style(id: u8) -> ButtonStyle {
    ButtonStyle::Palette(PaletteColor(id))
}

/// A control is lit in its accent color while pressed, white while it can act, else off.
pub open spec fn control_style(pressed: bool, enabled: bool, accent: u8) -> ButtonStyle {
    palette_style(
        if pressed {
            accent
        } else if enabled {
            WHITE
        } else {
            BLACK
        },
    )
}

/// The brightness and navigation controls.
pub open spec fn control_layer(pressed: Set<Button>, brightness: u8, nav: NavModel) -> Map<
    Button,
    ButtonStyle,
> {
    Map::<Button, ButtonStyle>::empty().insert(
        ctrl(UP),
        control_style(pressed.contains(ctrl(UP)), brightness < 8, RED),
    ).insert(ctrl(DOWN), control_style(pressed.contains(ctrl(DOWN)), brightness > 0, RED)).insert(
        ctrl(LEFT),
        control_style(pressed.contains(ctrl(LEFT)), nav.has_history(), YELLOW),
    ).insert(
        ctrl(RIGHT),
        control_style(pressed.contains(ctrl(RIGHT)), nav.has_future(), YELLOW),
    ).insert(ctrl(MIXER), control_style(pressed.contains(ctrl(MIXER)), true, YELLOW))
}

/// Row of the scroll bar thumb.
pub open spec fn thumb_row(scroll: int, height: int) -> int {
    1 + scroll * THUMB_TRAVEL / height
}

/// The scroll bar, drawn only where the page is taller than the grid.
pub open spec fn scrollbar_layer(
    m: Map<Button, ButtonStyle>,
    pressed: Set<Button>,
    scroll: int,
    height: int,
) -> Map<Button, ButtonStyle> {
    if height > 0 {
        let arrows = m.insert(
            bar_cell(0),
            control_style(pressed.contains(bar_cell(0)), true, YELLOW),
        ).insert(
            bar_cell((GRID_HEIGHT - 1) as u8),
            control_style(pressed.contains(bar_cell((GRID_HEIGHT - 1) as u8)), true, YELLOW),
        );
        let row = thumb_row(scroll, height);
        if row < GRID_HEIGHT {
            arrows.insert(bar_cell(row as u8), palette_style(DARK_GRAY))
        } else {
            arrows
        }
    } else {
        m
    }
}

/// Width of a button in cells: a missing or zero width counts as one.
pub open spec fn span_width(bs: ButtonSpec) -> int {
    match bs.width {
        Some(w) => if w >= 1 {
            w as int
        } else {
            1
        },
        None => 1,
    }
}

/// Cell `b` shows part of button `bs` when the page is scrolled down `scroll` rows: the cells
/// of its span that fall on the playable grid.
pub open spec fn in_span(bs: ButtonSpec, scroll: int, b: Button) -> bool {
    match b {
        Button::GridButton { x, y } => {
            &&& bs.x <= x < bs.x + span_width(bs)
            &&& x < GRID_WIDTH
            &&& 0 <= bs.y - scroll < GRID_HEIGHT
            &&& y == bs.y - scroll
        },
        Button::ControlButton { .. } => false,
    }
}

/// Some cell of the button is held down.
pub open spec fn span_pressed(bs: ButtonSpec, scroll: int, pressed: Set<Button>) -> bool {
    exists|b: Button| #[trigger] in_span(bs, scroll, b) && pressed.contains(b)
}

/// The style a page declares for a button.
pub open spec fn declared_style(bs: ButtonSpec) -> ButtonStyle {
    match bs.style {
        Style::Plain => ButtonStyle::Rgb(bs.color),
        Style::Pulse => ButtonStyle::Pulse(PaletteColor(quantized(bs.color))),
        Style::Flash(second) => ButtonStyle::Flash(
            PaletteColor(quantized(bs.color)),
            PaletteColor(
                quantized(
                    match second {
                        Some(c) => c,
                        None => RgbColor { r: 0, g: 0, b: 0 },
                    },
                ),
            ),
        ),
    }
}

/// The style of a button: its press color (or the page's) while held down, else its own.
pub open spec fn shown_style(
    bs: ButtonSpec,
    default_press: Option<RgbColor>,
    is_pressed: bool,
) -> ButtonStyle {
    let press = match bs.press_color {
        Some(c) => Some(c),
        None => default_press,
    };
    match press {
        Some(c) => if is_pressed {
            ButtonStyle::Rgb(c)
        } else {
            declared_style(bs)
        },
        None => declared_style(bs),
    }
}

/// `m` with the buttons of `specs` drawn over it in order.
pub open spec fn buttons_layer(
    m: Map<Button, ButtonStyle>,
    specs: Seq<ButtonSpec>,
    default_press: Option<RgbColor>,
    scroll: int,
    pressed: Set<Button>,
) -> Map<Button, ButtonStyle>
    decreases specs.len(),
{
    if specs.len() == 0 {
        m
    } else {
        let bs = specs.last();
        paint(
            buttons_layer(m, specs.drop_last(), default_press, scroll, pressed),
            |b: Button| in_span(bs, scroll, b),
            shown_style(bs, default_press, span_pressed(bs, scroll, pressed)),
        )
    }
}

/// Width in pixels of the box a text is drawn into.
pub open spec fn text_box_width(t: TextSpec) -> int {
    if t.x >= GRID_WIDTH {
        0
    } else {
        let room = GRID_WIDTH - t.x;
        match t.width {
            Some(w) => if w < room {
                w as int
            } else {
                room
            },
            None => room,
        }
    }
}

/// Width in pixels of the part of a text that does not fit its box.
pub open spec fn invisible_width(t: TextSpec) -> int {
    let w = 4 * t.text@.len() - text_box_width(t);
    if w > 0 {
        w
    } else {
        0
    }
}

/// Button `b` is a lit pixel of text `t` at tick `counter`, scrolled down `scroll` rows.
pub open spec fn text_lit_at(t: TextSpec, counter: int, scroll: int, b: Button) -> bool {
    text_covers(
        t.text@,
        (t.x as i64, (t.y - scroll) as i64),
        (text_box_width(t) as u32, TEXT_HEIGHT),
        -scroll_offset(counter, invisible_width(t)),
        b,
    )
}

/// `m` with the texts of `texts` drawn over it in order; a text too long for the
/// rasterizer's coordinates is not drawn.
pub open spec fn texts_layer(
    m: Map<Button, ButtonStyle>,
    texts: Seq<TextSpec>,
    counter: int,
    scroll: int,
) -> Map<Button, ButtonStyle>
    decreases texts.len(),
{
    if texts.len() == 0 {
        m
    } else {
        let t = texts.last();
        let below = texts_layer(m, texts.drop_last(), counter, scroll);
        if t.text@.len() > MAX_TEXT_CHARS {
            below
        } else {
            paint(below, |b: Button| text_lit_at(t, counter, scroll, b), ButtonStyle::Rgb(t.color))
        }
    }
}

/// Lowest row that any button or text of the page reaches.
pub open spec fn y_max_buttons(specs: Seq<ButtonSpec>) -> int
    decreases specs.len(),
{
    if specs.len() == 0 {
        0
    } else {
        let rest = y_max_buttons(specs.drop_last());
        if specs.last().y > rest {
            specs.last().y as int
        } else {
            rest
        }
    }
}

pub open spec fn y_max_texts(texts: Seq<TextSpec>) -> int
    decreases texts.len(),
{
    if texts.len() == 0 {
        0
    } else {
        let rest = y_max_texts(texts.drop_last());
        if texts.last().y + TEXT_HEIGHT > rest {
            texts.last().y + TEXT_HEIGHT
        } else {
            rest
        }
    }
}

pub open spec fn page_y_max(p: Payload) -> int {
    let b = y_max_buttons(p.buttons@);
    let t = y_max_texts(p.text@);
    if b > t {
        b
    } else {
        t
    }
}

/// Rows of the page below the grid, which the scroll bar reaches.
pub open spec fn scrollable_height(page: Option<Payload>) -> int {
    match page {
        Some(p) => if page_y_max(p) + 1 - GRID_HEIGHT > 0 {
            page_y_max(p) + 1 - GRID_HEIGHT
        } else {
            0
        },
        None => 0,
    }
}

/// What the pad shows for a page.
pub open spec fn page_grid(
    p: Payload,
    pressed: Set<Button>,
    brightness: u8,
    nav: NavModel,
    counter: int,
    scroll: int,
) -> Map<Button, ButtonStyle> {
    let h = scrollable_height(Some(p));
    let base = scrollbar_layer(control_layer(pressed, brightness, nav), pressed, scroll, h);
    texts_layer(
        buttons_layer(base, p.buttons@, p.default_press_color, scroll, pressed),
        p.text@,
        counter,
        scroll,
    )
}

/// What the event loop is to do after a device event.
#[derive(Debug, PartialEq, Eq)]
pub enum Command {
    /// Nothing beyond showing the new state.
    Redraw,
    /// The brightness was changed: apply it to the device and store the preferences.
    Brightness,
    /// Load the previous page and record it with `Navigator::back`.
    Back,
    /// Load the next page and record it with `Navigator::forward`.
    Forward,
    /// Load the current location again and record it with `Navigator::refresh`.
    Refresh,
    /// Resolve the reference, load it and record it with `Navigator::navigate`.
    Navigate(String),
    /// Open a system browser at the given URL.
    OpenBrowser(String),
}

/// The state that the pad's event loop owns: settings, navigation, held buttons, the
/// animation tick and the vertical scroll.
pub struct RestPad {
    pub prefs: Preferences,
    pub navigator: Navigator,
    pub pressed_buttons: Vec<Button>,
    pub counter: u64,
    pub y_scroll: u32,
}

/// Number of cells in a button's span on the row it shows on: none while that row is off the
/// grid, and none past the last column a `u8` can name.
pub open spec fn pad_count(bs: ButtonSpec, scroll: int) -> int {
    let row = bs.y - scroll;
    let room = 256 - bs.x;
    if !(0 <= row < GRID_HEIGHT) || room <= 0 {
        0
    } else if span_width(bs) < room {
        span_width(bs)
    } else {
        room
    }
}

/// The cells of a button's span, left to right, when the page is scrolled down `scroll` rows.
pub open spec fn button_pads(bs: ButtonSpec, scroll: int) -> Seq<Button> {
    Seq::new(
        pad_count(bs, scroll) as nat,
        |k: int| Button::GridButton { x: (bs.x + k) as u8, y: (bs.y - scroll) as u8 },
    )
}

/// Releasing cell `b` reaches button `bs`: `b` is a cell of its span on the grid. The scroll bar
/// column counts too, unless the scroll bar is drawn there.
pub open spec fn press_target(bs: ButtonSpec, scroll: int, bar_shown: bool, b: Button) -> bool {
    &&& button_pads(bs, scroll).contains(b)
    &&& b is GridButton
    &&& b->x < if bar_shown {
        GRID_WIDTH as int
    } else {
        GRID_WIDTH + 1
    }
}

/// The first button of `specs` that releasing cell `b` reaches.
pub open spec fn first_button_at(
    specs: Seq<ButtonSpec>,
    scroll: int,
    bar_shown: bool,
    b: Button,
) -> Option<int> {
    if exists|i: int|
        0 <= i < specs.len() && #[trigger] press_target(specs[i], scroll, bar_shown, b)
            && forall|j: int| 0 <= j < i ==> !press_target(#[trigger] specs[j], scroll, bar_shown, b) {
        Some(
            choose|i: int|
                0 <= i < specs.len() && #[trigger] press_target(specs[i], scroll, bar_shown, b)
                    && forall|j: int|
                    0 <= j < i ==> !press_target(#[trigger] specs[j], scroll, bar_shown, b),
        )
    } else {
        None
    }
}

/// What releasing a page button with this action does.
pub open spec fn action_command(a: Option<Action>) -> Command {
    match a {
        Some(Action::Navigate { href }) => Command::Navigate(href),
        Some(Action::Browser { href }) => Command::OpenBrowser(href),
        None => Command::Redraw,
    }
}

proof fn lemma_seq_remove_contains(s: Seq<Button>, i: int, c: Button)
    requires
        s.no_duplicates(),
        0 <= i < s.len(),
    ensures
        s.remove(i).contains(c) == (s.contains(c) && c != s[i]),
        s.remove(i).no_duplicates(),
{
    let r = s.remove(i);
    if s.contains(c) && c != s[i] {
        let k = choose|k: int| 0 <= k < s.len() && s[k] == c;
        if k < i {
            assert(r[k] == c);
        } else {
            assert(r[k - 1] == c);
        }
    }
    if r.contains(c) {
        let k = choose|k: int| 0 <= k < r.len() && r[k] == c;
        if k < i {
            assert(s[k] == c);
        } else {
            assert(s[k + 1] == c);
        }
    }
    assert forall|a: int, b: int| 0 <= a < b < r.len() implies r[a] != r[b] by {
        let a2 = if a < i { a } else { a + 1 };
        let b2 = if b < i { b } else { b + 1 };
        assert(r[a] == s[a2] && r[b] == s[b2]);
    }
}

fn control_color(pressed: bool, enabled: bool, accent: u8) -> (s: ButtonStyle)
    ensures
        s == control_style(pressed, enabled, accent),
{
    let id = if pressed {
        accent
    } else if enabled {
        WHITE
    } else {
        BLACK
    };
    ButtonStyle::Palette(PaletteColor(id))
}

fn span_width_of(bs: &ButtonSpec) -> (w: u64)
    ensures
        w == span_width(*bs),
        1 <= w <= 255,
{
    match bs.width {
        Some(w) => if w >= 1 {
            w as u64
        } else {
            1
        },
        None => 1,
    }
}

/// The style a page declares for a button, with colors quantized where the device style
/// takes a palette index.
pub fn parse_button_style(b: &ButtonSpec) -> (s: ButtonStyle)
    ensures
        s == declared_style(*b),
{
    match b.style {
        Style::Plain => ButtonStyle::Rgb(b.color),
        Style::Pulse => ButtonStyle::Pulse(PaletteColor(rgb_to_palette(b.color))),
        Style::Flash(second) => {
            let c2 = match second {
                Some(c) => c,
                None => RgbColor { r: 0, g: 0, b: 0 },
            };
            ButtonStyle::Flash(
                PaletteColor(rgb_to_palette(b.color)),
                PaletteColor(rgb_to_palette(c2)),
            )
        },
    }
}

impl RestPad {
    /// The buttons held down.
    pub open spec fn pressed(&self) -> Set<Button> {
        Set::new(|b: Button| self.pressed_buttons@.contains(b))
    }

    /// No button is recorded as held down twice.
    pub open spec fn wf(&self) -> bool {
        self.pressed_buttons@.no_duplicates()
    }

    /// Ticks of the text animation since the page was loaded.
    pub open spec fn ticks(&self) -> int {
        self.counter as int
    }

    /// Rows the page is scrolled down.
    pub open spec fn scroll(&self) -> int {
        self.y_scroll as int
    }

    /// The page on show, if any.
    pub open spec fn page(&self) -> Option<Payload> {
        self.navigator.page()
    }

    /// What the pad shows: nothing before a page is loaded.
    pub open spec fn grid(&self) -> Map<Button, ButtonStyle> {
        match self.page() {
            Some(p) => page_grid(
                p,
                self.pressed(),
                self.prefs.brightness,
                self.navigator@,
                self.ticks(),
                self.scroll(),
            ),
            None => Map::empty(),
        }
    }

    /// A pad with nothing held down, at the first tick and unscrolled.
    pub fn new(prefs: Preferences, navigator: Navigator) -> (r: RestPad)
        ensures
            r.wf(),
            r.prefs == prefs,
            r.navigator == navigator,
            r.pressed() == Set::<Button>::empty(),
            r.ticks() == 0,
            r.scroll() == 0,
    {
        let r = RestPad { prefs, navigator, pressed_buttons: Vec::new(), counter: 0, y_scroll: 0 };
        assert(r.pressed() =~= Set::<Button>::empty());
        r
    }

    pub fn counter(&self) -> (c: u64)
        ensures
            c == self.ticks(),
    {
        self.counter
    }

    pub fn y_scroll(&self) -> (s: u32)
        ensures
            s == self.scroll(),
    {
        self.y_scroll
    }

    /// Whether a button is held down.
    pub fn is_pressed(&self, b: &Button) -> (r: bool)
        ensures
            r == self.pressed().contains(*b),
    {
        let mut i: usize = 0;
        while i < self.pressed_buttons.len()
            invariant
                i <= self.pressed_buttons@.len(),
                forall|j: int| 0 <= j < i ==> self.pressed_buttons@[j] != *b,
            decreases self.pressed_buttons@.len() - i,
        {
            if self.pressed_buttons[i] == *b {
                return true;
            }
            i += 1;
        }
        false
    }

    fn position_of(&self, b: &Button) -> (r: Option<usize>)
        ensures
            match r {
                Some(i) => i < self.pressed_buttons@.len() && self.pressed_buttons@[i as int] == *b,
                None => !self.pressed_buttons@.contains(*b),
            },
    {
        let mut i: usize = 0;
        while i < self.pressed_buttons.len()
            invariant
                i <= self.pressed_buttons@.len(),
                forall|j: int| 0 <= j < i ==> self.pressed_buttons@[j] != *b,
            decreases self.pressed_buttons@.len() - i,
        {
            if self.pressed_buttons[i] == *b {
                return Some(i);
            }
            i += 1;
        }
        None
    }

    /// Notes that a button is held down.
    pub fn press(&mut self, b: Button)
        requires
            old(self).wf(),
        ensures
            final(self).wf(),
            final(self).pressed() == old(self).pressed().insert(b),
            final(self).prefs == old(self).prefs,
            final(self).navigator == old(self).navigator,
            final(self).ticks() == old(self).ticks(),
            final(self).scroll() == old(self).scroll(),
    {
        if !self.is_pressed(&b) {
            self.pressed_buttons.push(b);
        }
        assert(self.pressed() =~= old(self).pressed().insert(b)) by {
            assert forall|c: Button| self.pressed_buttons@.contains(c) == (old(
                self,
            ).pressed_buttons@.contains(c) || c == b) by {
                if c == b && !old(self).pressed_buttons@.contains(b) {
                    assert(self.pressed_buttons@.last() == b);
                }
                if old(self).pressed_buttons@.contains(c) && self.pressed_buttons@.len() > old(
                    self,
                ).pressed_buttons@.len() {
                    let k = choose|k: int|
                        0 <= k < old(self).pressed_buttons@.len() && old(
                            self,
                        ).pressed_buttons@[k] == c;
                    assert(self.pressed_buttons@[k] == c);
                }
            }
        }
    }

    /// Notes that a button is no longer held down.
    pub fn release(&mut self, b: &Button)
        requires
            old(self).wf(),
        ensures
            final(self).wf(),
            final(self).pressed() == old(self).pressed().remove(*b),
            final(self).prefs == old(self).prefs,
            final(self).navigator == old(self).navigator,
            final(self).ticks() == old(self).ticks(),
            final(self).scroll() == old(self).scroll(),
    {
        match self.position_of(b) {
            Some(i) => {
                proof {
                    assert forall|c: Button| true implies old(self).pressed_buttons@.remove(
                        i as int,
                    ).contains(c) == (old(self).pressed_buttons@.contains(c) && c != *b) by {
                        lemma_seq_remove_contains(old(self).pressed_buttons@, i as int, c);
                    }
                    lemma_seq_remove_contains(old(self).pressed_buttons@, i as int, *b);
                }
                self.pressed_buttons.remove(i);
            },
            None => {},
        }
        assert(self.pressed() =~= old(self).pressed().remove(*b));
    }

    /// Whether nothing is held down.
    fn nothing_pressed(&self) -> (r: bool)
        ensures
            r == (self.pressed() == Set::<Button>::empty()),
    {
        let r = self.pressed_buttons.len() == 0;
        if !r {
            assert(self.pressed().contains(self.pressed_buttons@[0]));
        } else {
            assert(self.pressed() =~= Set::<Button>::empty());
        }
        r
    }

    /// Lowest row that any button or text of the page reaches; 0 without a page.
    pub fn y_max(&self) -> (r: u64)
        ensures
            r == match self.page() {
                Some(p) => page_y_max(p),
                None => 0,
            },
    {
        let payload = match self.navigator.current() {
            Some(p) => p,
            None => return 0,
        };
        let mut yb: u64 = 0;
        let mut i: usize = 0;
        while i < payload.buttons.len()
            invariant
                i <= payload.buttons@.len(),
                yb == y_max_buttons(payload.buttons@.subrange(0, i as int)),
                yb <= u32::MAX,
            decreases payload.buttons@.len() - i,
        {
            assert(payload.buttons@.subrange(0, i + 1).drop_last() =~= payload.buttons@.subrange(
                0,
                i as int,
            ));
            if payload.buttons[i].y as u64 > yb {
                yb = payload.buttons[i].y as u64;
            }
            i += 1;
        }
        assert(payload.buttons@.subrange(0, i as int) =~= payload.buttons@);
        let mut yt: u64 = 0;
        let mut i: usize = 0;
        while i < payload.text.len()
            invariant
                i <= payload.text@.len(),
                yt == y_max_texts(payload.text@.subrange(0, i as int)),
                yt <= u32::MAX + TEXT_HEIGHT,
            decreases payload.text@.len() - i,
        {
            assert(payload.text@.subrange(0, i + 1).drop_last() =~= payload.text@.subrange(
                0,
                i as int,
            ));
            let bottom = payload.text[i].y as u64 + TEXT_HEIGHT as u64;
            if bottom > yt {
                yt = bottom;
            }
            i += 1;
        }
        assert(payload.text@.subrange(0, i as int) =~= payload.text@);
        if yb > yt {
            yb
        } else {
            yt
        }
    }

    /// Rows of the page below the grid, which the scroll bar reaches.
    pub fn scrollable_y_height(&self) -> (r: u64)
        ensures
            r == scrollable_height(self.page()),
            r < u32::MAX,
    {
        let y = self.y_max();
        proof {
            if let Some(p) = self.page() {
                lemma_y_max_bounds(p);
            }
        }
        if y + 1 > GRID_HEIGHT as u64 {
            y + 1 - GRID_HEIGHT as u64
        } else {
            0
        }
    }
}

impl RestPad {
    /// Draws one button of the page over `buttons`.
    fn draw_button(&self, buttons: &mut Buttons, bs: &ButtonSpec, default_press: Option<RgbColor>)
        requires
            old(buttons).wf(),
        ensures
            final(buttons).wf(),
            final(buttons)@ == paint(
                old(buttons)@,
                |b: Button| in_span(*bs, self.scroll(), b),
                shown_style(*bs, default_press, span_pressed(*bs, self.scroll(), self.pressed())),
            ),
    {
        let ghost scroll = self.scroll();
        let ghost start = buttons@;
        let w = span_width_of(bs);
        let row = bs.y as i64 - self.y_scroll as i64;
        let visible = 0 <= row && row < GRID_HEIGHT as i64;
        let end: u64 = if !visible {
            0
        } else if (bs.x as u64) + w < GRID_WIDTH as u64 {
            bs.x as u64 + w
        } else {
            GRID_WIDTH as u64
        };
        let first: u64 = bs.x as u64;
        // whether some cell of the span is held down
        let mut held = false;
        let mut x: u64 = first;
        while x < end
            invariant
                end <= GRID_WIDTH,
                first == bs.x,
                first <= x || end <= x,
                held == exists|c: Button|
                    #[trigger] in_span(*bs, scroll, c) && c->x < x && self.pressed().contains(c),
                scroll == self.scroll(),
                end == 0 || (visible && end == if bs.x + span_width(*bs) < GRID_WIDTH {
                    bs.x + span_width(*bs)
                } else {
                    GRID_WIDTH as int
                }),
                visible == (0 <= bs.y - scroll < GRID_HEIGHT),
                row == bs.y - scroll,
                w == span_width(*bs),
            decreases end - x,
        {
            let cell = Button::grid(x as u8, row as u8);
            let here = self.is_pressed(&cell);
            proof {
                assert(in_span(*bs, scroll, cell));
                assert forall|c: Button|
                    #[trigger] in_span(*bs, scroll, c) && c->x < x + 1 && self.pressed().contains(
                        c,
                    ) implies (c->x < x && self.pressed().contains(c)) || (c == cell && here) by {
                    if c->x == x {
                        assert(c == cell);
                    }
                }
            }
            held = held || here;
            x += 1;
        }
        proof {
            assert forall|c: Button| #[trigger] in_span(*bs, scroll, c) implies c->x < end by {}
        }
        let press = match bs.press_color {
            Some(c) => Some(c),
            None => default_press,
        };
        let style = match press {
            Some(c) => if held {
                ButtonStyle::Rgb(c)
            } else {
                parse_button_style(bs)
            },
            None => parse_button_style(bs),
        };
        let mut x: u64 = first;
        while x < end
            invariant
                end <= GRID_WIDTH,
                first == bs.x,
                first <= x || end <= x,
                buttons.wf(),
                buttons@ == paint(start, |b: Button| in_span(*bs, scroll, b) && b->x < x, style),
                scroll == self.scroll(),
                end == 0 || (visible && end == if bs.x + span_width(*bs) < GRID_WIDTH {
                    bs.x + span_width(*bs)
                } else {
                    GRID_WIDTH as int
                }),
                visible == (0 <= bs.y - scroll < GRID_HEIGHT),
                row == bs.y - scroll,
                w == span_width(*bs),
            decreases end - x,
        {
            let cell = Button::grid(x as u8, row as u8);
            proof {
                assert(in_span(*bs, scroll, cell));
                assert forall|c: Button|
                    (in_span(*bs, scroll, c) && c->x < x + 1) == ((in_span(*bs, scroll, c) && c->x
                        < x) || (true && c == cell)) by {
                    if in_span(*bs, scroll, c) && c->x == x {
                        assert(c == cell);
                    }
                }
                lemma_paint_extend(
                    start,
                    |b: Button| in_span(*bs, scroll, b) && b->x < x,
                    |b: Button| in_span(*bs, scroll, b) && b->x < x + 1,
                    cell,
                    true,
                    style,
                );
            }
            buttons.insert(cell, style);
            x += 1;
        }
        assert(paint(start, |b: Button| in_span(*bs, scroll, b) && b->x < x, style) =~= paint(
            start,
            |b: Button| in_span(*bs, scroll, b),
            style,
        ));
    }

    /// Draws one text of the page over `buttons`; see `text_lit_at`.
    fn draw_page_text(&self, buttons: &mut Buttons, t: &TextSpec)
        requires
            old(buttons).wf(),
        ensures
            final(buttons).wf(),
            final(buttons)@ == if t.text@.len() > MAX_TEXT_CHARS {
                old(buttons)@
            } else {
                paint(
                    old(buttons)@,
                    |b: Button| text_lit_at(*t, self.ticks(), self.scroll(), b),
                    ButtonStyle::Rgb(t.color),
                )
            },
    {
        if t.text.unicode_len() > MAX_TEXT_CHARS {
            return;
        }
        let box_width: u32 = if t.x >= GRID_WIDTH as u32 {
            0
        } else {
            let room = GRID_WIDTH as u32 - t.x;
            match t.width {
                Some(w) => if w < room {
                    w
                } else {
                    room
                },
                None => room,
            }
        };
        let width = text_width(t.text.as_str()) as u64;
        let invisible: u64 = if width > box_width as u64 {
            width - box_width as u64
        } else {
            0
        };
        let offset = text_scroll_offset(self.counter, invisible);
        let origin = (t.x as i64, t.y as i64 - self.y_scroll as i64);
        draw_text(
            buttons,
            t.text.as_str(),
            origin,
            (box_width, TEXT_HEIGHT),
            -(offset as i32),
            t.color,
        );
    }

    /// What the pad shows: the controls, the scroll bar where the page is taller than the
    /// grid, then the page's buttons and texts in order, each over what came before; nothing
    /// before a page is loaded.
    pub fn calculate_buttons(&self) -> (r: Buttons)
        ensures
            r.wf(),
            r@ == self.grid(),
    {
        let payload = match self.navigator.current() {
            Some(p) => p,
            None => return Buttons::new(),
        };
        let ghost pressed = self.pressed();
        let ghost scroll = self.scroll();
        let mut buttons = Buttons::new();
        buttons.insert(
            Button::ControlButton { index: UP },
            control_color(
                self.is_pressed(&Button::ControlButton { index: UP }),
                self.prefs.brightness < 8,
                RED,
            ),
        );
        buttons.insert(
            Button::ControlButton { index: DOWN },
            control_color(
                self.is_pressed(&Button::ControlButton { index: DOWN }),
                self.prefs.brightness > 0,
                RED,
            ),
        );
        buttons.insert(
            Button::ControlButton { index: LEFT },
            control_color(
                self.is_pressed(&Button::ControlButton { index: LEFT }),
                self.navigator.has_history(),
                YELLOW,
            ),
        );
        buttons.insert(
            Button::ControlButton { index: RIGHT },
            control_color(
                self.is_pressed(&Button::ControlButton { index: RIGHT }),
                self.navigator.has_future(),
                YELLOW,
            ),
        );
        buttons.insert(
            Button::ControlButton { index: MIXER },
            control_color(self.is_pressed(&Button::ControlButton { index: MIXER }), true, YELLOW),
        );
        assert(buttons@ =~= control_layer(pressed, self.prefs.brightness, self.navigator@));
        let h = self.scrollable_y_height();
        if h > 0 {
            let up = Button::grid(GRID_WIDTH, 0);
            let down = Button::grid(GRID_WIDTH, GRID_HEIGHT - 1);
            buttons.insert(up, control_color(self.is_pressed(&up), true, YELLOW));
            buttons.insert(down, control_color(self.is_pressed(&down), true, YELLOW));
            let row = 1 + (self.y_scroll as u64) * THUMB_TRAVEL / h;
            if row < GRID_HEIGHT as u64 {
                buttons.insert(
                    Button::grid(GRID_WIDTH, row as u8),
                    ButtonStyle::Palette(PaletteColor(DARK_GRAY)),
                );
            }
        }
        let ghost base = buttons@;
        assert(base == scrollbar_layer(
            control_layer(pressed, self.prefs.brightness, self.navigator@),
            pressed,
            scroll,
            h as int,
        ));
        let mut i: usize = 0;
        while i < payload.buttons.len()
            invariant
                i <= payload.buttons@.len(),
                buttons.wf(),
                buttons@ == buttons_layer(
                    base,
                    payload.buttons@.subrange(0, i as int),
                    payload.default_press_color,
                    scroll,
                    pressed,
                ),
                pressed == self.pressed(),
                scroll == self.scroll(),
            decreases payload.buttons@.len() - i,
        {
            assert(payload.buttons@.subrange(0, i + 1).drop_last() =~= payload.buttons@.subrange(
                0,
                i as int,
            ));
            self.draw_button(&mut buttons, &payload.buttons[i], payload.default_press_color);
            i += 1;
        }
        assert(payload.buttons@.subrange(0, i as int) =~= payload.buttons@);
        let ghost drawn = buttons@;
        let mut i: usize = 0;
        while i < payload.text.len()
            invariant
                i <= payload.text@.len(),
                buttons.wf(),
                buttons@ == texts_layer(
                    drawn,
                    payload.text@.subrange(0, i as int),
                    self.ticks(),
                    scroll,
                ),
                scroll == self.scroll(),
            decreases payload.text@.len() - i,
        {
            assert(payload.text@.subrange(0, i + 1).drop_last() =~= payload.text@.subrange(
                0,
                i as int,
            ));
            self.draw_page_text(&mut buttons, &payload.text[i]);
            i += 1;
        }
        assert(payload.text@.subrange(0, i as int) =~= payload.text@);
        buttons
    }
}

/// What releasing a button does to the scroll and which command follows, given the
/// scrollable height `h` and the buttons still held down.
pub open spec fn release_outcome(
    pad: RestPad,
    b: Button,
    h: int,
    still_pressed: Set<Button>,
) -> (u8, int, Command) {
    let brightness = pad.prefs.brightness;
    let scroll = pad.scroll();
    let idle = still_pressed == Set::<Button>::empty();
    if b == ctrl(UP) {
        (if brightness < 8 { (brightness + 1) as u8 } else { brightness }, scroll, Command::Brightness)
    } else if b == ctrl(DOWN) {
        (if brightness > 0 { (brightness - 1) as u8 } else { brightness }, scroll, Command::Brightness)
    } else if b == ctrl(LEFT) {
        (brightness, scroll, Command::Back)
    } else if b == ctrl(RIGHT) {
        (brightness, scroll, Command::Forward)
    } else if b == ctrl(MIXER) {
        (brightness, scroll, Command::Refresh)
    } else if b == bar_cell(0) && h > 0 {
        (brightness, if scroll > 0 && idle { scroll - 1 } else { scroll }, Command::Redraw)
    } else if b == bar_cell((GRID_HEIGHT - 1) as u8) && h > 0 {
        (brightness, if scroll < h && idle { scroll + 1 } else { scroll }, Command::Redraw)
    } else if b is GridButton {
        (
            brightness,
            scroll,
            match pad.page() {
                Some(p) => match first_button_at(p.buttons@, scroll, h > 0, b) {
                    Some(i) => action_command(p.buttons@[i].on_press),
                    None => Command::Redraw,
                },
                None => Command::Redraw,
            },
        )
    } else {
        (brightness, scroll, Command::Redraw)
    }
}

impl RestPad {
    /// The cells of a button's span, left to right, on the row it shows on.
    pub fn pads_from_buttonspec(&self, button: &ButtonSpec) -> (r: Vec<Button>)
        ensures
            r@ == button_pads(*button, self.scroll()),
    {
        let ghost scroll = self.scroll();
        let w = span_width_of(button);
        let row = button.y as i64 - self.y_scroll as i64;
        let mut pads: Vec<Button> = Vec::new();
        let n: u64 = if !(0 <= row && row < GRID_HEIGHT as i64) || button.x as u64 >= 256 {
            0
        } else if w < 256 - button.x as u64 {
            w
        } else {
            256 - button.x as u64
        };
        let mut k: u64 = 0;
        while k < n
            invariant
                n == pad_count(*button, scroll),
                k <= n,
                row == button.y - scroll,
                pads@ == Seq::new(
                    k as nat,
                    |j: int| Button::GridButton { x: (button.x + j) as u8, y: (button.y - scroll) as u8 },
                ),
            decreases n - k,
        {
            pads.push(Button::grid((button.x as u64 + k) as u8, row as u8));
            assert(pads@ =~= Seq::new(
                (k + 1) as nat,
                |j: int| Button::GridButton { x: (button.x + j) as u8, y: (button.y - scroll) as u8 },
            ));
            k += 1;
        }
        pads
    }

    /// Whether releasing cell `pad` reaches button `bs`; see `press_target`.
    fn reaches(&self, bs: &ButtonSpec, pad: &Button, bar_shown: bool) -> (r: bool)
        ensures
            r == press_target(*bs, self.scroll(), bar_shown, *pad),
    {
        let x = match *pad {
            Button::GridButton { x, .. } => x,
            Button::ControlButton { .. } => return false,
        };
        let limit: u8 = if bar_shown {
            GRID_WIDTH
        } else {
            GRID_WIDTH + 1
        };
        if x >= limit {
            return false;
        }
        let pads = self.pads_from_buttonspec(bs);
        let mut i: usize = 0;
        while i < pads.len()
            invariant
                i <= pads@.len(),
                pads@ == button_pads(*bs, self.scroll()),
                *pad is GridButton,
                pad->x < if bar_shown {
                    GRID_WIDTH as int
                } else {
                    GRID_WIDTH + 1
                },
                forall|j: int| 0 <= j < i ==> pads@[j] != *pad,
            decreases pads@.len() - i,
        {
            if pads[i] == *pad {
                return true;
            }
            i += 1;
        }
        false
    }

    /// The first button of the page that releasing cell `pad` reaches.
    pub fn find_button(&self, pad: &Button) -> (r: Option<usize>)
        ensures
            match r {
                Some(i) => {
                    &&& self.page() is Some
                    &&& i < self.page()->Some_0.buttons@.len()
                    &&& first_button_at(
                        self.page()->Some_0.buttons@,
                        self.scroll(),
                        scrollable_height(self.page()) > 0,
                        *pad,
                    ) == Some(i as int)
                },
                None => self.page() is None || first_button_at(
                    self.page()->Some_0.buttons@,
                    self.scroll(),
                    scrollable_height(self.page()) > 0,
                    *pad,
                ) is None,
            },
    {
        let bar_shown = self.scrollable_y_height() > 0;
        let payload = match self.navigator.current() {
            Some(p) => p,
            None => return None,
        };
        let ghost specs = payload.buttons@;
        let ghost scroll = self.scroll();
        let mut i: usize = 0;
        while i < payload.buttons.len()
            invariant
                i <= specs.len(),
                specs == payload.buttons@,
                self.page() is Some,
                specs == self.page()->Some_0.buttons@,
                scroll == self.scroll(),
                bar_shown == (scrollable_height(self.page()) > 0),
                forall|j: int| 0 <= j < i ==> !press_target(#[trigger] specs[j], scroll, bar_shown, *pad),
            decreases specs.len() - i,
        {
            if self.reaches(&payload.buttons[i], pad, bar_shown) {
                proof {
                    let ii = i as int;
                    assert(0 <= ii < specs.len() && press_target(specs[ii], scroll, bar_shown, *pad)
                        && forall|j: int|
                        0 <= j < ii ==> !press_target(#[trigger] specs[j], scroll, bar_shown, *pad));
                    let k = choose|k: int|
                        0 <= k < specs.len() && #[trigger] press_target(specs[k], scroll, bar_shown, *pad)
                            && forall|j: int|
                            0 <= j < k ==> !press_target(#[trigger] specs[j], scroll, bar_shown, *pad);
                    if k > ii {
                        assert(!press_target(specs[ii], scroll, bar_shown, *pad));
                    }
                    assert(k == ii);
                }
                return Some(i);
            }
            i += 1;
        }
        None
    }

    /// Handles an event from the device: a press is recorded; a release is recorded and acts
    /// by the button released (see `release_outcome`): the brightness controls change the
    /// brightness, the navigation controls ask for a load, the scroll bar arrows scroll while
    /// nothing else is held down, and a page button hands over its action.
    pub fn handle_message(&mut self, message: InputMessage) -> (c: Command)
        requires
            old(self).wf(),
        ensures
            final(self).wf(),
            final(self).navigator == old(self).navigator,
            final(self).ticks() == old(self).ticks(),
            message matches InputMessage::Press(b) ==> {
                &&& final(self).pressed() == old(self).pressed().insert(b)
                &&& final(self).prefs == old(self).prefs
                &&& final(self).scroll() == old(self).scroll()
                &&& c == Command::Redraw
            },
            message matches InputMessage::Release(b) ==> {
                let still = old(self).pressed().remove(b);
                let outcome = release_outcome(
                    *old(self),
                    b,
                    scrollable_height(old(self).page()),
                    still,
                );
                &&& final(self).pressed() == still
                &&& final(self).prefs.brightness == outcome.0
                &&& final(self).scroll() == outcome.1
                &&& c == outcome.2
            },
    {
        match message {
            InputMessage::Press(b) => {
                self.press(b);
                Command::Redraw
            },
            InputMessage::Release(b) => {
                let ghost before = *self;
                self.release(&b);
                let h = self.scrollable_y_height();
                match b {
                    Button::ControlButton { index } => {
                        if index == UP {
                            if self.prefs.brightness < 8 {
                                self.prefs.brightness = self.prefs.brightness + 1;
                            }
                            Command::Brightness
                        } else if index == DOWN {
                            if self.prefs.brightness > 0 {
                                self.prefs.brightness = self.prefs.brightness - 1;
                            }
                            Command::Brightness
                        } else if index == LEFT {
                            Command::Back
                        } else if index == RIGHT {
                            Command::Forward
                        } else if index == MIXER {
                            Command::Refresh
                        } else {
                            Command::Redraw
                        }
                    },
                    Button::GridButton { x, y } => {
                        if x == GRID_WIDTH && y == 0 && h > 0 {
                            // A held button would never see its release once the page moves
                            // under it, so scrolling waits until nothing else is held.
                            if self.y_scroll > 0 && self.nothing_pressed() {
                                self.y_scroll = self.y_scroll - 1;
                            }
                            Command::Redraw
                        } else if x == GRID_WIDTH && y == GRID_HEIGHT - 1 && h > 0 {
                            if (self.y_scroll as u64) < h && self.nothing_pressed() {
                                self.y_scroll = self.y_scroll + 1;
                            }
                            Command::Redraw
                        } else {
                            match self.find_button(&b) {
                                Some(i) => {
                                    let payload = self.navigator.current().unwrap();
                                    match &payload.buttons[i].on_press {
                                        Some(Action::Navigate { href }) => Command::Navigate(
                                            href.clone(),
                                        ),
                                        Some(Action::Browser { href }) => Command::OpenBrowser(
                                            href.clone(),
                                        ),
                                        None => Command::Redraw,
                                    }
                                },
                                None => Command::Redraw,
                            }
                        }
                    },
                }
            },
        }
    }

    /// Advances the text animation by one tick.
    pub fn tick(&mut self)
        ensures
            final(self).ticks() == if old(self).ticks() < u64::MAX {
                old(self).ticks() + 1
            } else {
                old(self).ticks()
            },
            final(self).prefs == old(self).prefs,
            final(self).navigator == old(self).navigator,
            final(self).pressed_buttons == old(self).pressed_buttons,
            final(self).scroll() == old(self).scroll(),
    {
        if self.counter < u64::MAX {
            self.counter = self.counter + 1;
        }
    }

    /// Resets the animation and the scroll after a page was loaded.
    pub fn on_page_load(&mut self)
        ensures
            final(self).ticks() == 0,
            final(self).scroll() == 0,
            final(self).prefs == old(self).prefs,
            final(self).navigator == old(self).navigator,
            final(self).pressed_buttons == old(self).pressed_buttons,
    {
        self.counter = 0;
        self.y_scroll = 0;
    }

    /// Whether the text animation runs: the page has text.
    pub fn animation_active(&self) -> (r: bool)
        ensures
            r == match self.page() {
                Some(p) => p.text@.len() > 0,
                None => false,
            },
    {
        match self.navigator.current() {
            Some(p) => p.text.len() > 0,
            None => false,
        }
    }

    /// Seconds after which the page asks to be reloaded, if it does.
    pub fn refresh_after(&self) -> (r: Option<u64>)
        ensures
            r == match self.page() {
                Some(p) => p.refresh_after_secs,
                None => None,
            },
    {
        match self.navigator.current() {
            Some(p) => p.refresh_after_secs,
            None => None,
        }
    }

    /// What the pad shows while a timed reload is under way: the refresh control lit.
    pub fn refresh_pending_buttons(&self) -> (r: Buttons)
        ensures
            r.wf(),
            r@ == self.grid().insert(ctrl(MIXER), palette_style(YELLOW)),
    {
        let mut buttons = self.calculate_buttons();
        buttons.insert(Button::ControlButton { index: MIXER }, ButtonStyle::Palette(PaletteColor(YELLOW)));
        buttons
    }
}

/// A cell of the column reserved for the scroll bar.
pub open spec fn in_bar_column(b: Button) -> bool {
    b is GridButton && b->x == GRID_WIDTH
}

proof fn lemma_buttons_layer_keys(
    m: Map<Button, ButtonStyle>,
    specs: Seq<ButtonSpec>,
    default_press: Option<RgbColor>,
    scroll: int,
    pressed: Set<Button>,
)
    ensures
        forall|b: Button| #[trigger]
            buttons_layer(m, specs, default_press, scroll, pressed).contains_key(b)
                ==> m.contains_key(b) || (valid_button(b) && !in_bar_column(b)),
    decreases specs.len(),
{
    if specs.len() > 0 {
        let below = buttons_layer(m, specs.drop_last(), default_press, scroll, pressed);
        lemma_buttons_layer_keys(m, specs.drop_last(), default_press, scroll, pressed);
        assert forall|b: Button| #[trigger]
            buttons_layer(m, specs, default_press, scroll, pressed).contains_key(b)
                implies m.contains_key(b) || (valid_button(b) && !in_bar_column(b)) by {
            if !below.contains_key(b) {
                assert(in_span(specs.last(), scroll, b));
            }
        }
    }
}

proof fn lemma_texts_layer_keys(
    m: Map<Button, ButtonStyle>,
    texts: Seq<TextSpec>,
    counter: int,
    scroll: int,
)
    ensures
        forall|b: Button| #[trigger]
            texts_layer(m, texts, counter, scroll).contains_key(b) ==> m.contains_key(b) || (
            valid_button(b) && !in_bar_column(b)),
    decreases texts.len(),
{
    if texts.len() > 0 {
        let below = texts_layer(m, texts.drop_last(), counter, scroll);
        lemma_texts_layer_keys(m, texts.drop_last(), counter, scroll);
        assert forall|b: Button| #[trigger]
            texts_layer(m, texts, counter, scroll).contains_key(b) implies m.contains_key(b) || (
            valid_button(b) && !in_bar_column(b)) by {
            if !below.contains_key(b) {
                assert(text_lit_at(texts.last(), counter, scroll, b));
            }
        }
    }
}

/// Every cell the pad is told to show is one the device can address, and the scroll bar
/// column is used only while the page is taller than the grid.
pub proof fn lemma_grid_addressable(pad: RestPad)
    ensures
        forall|b: Button| #[trigger]
            pad.grid().contains_key(b) ==> valid_button(b) && (in_bar_column(b)
                ==> scrollable_height(pad.page()) > 0),
{
    if let Some(p) = pad.page() {
        let pressed = pad.pressed();
        let scroll = pad.scroll();
        let h = scrollable_height(Some(p));
        let controls = control_layer(pressed, pad.prefs.brightness, pad.navigator@);
        let base = scrollbar_layer(controls, pressed, scroll, h);
        let drawn = buttons_layer(base, p.buttons@, p.default_press_color, scroll, pressed);
        lemma_buttons_layer_keys(base, p.buttons@, p.default_press_color, scroll, pressed);
        lemma_texts_layer_keys(drawn, p.text@, pad.ticks(), scroll);
        assert forall|b: Button| #[trigger] base.contains_key(b) implies valid_button(b) && (
        in_bar_column(b) ==> h > 0) by {
            if !controls.contains_key(b) {
                assert(h > 0);
            }
        }
    }
}

proof fn lemma_y_max_bounds(p: Payload)
    ensures
        0 <= page_y_max(p) <= u32::MAX + TEXT_HEIGHT,
{
    lemma_y_max_buttons_bound(p.buttons@);
    lemma_y_max_texts_bound(p.text@);
}

proof fn lemma_y_max_buttons_bound(s: Seq<ButtonSpec>)
    ensures
        0 <= y_max_buttons(s) <= u32::MAX,
    decreases s.len(),
{
    if s.len() > 0 {
        lemma_y_max_buttons_bound(s.drop_last());
    }
}

proof fn lemma_y_max_texts_bound(s: Seq<TextSpec>)
    ensures
        0 <= y_max_texts(s) <= u32::MAX + TEXT_HEIGHT,
    decreases s.len(),
{
    if s.len() > 0 {
        lemma_y_max_texts_bound(s.drop_last());
    }
}

} // verus!
