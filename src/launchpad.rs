use vstd::prelude::*;

verus! {

/// Width of the playable grid; the column at this x is reserved for the scroll bar.
pub const GRID_WIDTH: u8 = 8;

/// Height of the playable grid.
pub const GRID_HEIGHT: u8 = 8;

/// Number of addressable cells: eight control buttons and a 9x8 grid.
pub const CELL_COUNT: usize = 80;

/// A physical button of the pad: one of the control buttons along the top, or a grid cell.
#[derive(Debug, Clone, Copy, PartialEq, Eq, Hash, Structural)]
pub enum Button {
    ControlButton { index: u8 },
    GridButton { x: u8, y: u8 },
}

/// Control button that raises the brightness.
pub const UP: u8 = 0;

/// Control button that lowers the brightness.
pub const DOWN: u8 = 1;

/// Control button that goes back in history.
pub const LEFT: u8 = 2;

/// Control button that goes forward in history.
pub const RIGHT: u8 = 3;

/// Control button that reloads the page.
pub const MIXER: u8 = 7;

impl Button {

    pub fn grid(x: u8, y: u8) -> (r: Button)
        ensures
            r == (Button::GridButton { x, y }),
    {
        Button::GridButton { x, y }
    }
}

/// Whether the device can address this button.
pub open spec fn valid_button(b: Button) -> bool {
    match b {
        Button::ControlButton { index } => index < 8,
        Button::GridButton { x, y } => x < 9 && y < 8,
    }
}

/// Position of a valid button in the dense cell table.
pub open spec fn cell_index(b: Button) -> int {
    match b {
        Button::ControlButton { index } => index as int,
        Button::GridButton { x, y } => 8 + y * 9 + x,
    }
}

/// The button stored at a position of the dense cell table.
pub open spec fn button_at(i: int) -> Button {
    if i < 8 {
        Button::ControlButton { index: i as u8 }
    } else {
        Button::GridButton { x: ((i - 8) % 9) as u8, y: ((i - 8) / 9) as u8 }
    }
}

pub proof fn lemma_cell_index_bijective()
    ensures
        forall|b: Button| #[trigger]
            valid_button(b) ==> 0 <= cell_index(b) < 80 && button_at(cell_index(b)) == b,
        forall|i: int|
            0 <= i < 80 ==> valid_button(#[trigger] button_at(i)) && cell_index(button_at(i))
                == i,
{
    assert forall|b: Button| #[trigger] valid_button(b) implies 0 <= cell_index(b) < 80
        && button_at(cell_index(b)) == b by {
        if let Button::GridButton { x, y } = b {
            let i = 8 + y * 9 + x;
            assert((i - 8) % 9 == x as int && (i - 8) / 9 == y as int) by (nonlinear_arith)
                requires
                    i == 8 + y * 9 + x,
                    x < 9,
            ;
        }
    }
    assert forall|i: int| 0 <= i < 80 implies valid_button(#[trigger] button_at(i)) && cell_index(
        button_at(i),
    ) == i by {
        if i >= 8 {
            let j = i - 8;
            assert(0 <= j % 9 < 9 && 0 <= j / 9 < 8 && (j / 9) * 9 + j % 9 == j) by (nonlinear_arith)
                requires
                    0 <= j < 72,
            ;
        }
    }
}

/// Whether the device can address this button.
pub fn is_valid_button(button: &Button) -> (r: bool)
    ensures
        r == valid_button(*button),
{
    match *button {
        Button::ControlButton { index } => index < 8,
        Button::GridButton { x, y } => x < 9 && y < 8,
    }
}

fn index_of(b: &Button) -> (r: usize)
    requires
        valid_button(*b),
    ensures
        r == cell_index(*b),
{
    match *b {
        Button::ControlButton { index } => index as usize,
        Button::GridButton { x, y } => 8 + (y as usize) * 9 + (x as usize),
    }
}

fn button_from_index(i: usize) -> (r: Button)
    requires
        i < 80,
    ensures
        r == button_at(i as int),
{
    if i < 8 {
        Button::ControlButton { index: i as u8 }
    } else {
        Button::GridButton { x: ((i - 8) % 9) as u8, y: ((i - 8) / 9) as u8 }
    }
}

/// A color from the device's fixed palette, by its index.
#[derive(Debug, Clone, Copy, PartialEq, Eq, Hash, Structural)]
pub struct PaletteColor(pub u8);

pub const BLACK: u8 = 0;

pub const DARK_GRAY: u8 = 1;

pub const WHITE: u8 = 3;

pub const RED: u8 = 5;

pub const YELLOW: u8 = 13;

/// An RGB color. Each component may go up to 255.
#[derive(Debug, Clone, Copy, PartialEq, Eq, Hash, Structural)]
pub struct RgbColor {
    pub r: u8,
    pub g: u8,
    pub b: u8,
}

impl RgbColor {
    pub fn new(r: u8, g: u8, b: u8) -> (c: RgbColor)
        ensures
            c == (RgbColor { r, g, b }),
    {
        RgbColor { r, g, b }
    }

    /// The color at the device's four bits per channel.
    pub fn device_levels(&self) -> (levels: (u8, u8, u8))
        ensures
            levels == (self.r / 16, self.g / 16, self.b / 16),
    {
        (self.r / 16, self.g / 16, self.b / 16)
    }
}

/// How the device lights a button.
#[derive(Debug, Clone, Copy, PartialEq, Eq, Hash, Structural)]
pub enum ButtonStyle {
    Palette(PaletteColor),
    Rgb(RgbColor),
    Flash(PaletteColor, PaletteColor),
    Pulse(PaletteColor),
}

impl From<PaletteColor> for ButtonStyle {
    fn from(color: PaletteColor) -> Self {
        ButtonStyle::Palette(color)
    }
}

impl vstd::std_specs::convert::FromSpecImpl<PaletteColor> for ButtonStyle {
    open spec fn obeys_from_spec() -> bool {
        true
    }

    open spec fn from_spec(color: PaletteColor) -> Self {
        ButtonStyle::Palette(color)
    }
}

impl From<RgbColor> for ButtonStyle {
    fn from(color: RgbColor) -> Self {
        ButtonStyle::Rgb(color)
    }
}

impl vstd::std_specs::convert::FromSpecImpl<RgbColor> for ButtonStyle {
    open spec fn obeys_from_spec() -> bool {
        true
    }

    open spec fn from_spec(color: RgbColor) -> Self {
        ButtonStyle::Rgb(color)
    }
}

/// The style of an unlit button.
pub open spec fn off_style() -> ButtonStyle {
    ButtonStyle::Palette(PaletteColor(BLACK))
}

/// An event from the device.
#[derive(Debug, Clone, Copy, PartialEq, Eq, Hash, Structural)]
pub enum InputMessage {
    Press(Button),
    Release(Button),
}

/// The device's brightness register value for a brightness level on a scale from 0 to 8.
pub fn device_brightness(brightness: u8) -> (r: u8)
    requires
        brightness <= 8,
    ensures
        r == if brightness * 16 < 127 { brightness * 16 } else { 127 },
{
    let scaled = brightness * 16;
    if scaled < 127 {
        scaled
    } else {
        127
    }
}

/// A mapping from addressable buttons to styles.
///
/// Buttons that the device cannot address are never stored.
pub struct Buttons {
    cells: Vec<Option<ButtonStyle>>,
}

impl View for Buttons {
    type V = Map<Button, ButtonStyle>;

    closed spec fn view(&self) -> Map<Button, ButtonStyle> {
        Map::new(
            |b: Button| valid_button(b) && self.cells@[cell_index(b)] is Some,
            |b: Button| self.cells@[cell_index(b)]->Some_0,
        )
    }
}

impl Buttons {
    /// The dense table holds one entry per addressable button.
    pub closed spec fn wf(&self) -> bool {
        self.cells@.len() == 80
    }

    /// An empty mapping.
    pub fn new() -> (r: Buttons)
        ensures
            r.wf(),
            r@ == Map::<Button, ButtonStyle>::empty(),
    {
        let mut cells: Vec<Option<ButtonStyle>> = Vec::new();
        let mut i: usize = 0;
        while i < CELL_COUNT
            invariant
                i <= 80,
                cells@.len() == i,
                forall|j: int| 0 <= j < i ==> cells@[j] is None,
            decreases 80 - i,
        {
            cells.push(None);
            i += 1;
        }
        let r = Buttons { cells };
        assert(r@ =~= Map::<Button, ButtonStyle>::empty()) by {
            lemma_cell_index_bijective();
        }
        r
    }

    /// Sets the style of a button; a button the device cannot address is dropped.
    pub fn insert(&mut self, b: Button, s: ButtonStyle)
        requires
            old(self).wf(),
        ensures
            final(self).wf(),
            final(self)@ == if valid_button(b) { old(self)@.insert(b, s) } else { old(self)@ },
    {
        proof {
            lemma_cell_index_bijective();
        }
        if is_valid_button(&b) {
            let i = index_of(&b);
            self.cells.set(i, Some(s));
            assert(self@ =~= old(self)@.insert(b, s)) by {
                assert forall|c: Button| valid_button(c) && cell_index(c) == i implies c == b by {}
            }
        }
    }

    /// The style of a button, if one is set.
    pub fn get(&self, b: &Button) -> (r: Option<ButtonStyle>)
        requires
            self.wf(),
        ensures
            r == if self@.contains_key(*b) { Some(self@[*b]) } else { None },
    {
        if is_valid_button(b) {
            self.cells[index_of(b)]
        } else {
            None
        }
    }

    /// The style of a button, unlit where none is set.
    pub fn style_or_off(&self, b: &Button) -> (r: ButtonStyle)
        requires
            self.wf(),
        ensures
            r == style_or_off(self@, *b),
    {
        match self.get(b) {
            Some(s) => s,
            None => ButtonStyle::Palette(PaletteColor(BLACK)),
        }
    }

    /// The entry at a position of the dense table, with the button it belongs to.
    pub fn entry_at(&self, i: usize) -> (r: (Button, Option<ButtonStyle>))
        requires
            self.wf(),
            i < CELL_COUNT,
        ensures
            r.0 == button_at(i as int),
            valid_button(r.0),
            r.1 == if self@.contains_key(r.0) { Some(self@[r.0]) } else { None },
    {
        proof {
            lemma_cell_index_bijective();
        }
        let b = button_from_index(i);
        (b, self.get(&b))
    }
}

/// A button's style in a mapping, unlit where none is set.
pub open spec fn style_or_off(m: Map<Button, ButtonStyle>, b: Button) -> ButtonStyle {
    if m.contains_key(b) {
        m[b]
    } else {
        off_style()
    }
}

} // verus!
