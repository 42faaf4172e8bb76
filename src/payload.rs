use crate::launchpad::RgbColor;
use vstd::prelude::*;

verus! {

/// The payload of a page load.
pub struct Payload {
    /// A list of button bindings.
    pub buttons: Vec<ButtonSpec>,
    /// A list of texts.
    pub text: Vec<TextSpec>,
    /// Seconds after which the page is refreshed automatically, if at all.
    pub refresh_after_secs: Option<u64>,
    /// For any of the buttons in this page, if no press color is set this color is used.
    pub default_press_color: Option<RgbColor>,
}

/// A button of a page.
pub struct ButtonSpec {
    /// X coordinate of this button.
    pub x: u32,
    /// Y coordinate of this button, in page space.
    pub y: u32,
    /// The color of this button.
    pub color: RgbColor,
    /// The style of this button.
    pub style: Style,
    /// The width of the button in cells; a missing or zero width counts as one.
    pub width: Option<u8>,
    /// The color this button has while it is pressed.
    pub press_color: Option<RgbColor>,
    /// Action to perform when this button is released.
    pub on_press: Option<Action>,
}

/// A text of a page.
pub struct TextSpec {
    /// X coordinate of the text.
    pub x: u32,
    /// Y coordinate of the text, in page space.
    pub y: u32,
    /// The text to print.
    pub text: String,
    /// The color of the text.
    pub color: RgbColor,
    /// Maximum width of the text in pixels.
    pub width: Option<u32>,
}

/// How a button of a page is lit.
#[derive(Debug, Clone, Copy, PartialEq, Eq, Structural)]
pub enum Style {
    /// The button just lights up.
    Plain,
    /// The button pulses its color.
    Pulse,
    /// The button flashes between its color and the given one; a missing color is black.
    Flash(Option<RgbColor>),
}

/// What releasing a button of a page does.
pub enum Action {
    /// Navigate to the given URL.
    Navigate { href: String },
    /// Open a system browser at the given URL.
    Browser { href: String },
}

} // verus!
