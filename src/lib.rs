pub mod browser;
pub mod colors;
pub mod embedded_gfx;
pub mod emitter;
pub mod launchpad;
pub mod navigator;
pub mod payload;
pub mod preferences;
pub mod restpad;

pub use browser::{Browser, LaunchPadInfo};
pub use colors::rgb_to_palette;
pub use embedded_gfx::{draw_text, text_width, PadTarget};
pub use emitter::EmittedState;
pub use launchpad::{
    is_valid_button, Button, ButtonStyle, Buttons, InputMessage, PaletteColor, RgbColor,
};
pub use navigator::Navigator;
pub use payload::{Action, ButtonSpec, Payload, Style, TextSpec};
pub use preferences::Preferences;
pub use restpad::{Command, RestPad};
