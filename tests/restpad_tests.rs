use restpad::{
    rgb_to_palette, text_width, Action, Button, ButtonSpec, ButtonStyle, Buttons, Command,
    EmittedState, InputMessage, Navigator, PaletteColor, Payload, Preferences, RestPad, RgbColor,
    Style, TextSpec,
};
use restpad::embedded_gfx::{draw_text, text_scroll_offset};
use restpad::launchpad::device_brightness;
use restpad::restpad::parse_button_style;

fn plain_button(x: u32, y: u32, color: RgbColor) -> ButtonSpec {
    ButtonSpec {
        x,
        y,
        color,
        style: Style::Plain,
        width: None,
        press_color: None,
        on_press: None,
    }
}

fn page(buttons: Vec<ButtonSpec>, text: Vec<TextSpec>) -> Payload {
    Payload { buttons, text, refresh_after_secs: None, default_press_color: None }
}

fn pad_with(p: Payload) -> RestPad {
    let mut nav = Navigator::new("file:///a/b/".to_string());
    nav.navigate("file:///a/b/page.json".to_string(), p);
    RestPad::new(Preferences { brightness: 8 }, nav)
}

fn grid_cells() -> Vec<Button> {
    let mut v = Vec::new();
    for y in 0..8u8 {
        for x in 0..9u8 {
            v.push(Button::grid(x, y));
        }
    }
    v
}

#[test]
fn single_red_button_is_drawn_alone() {
    let red = RgbColor::new(255, 0, 0);
    let pad = pad_with(page(vec![plain_button(0, 0, red)], vec![]));
    let grid = pad.calculate_buttons();
    assert_eq!(grid.get(&Button::grid(0, 0)), Some(ButtonStyle::Rgb(RgbColor::new(255, 0, 0))));
    for b in grid_cells() {
        if b != Button::grid(0, 0) {
            assert_eq!(grid.get(&b), None, "{:?}", b);
        }
    }
    // controls: brightness at 8 cannot go up, can go down; no history or future
    assert_eq!(grid.get(&Button::ControlButton { index: 0 }), Some(ButtonStyle::Palette(PaletteColor(0))));
    assert_eq!(grid.get(&Button::ControlButton { index: 1 }), Some(ButtonStyle::Palette(PaletteColor(3))));
    assert_eq!(grid.get(&Button::ControlButton { index: 2 }), Some(ButtonStyle::Palette(PaletteColor(0))));
    assert_eq!(grid.get(&Button::ControlButton { index: 3 }), Some(ButtonStyle::Palette(PaletteColor(0))));
    assert_eq!(grid.get(&Button::ControlButton { index: 7 }), Some(ButtonStyle::Palette(PaletteColor(3))));
}

#[test]
fn no_page_shows_nothing() {
    let pad = RestPad::new(Preferences { brightness: 8 }, Navigator::new("file:///a/".to_string()));
    let grid = pad.calculate_buttons();
    assert_eq!(grid.get(&Button::ControlButton { index: 0 }), None);
}

#[test]
fn scroll_down_clamps_at_scrollable_height() {
    // lowest button at row 10: three rows below the grid
    let pad_page = page(vec![plain_button(0, 10, RgbColor::new(1, 2, 3))], vec![]);
    let mut pad = pad_with(pad_page);
    assert_eq!(pad.scrollable_y_height(), 3);
    let down = Button::grid(8, 7);
    let mut expected = 0;
    for _ in 0..4 {
        assert_eq!(pad.handle_message(InputMessage::Press(down)), Command::Redraw);
        assert_eq!(pad.handle_message(InputMessage::Release(down)), Command::Redraw);
        if expected < 3 {
            expected += 1;
        }
        assert_eq!(pad.y_scroll(), expected);
    }
    assert_eq!(pad.y_scroll(), 3);
}

#[test]
fn scroll_waits_while_another_button_is_held() {
    let mut pad = pad_with(page(vec![plain_button(0, 12, RgbColor::new(1, 2, 3))], vec![]));
    pad.handle_message(InputMessage::Press(Button::grid(1, 1)));
    pad.handle_message(InputMessage::Press(Button::grid(8, 7)));
    pad.handle_message(InputMessage::Release(Button::grid(8, 7)));
    assert_eq!(pad.y_scroll(), 0);
    pad.handle_message(InputMessage::Release(Button::grid(1, 1)));
    pad.handle_message(InputMessage::Press(Button::grid(8, 7)));
    pad.handle_message(InputMessage::Release(Button::grid(8, 7)));
    assert_eq!(pad.y_scroll(), 1);
    pad.handle_message(InputMessage::Press(Button::grid(8, 0)));
    pad.handle_message(InputMessage::Release(Button::grid(8, 0)));
    assert_eq!(pad.y_scroll(), 0);
}

#[test]
fn scroll_bar_and_thumb_are_drawn() {
    let mut pad = pad_with(page(vec![plain_button(0, 10, RgbColor::new(1, 2, 3))], vec![]));
    let grid = pad.calculate_buttons();
    assert_eq!(grid.get(&Button::grid(8, 0)), Some(ButtonStyle::Palette(PaletteColor(3))));
    assert_eq!(grid.get(&Button::grid(8, 7)), Some(ButtonStyle::Palette(PaletteColor(3))));
    assert_eq!(grid.get(&Button::grid(8, 1)), Some(ButtonStyle::Palette(PaletteColor(1))));
    for _ in 0..3 {
        pad.handle_message(InputMessage::Release(Button::grid(8, 7)));
    }
    // thumb row = 1 + 3 * 5 / 3
    let grid = pad.calculate_buttons();
    assert_eq!(grid.get(&Button::grid(8, 6)), Some(ButtonStyle::Palette(PaletteColor(1))));
    // the button at row 10 now shows on row 7
    assert_eq!(grid.get(&Button::grid(0, 7)), Some(ButtonStyle::Rgb(RgbColor::new(1, 2, 3))));
}

#[test]
fn brightness_controls_clamp() {
    let mut pad = pad_with(page(vec![], vec![]));
    assert_eq!(pad.handle_message(InputMessage::Release(Button::ControlButton { index: 0 })), Command::Brightness);
    assert_eq!(pad.prefs.brightness, 8);
    assert_eq!(pad.handle_message(InputMessage::Release(Button::ControlButton { index: 1 })), Command::Brightness);
    assert_eq!(pad.prefs.brightness, 7);
    pad.prefs.brightness = 0;
    pad.handle_message(InputMessage::Release(Button::ControlButton { index: 1 }));
    assert_eq!(pad.prefs.brightness, 0);
    assert_eq!(pad.handle_message(InputMessage::Release(Button::ControlButton { index: 2 })), Command::Back);
    assert_eq!(pad.handle_message(InputMessage::Release(Button::ControlButton { index: 3 })), Command::Forward);
    assert_eq!(pad.handle_message(InputMessage::Release(Button::ControlButton { index: 7 })), Command::Refresh);
    assert_eq!(pad.handle_message(InputMessage::Release(Button::ControlButton { index: 5 })), Command::Redraw);
}

#[test]
fn page_button_hands_over_its_action() {
    let mut b = plain_button(2, 3, RgbColor::new(0, 0, 255));
    b.width = Some(3);
    b.on_press = Some(Action::Navigate { href: "next.json".to_string() });
    let mut o = plain_button(0, 0, RgbColor::new(0, 0, 255));
    o.on_press = Some(Action::Browser { href: "https://example.com/".to_string() });
    let mut pad = pad_with(page(vec![b, o], vec![]));
    assert_eq!(
        pad.handle_message(InputMessage::Release(Button::grid(4, 3))),
        Command::Navigate("next.json".to_string())
    );
    assert_eq!(
        pad.handle_message(InputMessage::Release(Button::grid(0, 0))),
        Command::OpenBrowser("https://example.com/".to_string())
    );
    assert_eq!(pad.handle_message(InputMessage::Release(Button::grid(5, 3))), Command::Redraw);
    assert_eq!(pad.find_button(&Button::grid(3, 3)), Some(0));
    assert_eq!(pad.find_button(&Button::grid(7, 7)), None);
}

#[test]
fn pressed_button_takes_press_color() {
    let mut b = plain_button(1, 1, RgbColor::new(10, 20, 30));
    b.width = Some(2);
    let mut p = page(vec![b], vec![]);
    p.default_press_color = Some(RgbColor::new(200, 100, 0));
    let mut pad = pad_with(p);
    pad.handle_message(InputMessage::Press(Button::grid(2, 1)));
    let grid = pad.calculate_buttons();
    assert_eq!(grid.get(&Button::grid(1, 1)), Some(ButtonStyle::Rgb(RgbColor::new(200, 100, 0))));
    assert_eq!(grid.get(&Button::grid(2, 1)), Some(ButtonStyle::Rgb(RgbColor::new(200, 100, 0))));
    pad.handle_message(InputMessage::Release(Button::grid(2, 1)));
    let grid = pad.calculate_buttons();
    assert_eq!(grid.get(&Button::grid(1, 1)), Some(ButtonStyle::Rgb(RgbColor::new(10, 20, 30))));
}

#[test]
fn wide_button_is_clipped_before_the_scroll_column() {
    let mut b = plain_button(6, 0, RgbColor::new(9, 9, 9));
    b.width = Some(200);
    let pad = pad_with(page(vec![b, plain_button(8, 2, RgbColor::new(1, 1, 1))], vec![]));
    let grid = pad.calculate_buttons();
    assert!(grid.get(&Button::grid(6, 0)).is_some());
    assert!(grid.get(&Button::grid(7, 0)).is_some());
    assert_eq!(grid.get(&Button::grid(8, 0)), None);
    assert_eq!(grid.get(&Button::grid(8, 2)), None);
}

#[test]
fn button_styles_are_quantized() {
    let mut b = plain_button(0, 0, RgbColor::new(250, 3, 3));
    b.style = Style::Pulse;
    assert_eq!(parse_button_style(&b), ButtonStyle::Pulse(PaletteColor(5)));
    b.style = Style::Flash(None);
    assert_eq!(parse_button_style(&b), ButtonStyle::Flash(PaletteColor(5), PaletteColor(0)));
    b.style = Style::Flash(Some(RgbColor::new(0, 0, 250)));
    assert_eq!(parse_button_style(&b), ButtonStyle::Flash(PaletteColor(5), PaletteColor(45)));
    b.style = Style::Plain;
    assert_eq!(parse_button_style(&b), ButtonStyle::Rgb(RgbColor::new(250, 3, 3)));
}

#[test]
fn quantize_palette_colors_and_neighbours() {
    assert_eq!(rgb_to_palette(RgbColor::new(0, 0, 0)), 0);
    assert_eq!(rgb_to_palette(RgbColor::new(255, 255, 255)), 3);
    assert_eq!(rgb_to_palette(RgbColor::new(255, 0, 0)), 5);
    assert_eq!(rgb_to_palette(RgbColor::new(255, 255, 0)), 13);
    assert_eq!(rgb_to_palette(RgbColor::new(0, 0, 255)), 45);
    assert_eq!(rgb_to_palette(RgbColor::new(20, 20, 20)), 1);
    assert_eq!(rgb_to_palette(RgbColor::new(240, 10, 5)), 5);
    // same input, same index
    let c = RgbColor::new(17, 200, 90);
    assert_eq!(rgb_to_palette(c), rgb_to_palette(c));
}

#[test]
fn url_resolves_relative_to_location() {
    let nav = Navigator::new("file:///a/b/".to_string());
    assert_eq!(nav.resolve("page2.json"), Some("file:///a/b/page2.json".to_string()));
    assert_eq!(nav.resolve("https://example.com/x.json"), Some("https://example.com/x.json".to_string()));
    let bad = Navigator::new("not a url".to_string());
    assert_eq!(bad.resolve("page2.json"), None);
}

#[test]
fn history_after_navigations() {
    let mut nav = Navigator::new("file:///a/".to_string());
    assert!(!nav.has_history());
    nav.navigate("file:///a/one.json".to_string(), page(vec![], vec![]));
    assert!(!nav.has_history());
    assert_eq!(nav.back_target(), None);
    nav.navigate("file:///a/two.json".to_string(), page(vec![], vec![]));
    assert!(nav.has_history());
    assert_eq!(nav.back_target(), Some("file:///a/one.json".to_string()));
}

#[test]
fn back_then_forward_restores() {
    let mut nav = Navigator::new("file:///a/".to_string());
    nav.navigate("file:///a/one.json".to_string(), page(vec![], vec![]));
    nav.navigate("file:///a/two.json".to_string(), page(vec![], vec![]));
    nav.back(page(vec![], vec![]));
    assert_eq!(nav.current_location(), "file:///a/one.json");
    assert!(nav.has_future());
    assert!(!nav.has_history());
    assert_eq!(nav.forward_target(), Some("file:///a/two.json".to_string()));
    nav.forward(page(vec![], vec![]));
    assert_eq!(nav.current_location(), "file:///a/two.json");
    assert!(!nav.has_future());
    assert!(nav.has_history());
    // without history a step back changes nothing
    let mut fresh = Navigator::new("file:///a/".to_string());
    fresh.back(page(vec![], vec![]));
    assert_eq!(fresh.current_location(), "file:///a/");
    assert!(fresh.current().is_none());
}

#[test]
fn navigate_clears_future() {
    let mut nav = Navigator::new("file:///a/".to_string());
    nav.navigate("file:///a/one.json".to_string(), page(vec![], vec![]));
    nav.navigate("file:///a/two.json".to_string(), page(vec![], vec![]));
    nav.back(page(vec![], vec![]));
    assert!(nav.has_future());
    nav.navigate("file:///a/three.json".to_string(), page(vec![], vec![]));
    assert!(!nav.has_future());
    assert_eq!(nav.forward_target(), None);
}

#[test]
fn emitter_sends_only_changes() {
    let mut state = EmittedState::new();
    let mut g = Buttons::new();
    g.insert(Button::grid(0, 0), ButtonStyle::Rgb(RgbColor::new(1, 2, 3)));
    g.insert(Button::grid(1, 0), ButtonStyle::Palette(PaletteColor(0)));
    g.insert(Button::grid(9, 0), ButtonStyle::Palette(PaletteColor(5)));
    let first = state.changes(&g);
    // an unlit entry equals the unlit default; an unaddressable one is never stored
    assert_eq!(first, vec![(Button::grid(0, 0), ButtonStyle::Rgb(RgbColor::new(1, 2, 3)))]);
    state.commit(g);
    let mut same = Buttons::new();
    same.insert(Button::grid(0, 0), ButtonStyle::Rgb(RgbColor::new(1, 2, 3)));
    assert!(state.changes(&same).is_empty());
    let mut next = Buttons::new();
    next.insert(Button::grid(3, 3), ButtonStyle::Pulse(PaletteColor(5)));
    let diff = state.changes(&next);
    assert_eq!(
        diff,
        vec![
            (Button::grid(0, 0), ButtonStyle::Palette(PaletteColor(0))),
            (Button::grid(3, 3), ButtonStyle::Pulse(PaletteColor(5))),
        ]
    );
    state.clear();
    assert_eq!(state.changes(&next).len(), 1);
}

#[test]
fn consecutive_identical_grids_send_nothing() {
    let pad = pad_with(page(vec![plain_button(2, 2, RgbColor::new(5, 6, 7))], vec![]));
    let mut state = EmittedState::new();
    let g1 = pad.calculate_buttons();
    assert!(!state.changes(&g1).is_empty());
    state.commit(g1);
    let g2 = pad.calculate_buttons();
    assert!(state.changes(&g2).is_empty());
}

#[test]
fn text_scroll_offsets() {
    // a text 12 pixels wider than its box: cycle of 22 ticks
    assert_eq!(text_scroll_offset(0, 12), 0);
    assert_eq!(text_scroll_offset(10, 12), 0);
    assert_eq!(text_scroll_offset(15, 12), 5);
    assert_eq!(text_scroll_offset(21, 12), 11);
    assert_eq!(text_scroll_offset(22, 12), 12);
    assert_eq!(text_scroll_offset(37, 12), 7);
    assert_eq!(text_scroll_offset(44, 12), 0);
    // a text that fits never moves
    for t in 0..50 {
        assert_eq!(text_scroll_offset(t, 0), 0);
    }
}

#[test]
fn text_width_counts_characters() {
    assert_eq!(text_width(""), 0);
    assert_eq!(text_width("abc"), 12);
    assert_eq!(text_width("é"), 4);
}

#[test]
fn text_is_drawn_in_its_color_and_box() {
    let mut g = Buttons::new();
    draw_text(&mut g, "H", (1, 1), (4, 6), 0, RgbColor::new(0, 255, 0));
    let mut lit = 0;
    for b in grid_cells() {
        if let Some(s) = g.get(&b) {
            assert_eq!(s, ButtonStyle::Rgb(RgbColor::new(0, 255, 0)));
            if let Button::GridButton { x, y } = b {
                assert!((1..5).contains(&x) && (1..7).contains(&y));
            }
            lit += 1;
        }
    }
    assert!(lit > 0);
    let mut blank = Buttons::new();
    draw_text(&mut blank, " ", (0, 0), (8, 6), 0, RgbColor::new(0, 255, 0));
    assert!(grid_cells().iter().all(|b| blank.get(b).is_none()));
}

#[test]
fn page_text_is_drawn_and_animation_runs() {
    let t = TextSpec { x: 0, y: 0, text: "HI".to_string(), color: RgbColor::new(255, 0, 255), width: None };
    let mut pad = pad_with(page(vec![], vec![t]));
    assert!(pad.animation_active());
    let grid = pad.calculate_buttons();
    assert!(grid_cells().iter().any(|b| grid.get(b) == Some(ButtonStyle::Rgb(RgbColor::new(255, 0, 255)))));
    pad.tick();
    pad.tick();
    assert_eq!(pad.counter(), 2);
    pad.on_page_load();
    assert_eq!(pad.counter(), 0);
    assert_eq!(pad.y_scroll(), 0);
}

#[test]
fn refresh_pending_lights_refresh_control() {
    let pad = pad_with(page(vec![], vec![]));
    let g = pad.refresh_pending_buttons();
    assert_eq!(g.get(&Button::ControlButton { index: 7 }), Some(ButtonStyle::Palette(PaletteColor(13))));
}

#[test]
fn device_levels() {
    assert_eq!(device_brightness(0), 0);
    assert_eq!(device_brightness(2), 32);
    assert_eq!(device_brightness(8), 127);
    assert_eq!(RgbColor::new(255, 16, 15).device_levels(), (15, 1, 0));
    assert!(restpad::is_valid_button(&Button::grid(8, 7)));
    assert!(!restpad::is_valid_button(&Button::grid(9, 0)));
    assert!(!restpad::is_valid_button(&Button::ControlButton { index: 8 }));
}

#[test]
fn default_preferences() {
    assert_eq!(Preferences::default().brightness, 8);
}


#[test]
fn colors_convert_into_styles() {
    assert_eq!(ButtonStyle::from(PaletteColor(13)), ButtonStyle::Palette(PaletteColor(13)));
    let s: ButtonStyle = RgbColor::new(1, 2, 3).into();
    assert_eq!(s, ButtonStyle::Rgb(RgbColor::new(1, 2, 3)));
}

#[test]
fn release_in_scroll_column_reaches_a_button_without_scroll_bar() {
    let mut b = plain_button(7, 0, RgbColor::new(0, 0, 255));
    b.width = Some(2);
    b.on_press = Some(Action::Navigate { href: "wide.json".to_string() });
    let mut pad = pad_with(page(vec![b], vec![]));
    assert_eq!(pad.scrollable_y_height(), 0);
    assert_eq!(pad.find_button(&Button::grid(8, 0)), Some(0));
    assert_eq!(
        pad.handle_message(InputMessage::Release(Button::grid(8, 0))),
        Command::Navigate("wide.json".to_string())
    );
    // the scroll bar column is still never drawn over
    assert_eq!(pad.calculate_buttons().get(&Button::grid(8, 0)), None);
}

#[test]
fn release_in_scroll_column_is_the_scroll_bar_while_it_is_drawn() {
    let mut b = plain_button(7, 3, RgbColor::new(0, 0, 255));
    b.width = Some(2);
    b.on_press = Some(Action::Navigate { href: "wide.json".to_string() });
    let low = plain_button(0, 10, RgbColor::new(1, 1, 1));
    let mut pad = pad_with(page(vec![b, low], vec![]));
    assert_eq!(pad.scrollable_y_height(), 3);
    assert_eq!(pad.find_button(&Button::grid(8, 3)), None);
    assert_eq!(pad.find_button(&Button::grid(7, 3)), Some(0));
    assert_eq!(pad.handle_message(InputMessage::Release(Button::grid(8, 3))), Command::Redraw);
}

#[test]
fn pads_cover_the_whole_span_on_the_shown_row() {
    let mut b = plain_button(6, 2, RgbColor::new(0, 0, 0));
    b.width = Some(4);
    let mut pad = pad_with(page(vec![], vec![]));
    assert_eq!(
        pad.pads_from_buttonspec(&b),
        vec![Button::grid(6, 2), Button::grid(7, 2), Button::grid(8, 2), Button::grid(9, 2)]
    );
    b.width = Some(0);
    assert_eq!(pad.pads_from_buttonspec(&b), vec![Button::grid(6, 2)]);
    // scrolled so that the row leaves the grid
    let mut tall = pad_with(page(vec![plain_button(0, 12, RgbColor::new(0, 0, 0))], vec![]));
    for _ in 0..3 {
        tall.handle_message(InputMessage::Release(Button::grid(8, 7)));
    }
    assert_eq!(tall.y_scroll(), 3);
    assert!(tall.pads_from_buttonspec(&b).is_empty());
    let mut moved = plain_button(1, 9, RgbColor::new(0, 0, 0));
    moved.width = Some(2);
    assert_eq!(tall.pads_from_buttonspec(&moved), vec![Button::grid(1, 6), Button::grid(2, 6)]);
    // no cell past the last column a byte can name
    let mut far = plain_button(254, 0, RgbColor::new(0, 0, 0));
    far.width = Some(5);
    pad.on_page_load();
    assert_eq!(pad.pads_from_buttonspec(&far), vec![Button::grid(254, 0), Button::grid(255, 0)]);
}
