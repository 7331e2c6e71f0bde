//! Button glyphs for the hint footer.
use vstd::prelude::*;

verus! {

/// Which device the hints should speak to.
#[derive(Debug, Clone, Copy, PartialEq, Eq, Structural, Hash)]
pub enum InputMode {
    Keyboard,
    Gamepad,
    /// No hints: touch has no buttons to name.
    Touch,
}

/// An action as the footer names it, independent of device.
#[derive(Debug, Clone, Copy, PartialEq, Eq, Structural, Hash)]
pub enum Glyph {
    Confirm,
    Back,
    Navigate,
    NavigateHorizontal,
    NavigateVertical,
    TabLeft,
    TabRight,
    FilterLeft,
    FilterRight,
    Search,
    /// Start on a pad, Escape on a keyboard.
    Menu,
}

/// The picture of a glyph on a device, where there is one.
pub open spec fn picture(mode: InputMode, glyph: Glyph) -> Option<Seq<char>> {
    match (mode, glyph) {
        (InputMode::Gamepad, Glyph::Confirm) => Some("xbox_button_color_a.png"@),
        (InputMode::Gamepad, Glyph::Back) => Some("xbox_button_color_b.png"@),
        (InputMode::Gamepad, Glyph::Navigate) => Some("xbox_dpad_all.png"@),
        (InputMode::Gamepad, Glyph::NavigateHorizontal) => Some("xbox_dpad_horizontal.png"@),
        (InputMode::Gamepad, Glyph::TabLeft) => Some("xbox_lb.png"@),
        (InputMode::Gamepad, Glyph::TabRight) => Some("xbox_rb.png"@),
        (InputMode::Gamepad, Glyph::FilterLeft) => Some("xbox_lt.png"@),
        (InputMode::Gamepad, Glyph::FilterRight) => Some("xbox_rt.png"@),
        (InputMode::Gamepad, Glyph::Search) => Some("xbox_button_color_y.png"@),
        (InputMode::Gamepad, Glyph::Menu) => Some("xbox_button_menu.png"@),
        (InputMode::Keyboard, Glyph::Confirm) => Some("keyboard_enter.png"@),
        (InputMode::Keyboard, Glyph::Back) => Some("keyboard_escape.png"@),
        (InputMode::Keyboard, Glyph::Navigate) => Some("keyboard_arrows_all.png"@),
        (InputMode::Keyboard, Glyph::NavigateHorizontal) => Some(
            "keyboard_arrows_horizontal.png"@,
        ),
        (InputMode::Keyboard, Glyph::TabLeft) => Some("keyboard_q.png"@),
        (InputMode::Keyboard, Glyph::TabRight) => Some("keyboard_e.png"@),
        (InputMode::Keyboard, Glyph::FilterRight) => Some("keyboard_tab.png"@),
        (InputMode::Keyboard, Glyph::Search) => Some("keyboard_slash_forward.png"@),
        (InputMode::Keyboard, Glyph::Menu) => Some("keyboard_escape.png"@),
        _ => None,
    }
}

/// The file that holds a glyph's picture on a device, where there is one.
pub fn glyph_file(mode: InputMode, glyph: Glyph) -> (r: Option<&'static str>)
    ensures
        r matches Some(file) ==> picture(mode, glyph) == Some(file@),
        r is None ==> picture(mode, glyph) is None,
{
    match (mode, glyph) {
        (InputMode::Gamepad, Glyph::Confirm) => Some("xbox_button_color_a.png"),
        (InputMode::Gamepad, Glyph::Back) => Some("xbox_button_color_b.png"),
        (InputMode::Gamepad, Glyph::Navigate) => Some("xbox_dpad_all.png"),
        (InputMode::Gamepad, Glyph::NavigateHorizontal) => Some("xbox_dpad_horizontal.png"),
        (InputMode::Gamepad, Glyph::TabLeft) => Some("xbox_lb.png"),
        (InputMode::Gamepad, Glyph::TabRight) => Some("xbox_rb.png"),
        (InputMode::Gamepad, Glyph::FilterLeft) => Some("xbox_lt.png"),
        (InputMode::Gamepad, Glyph::FilterRight) => Some("xbox_rt.png"),
        (InputMode::Gamepad, Glyph::Search) => Some("xbox_button_color_y.png"),
        (InputMode::Gamepad, Glyph::Menu) => Some("xbox_button_menu.png"),
        (InputMode::Keyboard, Glyph::Confirm) => Some("keyboard_enter.png"),
        (InputMode::Keyboard, Glyph::Back) => Some("keyboard_escape.png"),
        (InputMode::Keyboard, Glyph::Navigate) => Some("keyboard_arrows_all.png"),
        (InputMode::Keyboard, Glyph::NavigateHorizontal) => Some("keyboard_arrows_horizontal.png"),
        (InputMode::Keyboard, Glyph::TabLeft) => Some("keyboard_q.png"),
        (InputMode::Keyboard, Glyph::TabRight) => Some("keyboard_e.png"),
        (InputMode::Keyboard, Glyph::FilterRight) => Some("keyboard_tab.png"),
        (InputMode::Keyboard, Glyph::Search) => Some("keyboard_slash_forward.png"),
        (InputMode::Keyboard, Glyph::Menu) => Some("keyboard_escape.png"),
        _ => None,
    }
}

/// Touch shows no glyph.
pub proof fn touch_has_no_glyphs(glyph: Glyph)
    ensures
        picture(InputMode::Touch, glyph) is None,
{
}

} // verus!
