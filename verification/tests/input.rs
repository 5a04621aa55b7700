//! Keys for the front end and keys for the editor.

use sven_tui::input::{is_reserved_key, to_nvim_notation, KeyCode, KeyEvent, KeyModifiers};

fn press(code: KeyCode, mods: KeyModifiers) -> KeyEvent {
    KeyEvent { code, modifiers: mods }
}

#[test]
fn pane_switch_prefix_ctrl_w_is_reserved() {
    let event = press(KeyCode::Char('w'), KeyModifiers::control());
    assert!(is_reserved_key(&event), "Ctrl+W must be reserved for pane-switch prefix");
}

#[test]
fn ctrl_c_not_reserved() {
    let event = press(KeyCode::Char('c'), KeyModifiers::control());
    assert!(!is_reserved_key(&event));
}

#[test]
fn pager_ctrl_t_is_reserved() {
    let event = press(KeyCode::Char('t'), KeyModifiers::control());
    assert!(is_reserved_key(&event), "Ctrl+T must be reserved for pager");
}

#[test]
fn help_f1_is_reserved() {
    let event = press(KeyCode::F(1), KeyModifiers::none());
    assert!(is_reserved_key(&event), "F1 must be reserved for help");
}

#[test]
fn mode_cycle_f4_is_reserved() {
    let event = press(KeyCode::F(4), KeyModifiers::none());
    assert!(is_reserved_key(&event), "F4 must be reserved for mode cycle");
}

#[test]
fn vim_motion_and_editing_keys_are_not_reserved() {
    let vim_keys = ['h', 'j', 'k', 'l', 'i', 'o', 'v', 'G', 'g', 'z', 'Z', 'c', 'd', 'y', 'p'];
    for c in vim_keys {
        let event = press(KeyCode::Char(c), KeyModifiers::none());
        assert!(!is_reserved_key(&event), "vim key '{c}' must not be reserved");
    }
}

#[test]
fn arrow_and_navigation_keys_are_not_reserved() {
    let nav_keys = [
        KeyCode::Up,
        KeyCode::Down,
        KeyCode::Left,
        KeyCode::Right,
        KeyCode::PageUp,
        KeyCode::PageDown,
        KeyCode::Home,
        KeyCode::End,
    ];
    for code in nav_keys {
        let event = press(code, KeyModifiers::none());
        assert!(!is_reserved_key(&event), "{code:?} must not be reserved");
    }
}

#[test]
fn escape_is_not_reserved() {
    let event = press(KeyCode::Esc, KeyModifiers::none());
    assert!(!is_reserved_key(&event), "Esc must not be reserved (Neovim handles it)");
}

#[test]
fn plain_alphabetic_char_passes_through_unchanged() {
    let cases = [('j', "j"), ('G', "G"), ('i', "i"), ('z', "z")];
    for (c, expected) in cases {
        let result = to_nvim_notation(&press(KeyCode::Char(c), KeyModifiers::none()));
        assert_eq!(result, Some(expected.into()), "char '{c}'");
    }
}

#[test]
fn ctrl_char_encoded_as_angle_bracket_c_notation() {
    let cases = [('u', "<C-u>"), ('d', "<C-d>"), ('r', "<C-r>"), ('o', "<C-o>")];
    for (c, expected) in cases {
        let result = to_nvim_notation(&press(KeyCode::Char(c), KeyModifiers::control()));
        assert_eq!(result, Some(expected.into()), "Ctrl+{c}");
    }
}

#[test]
fn special_keys_encoded_with_angle_bracket_names() {
    let cases: &[(KeyCode, &str)] = &[
        (KeyCode::Esc, "<Esc>"),
        (KeyCode::Enter, "<CR>"),
        (KeyCode::Backspace, "<BS>"),
        (KeyCode::Delete, "<Del>"),
        (KeyCode::Tab, "<Tab>"),
    ];
    for (code, expected) in cases {
        let result = to_nvim_notation(&press(*code, KeyModifiers::none()));
        assert_eq!(result, Some((*expected).into()), "{code:?}");
    }
}

#[test]
fn directional_keys_encoded_with_direction_names() {
    let cases: &[(KeyCode, &str)] = &[
        (KeyCode::Up, "<Up>"),
        (KeyCode::Down, "<Down>"),
        (KeyCode::Left, "<Left>"),
        (KeyCode::Right, "<Right>"),
    ];
    for (code, expected) in cases {
        let result = to_nvim_notation(&press(*code, KeyModifiers::none()));
        assert_eq!(result, Some((*expected).into()), "{code:?}");
    }
}

#[test]
fn page_and_function_keys_encoded_correctly() {
    let cases: &[(KeyCode, &str)] = &[
        (KeyCode::PageUp, "<PageUp>"),
        (KeyCode::PageDown, "<PageDown>"),
        (KeyCode::F(1), "<F1>"),
        (KeyCode::F(5), "<F5>"),
        (KeyCode::F(12), "<F12>"),
    ];
    for (code, expected) in cases {
        let result = to_nvim_notation(&press(*code, KeyModifiers::none()));
        assert_eq!(result, Some((*expected).into()), "{code:?}");
    }
}

#[test]
fn a_search_slash_is_reserved_and_other_keys_have_no_notation() {
    assert!(is_reserved_key(&press(KeyCode::Char('/'), KeyModifiers::none())));
    assert!(!is_reserved_key(&press(KeyCode::Char('/'), KeyModifiers::shift())));
    assert_eq!(to_nvim_notation(&press(KeyCode::Other, KeyModifiers::none())), None);
}

#[test]
fn modifiers_are_written() {
    assert_eq!(
        to_nvim_notation(&press(KeyCode::Char('x'), KeyModifiers::alt())),
        Some("<A-x>".into())
    );
    assert_eq!(
        to_nvim_notation(&press(KeyCode::Char('a'), KeyModifiers::shift())),
        Some("A".into())
    );
    assert_eq!(
        to_nvim_notation(&press(KeyCode::Char('\u{e9}'), KeyModifiers::shift())),
        Some("\u{c9}".into())
    );
}
