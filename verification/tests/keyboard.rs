//! Shortcuts, layouts and physical keys.

use speed_test::app::Tab;
use speed_test::input::{map_vk, modifiers_of};
use speed_test::keys::{
    binding, editor_key, is_ctrl_c, logical_char, normalize_char, resolve, resolve_logical,
    scope_of, Action, EditorKey, KeyCode, KeyEvent, KeyEventKind, KeyModifiers, Scope, KEYMAP_LEN,
};
use speed_test::style::Color;

fn key(code: KeyCode, mods: KeyModifiers) -> KeyEvent {
    KeyEvent::new(code, mods)
}

fn plain(code: KeyCode) -> KeyEvent {
    key(code, KeyModifiers::none())
}

#[test]
fn universal_keys_work_regardless_of_layout() {
    assert_eq!(resolve(&plain(KeyCode::F(5)), Tab::Test), Some(Action::RefreshConnection));
    assert_eq!(resolve(&plain(KeyCode::Insert), Tab::Test), Some(Action::ToggleContinuous));
    assert_eq!(resolve(&plain(KeyCode::Enter), Tab::Test), Some(Action::StartStopTest));
    assert_eq!(resolve(&plain(KeyCode::F(2)), Tab::Help), Some(Action::TabMonitor));
    assert_eq!(resolve(&plain(KeyCode::Delete), Tab::History), Some(Action::DeleteEntry));
    assert_eq!(resolve(&plain(KeyCode::Esc), Tab::Test), Some(Action::CancelTest));
}

#[test]
fn letters_match_across_translated_layouts() {
    // Physical M on Russian ЙЦУКЕН produces 'ь'.
    assert_eq!(resolve(&plain(KeyCode::Char('ь')), Tab::Test), Some(Action::ToggleContinuous));
    // Physical R produces 'к' on Russian.
    assert_eq!(resolve(&plain(KeyCode::Char('к')), Tab::Monitor), Some(Action::RefreshConnection));
    // English upper/lowercase both match.
    assert_eq!(resolve(&plain(KeyCode::Char('M')), Tab::Test), Some(Action::ToggleContinuous));
    assert_eq!(resolve(&plain(KeyCode::Char('m')), Tab::Test), Some(Action::ToggleContinuous));
}

#[test]
fn a_logical_character_decides_for_letter_keys() {
    let key = plain(KeyCode::Char('?'));
    assert_eq!(resolve_logical(&key, Some('q'), Tab::Help), Some(Action::Quit));
    assert_eq!(resolve_logical(&key, Some('g'), Tab::Monitor), Some(Action::ToggleGaming));
    assert_eq!(resolve_logical(&key, Some('g'), Tab::Test), None);
    assert_eq!(resolve_logical(&key, None, Tab::Test), None);
    // Capital letters of the Russian layout too.
    assert_eq!(resolve(&plain(KeyCode::Char('Ь')), Tab::Test), Some(Action::ToggleContinuous));
}

#[test]
fn scoped_keys_do_not_leak_across_tabs() {
    // Enter means different things per tab.
    assert_eq!(resolve(&plain(KeyCode::Enter), Tab::Monitor), Some(Action::MonitorToggle));
    // F6 gaming exists only on monitor scope.
    assert_eq!(resolve(&plain(KeyCode::F(6)), Tab::Monitor), Some(Action::ToggleGaming));
    assert_eq!(resolve(&plain(KeyCode::F(6)), Tab::Test), None);
}

#[test]
fn every_action_has_at_least_one_universal_binding() {
    for i in 0..KEYMAP_LEN {
        let def = binding(i);
        let universal = def.keys.iter().any(|k| {
            matches!(
                k,
                KeyCode::F(_)
                    | KeyCode::Insert
                    | KeyCode::Delete
                    | KeyCode::Backspace
                    | KeyCode::Enter
                    | KeyCode::Esc
                    | KeyCode::Tab
                    | KeyCode::BackTab
                    | KeyCode::Up
                    | KeyCode::Down
                    | KeyCode::Left
                    | KeyCode::Right
            )
        });
        assert!(universal, "{:?} lacks a layout-independent binding", def.action);
    }
}

#[test]
fn ctrl_c_detected_and_alt_rejected() {
    assert!(is_ctrl_c(&key(KeyCode::Char('c'), KeyModifiers::control())));
    assert_eq!(resolve(&key(KeyCode::Char('q'), KeyModifiers::alt()), Tab::Test), None);
}

#[test]
fn letters_map_from_physical_positions() {
    assert_eq!(map_vk(0x4D_u16, false), Some(KeyCode::Char('m'))); // VK_M
    assert_eq!(map_vk(0x51_u16, false), Some(KeyCode::Char('q'))); // VK_Q
    assert_eq!(map_vk(0x52_u16, false), Some(KeyCode::Char('r'))); // VK_R
}

#[test]
fn universal_keys_map() {
    assert_eq!(map_vk(0x70_u16, false), Some(KeyCode::F(1))); // VK_F1
    assert_eq!(map_vk(0x7B_u16, false), Some(KeyCode::F(12))); // VK_F12
    assert_eq!(map_vk(0x0D_u16, false), Some(KeyCode::Enter)); // VK_RETURN
    assert_eq!(map_vk(0x2D_u16, false), Some(KeyCode::Insert)); // VK_INSERT
    assert_eq!(map_vk(0x09_u16, true), Some(KeyCode::BackTab)); // SHIFT+TAB
    assert_eq!(map_vk(0x14_u16, false), None); // caps lock: unmapped
}

#[test]
fn physical_digits_and_edges_map() {
    assert_eq!(map_vk(0x30, false), Some(KeyCode::Char('0')));
    assert_eq!(map_vk(0x39, true), Some(KeyCode::Char('9')));
    assert_eq!(map_vk(0x5A, false), Some(KeyCode::Char('z')));
    assert_eq!(map_vk(0x87, false), Some(KeyCode::F(24)));
    assert_eq!(map_vk(0x88, false), None);
    assert_eq!(map_vk(0x09, false), Some(KeyCode::Tab));
}

#[test]
fn control_key_state_gives_modifiers() {
    let m = modifiers_of(0x0010 | 0x0008 | 0x0001);
    assert!(m.shift && m.control && m.alt);
    assert_eq!(modifiers_of(0x0020), KeyModifiers::none());
    assert_eq!(modifiers_of(0x0004), KeyModifiers::control());
}

#[test]
fn modem_tab_has_its_own_shortcuts() {
    assert_eq!(resolve(&plain(KeyCode::F(9)), Tab::Test), Some(Action::TabDsl));
    assert_eq!(resolve(&plain(KeyCode::Enter), Tab::Dsl), Some(Action::DslPauseResume));
    assert_eq!(resolve(&plain(KeyCode::F(7)), Tab::Dsl), Some(Action::EditModem));
    assert_eq!(resolve(&plain(KeyCode::F(7)), Tab::Monitor), Some(Action::EditTarget));
    assert_eq!(resolve(&plain(KeyCode::Char('c')), Tab::Dsl), Some(Action::ClearModemLog));
    assert_eq!(scope_of(Tab::Dsl), Scope::Dsl);
    assert_eq!(scope_of(Tab::Help), Scope::History);
    assert_eq!(Scope::Dsl.label(), "MODEM");
    assert_eq!(Scope::Dsl.color(), Color::LightMagenta);
}

#[test]
fn shift_is_for_letters_and_backtab_only() {
    let shift = KeyModifiers::shift();
    assert_eq!(
        resolve(&key(KeyCode::Char('M'), shift), Tab::Test),
        Some(Action::ToggleContinuous)
    );
    assert_eq!(resolve(&key(KeyCode::BackTab, shift), Tab::Test), Some(Action::TabPrev));
    assert_eq!(resolve(&key(KeyCode::F(5), shift), Tab::Test), None);
    assert_eq!(resolve(&key(KeyCode::F(5), KeyModifiers::control()), Tab::Test), None);
}

#[test]
fn characters_are_normalized() {
    assert_eq!(normalize_char('Ь'), 'm');
    assert_eq!(normalize_char('Q'), 'q');
    assert_eq!(normalize_char('7'), '7');
    assert_eq!(logical_char(&plain(KeyCode::Char('К'))), Some('r'));
    assert_eq!(logical_char(&plain(KeyCode::Enter)), None);
}

#[test]
fn editor_keys_are_told_apart() {
    assert_eq!(editor_key(&plain(KeyCode::Enter)), EditorKey::Confirm);
    assert_eq!(editor_key(&plain(KeyCode::Esc)), EditorKey::Cancel);
    assert_eq!(editor_key(&plain(KeyCode::Backspace)), EditorKey::Backspace);
    assert_eq!(editor_key(&plain(KeyCode::Char('ж'))), EditorKey::Char('ж'));
    assert_eq!(editor_key(&plain(KeyCode::F(1))), EditorKey::Ignored);
}

#[test]
fn new_key_events_are_presses() {
    assert_eq!(plain(KeyCode::Tab).kind, KeyEventKind::Press);
    assert!(!is_ctrl_c(&plain(KeyCode::Char('c'))));
    assert!(is_ctrl_c(&key(KeyCode::Char('C'), KeyModifiers::control())));
}

#[test]
fn ctrl_c_works_on_every_layout() {
    let ctrl = |c: char| key(KeyCode::Char(c), KeyModifiers::control());
    // Physical C on the Russian layout, small and capital.
    assert!(is_ctrl_c(&ctrl('\u{0441}')));
    assert!(is_ctrl_c(&ctrl('\u{0421}')));
    assert!(!is_ctrl_c(&plain(KeyCode::Char('\u{0441}'))));
    assert!(!is_ctrl_c(&ctrl('в')));
    assert!(!is_ctrl_c(&key(KeyCode::F(3), KeyModifiers::control())));
}

#[test]
fn capital_letters_of_other_layouts_are_translated() {
    let small = "йцукенгшщзфывапролдячсмить";
    let capital = "ЙЦУКЕНГШЩЗФЫВАПРОЛДЯЧСМИТЬ";
    let us = "qwertyuiopasdfghjklzxcvbnm";
    for ((a, b), c) in small.chars().zip(capital.chars()).zip(us.chars()) {
        assert_eq!(normalize_char(a), c);
        assert_eq!(normalize_char(b), c);
        assert_eq!(normalize_char(c), c);
    }
    assert_eq!(normalize_char('Ж'), 'ж');
    assert_eq!(normalize_char('Ä'), 'ä');
}

#[test]
fn every_action_is_bound_once() {
    let mut seen: Vec<Action> = Vec::new();
    for i in 0..KEYMAP_LEN {
        let def = binding(i);
        assert!(!seen.contains(&def.action));
        assert_eq!(def.keys.len(), def.labels.len());
        seen.push(def.action);
    }
    assert_eq!(seen.len(), 25);
}
