use grout::autostart::{toggle_autostart, toggled_autostart, EditError};
use grout::hotkey::{hotkey_action, virtual_key, MOD_ALT, MOD_CONTROL, MOD_NOREPEAT, MOD_SHIFT, MOD_WIN};
use grout::navigation::{next_window, order_window_list, previous_window, WindowPlace};
use grout::overlay::{profile_name, GridKey, KeyResponse};
use grout::{
    parse_hotkey, Config, Grid, GridConfig, GridConfigKey, GridConfigs, Hotkey, HotkeyAction,
    HotkeyError, HotkeyType, OrderingDirection, Rect, Window,
};

fn chars(s: &str) -> Vec<char> {
    s.chars().collect()
}

#[test]
fn parse_main_hotkey() {
    assert_eq!(
        parse_hotkey(&chars("CTRL+ALT+S")),
        Ok(Hotkey { modifiers: MOD_CONTROL | MOD_ALT | MOD_NOREPEAT, key: 'S' })
    );
}

#[test]
fn parse_hotkey_trims_spaces() {
    assert_eq!(
        parse_hotkey(&chars(" SHIFT + WIN +  Q ")),
        Ok(Hotkey { modifiers: MOD_SHIFT | MOD_WIN | MOD_NOREPEAT, key: 'Q' })
    );
}

#[test]
fn parse_hotkey_length_errors() {
    assert_eq!(parse_hotkey(&chars("S")), Err(HotkeyError::Length));
    assert_eq!(parse_hotkey(&chars("")), Err(HotkeyError::Length));
    assert_eq!(parse_hotkey(&chars("CTRL+ALT+SHIFT+WIN+CTRL+X")), Err(HotkeyError::Length));
    assert!(parse_hotkey(&chars("CTRL+ALT+SHIFT+WIN+X")).is_ok());
}

#[test]
fn parse_hotkey_empty_key() {
    assert_eq!(parse_hotkey(&chars("CTRL+ ")), Err(HotkeyError::EmptyKey));
}

#[test]
fn parse_hotkey_unknown_modifier() {
    assert_eq!(parse_hotkey(&chars("CTRL+META+K")), Err(HotkeyError::Modifier));
    assert_eq!(parse_hotkey(&chars("ctrl+K")), Err(HotkeyError::Modifier));
}

#[test]
fn virtual_key_low_byte() {
    assert_eq!(virtual_key(-1), None);
    assert_eq!(virtual_key(0x0153), Some(0x53));
    assert_eq!(virtual_key(0x41), Some(0x41));
}

#[test]
fn hotkey_actions() {
    assert_eq!(hotkey_action(HotkeyType::Maximize, true), HotkeyAction::Maximize);
    assert_eq!(hotkey_action(HotkeyType::Main, true), HotkeyAction::CloseOverlay);
    assert_eq!(hotkey_action(HotkeyType::Exit, true), HotkeyAction::CloseOverlay);
    assert_eq!(hotkey_action(HotkeyType::Main, false), HotkeyAction::OpenOverlay { quick_resize: false });
    assert_eq!(
        hotkey_action(HotkeyType::QuickResize, false),
        HotkeyAction::OpenOverlay { quick_resize: true }
    );
    assert_eq!(
        hotkey_action(HotkeyType::NavigateLeft, false),
        HotkeyAction::FocusPrevious(OrderingDirection::Horizontal)
    );
    assert_eq!(
        hotkey_action(HotkeyType::NavigateDown, false),
        HotkeyAction::FocusNext(OrderingDirection::Vertical)
    );
    assert_eq!(
        hotkey_action(HotkeyType::NavigateUp, false),
        HotkeyAction::FocusPrevious(OrderingDirection::Vertical)
    );
    assert_eq!(
        hotkey_action(HotkeyType::NavigateRight, false),
        HotkeyAction::FocusNext(OrderingDirection::Horizontal)
    );
    assert_eq!(hotkey_action(HotkeyType::Exit, false), HotkeyAction::Exit);
}

fn place(id: isize, left: i32, top: i32, pid: u32) -> WindowPlace {
    WindowPlace { window: Window(id), left, top, right: left + 100, bottom: top + 100, process_id: pid }
}

#[test]
fn order_windows_horizontally_and_vertically() {
    let list = vec![place(1, 300, 0, 1), place(2, 0, 500, 1), place(3, 0, 100, 2), place(4, 0, 100, 1)];
    let mut across = list.clone();
    order_window_list(&mut across, OrderingDirection::Horizontal);
    let ids: Vec<isize> = across.iter().map(|p| p.window.0).collect();
    assert_eq!(ids, vec![4, 3, 2, 1]);
    let mut down = list.clone();
    order_window_list(&mut down, OrderingDirection::Vertical);
    let ids: Vec<isize> = down.iter().map(|p| p.window.0).collect();
    assert_eq!(ids, vec![1, 4, 3, 2]);
}

#[test]
fn order_empty_list() {
    let mut empty: Vec<WindowPlace> = Vec::new();
    order_window_list(&mut empty, OrderingDirection::Vertical);
    assert!(empty.is_empty());
}

#[test]
fn next_and_previous_wrap() {
    let ws = [Window(1), Window(2), Window(3)];
    assert_eq!(next_window(&ws, Window(1)), Some(Window(2)));
    assert_eq!(next_window(&ws, Window(3)), Some(Window(1)));
    assert_eq!(next_window(&ws, Window(9)), Some(Window(3)));
    assert_eq!(previous_window(&ws, Window(1)), Some(Window(3)));
    assert_eq!(previous_window(&ws, Window(2)), Some(Window(1)));
    assert_eq!(previous_window(&ws, Window(9)), Some(Window(1)));
    assert_eq!(next_window(&[], Window(1)), None);
    assert_eq!(previous_window(&[], Window(1)), None);
}

#[test]
fn toggled_autostart_values() {
    assert!(!toggled_autostart(Some(true)));
    assert!(toggled_autostart(Some(false)));
    assert!(!toggled_autostart(None));
}

#[test]
fn toggle_autostart_flips_setting_and_keeps_rest() {
    let text = "# comment\nmargins = 10\nauto_start = true\n";
    let out = toggle_autostart(text).unwrap();
    assert!(out.contains("auto_start = false"));
    assert!(out.contains("# comment"));
    assert!(out.contains("margins = 10"));
    let back = toggle_autostart(&out).unwrap();
    assert!(back.contains("auto_start = true"));
}

#[test]
fn toggle_autostart_when_missing_turns_off() {
    let out = toggle_autostart("margins = 10\n").unwrap();
    assert!(out.contains("auto_start = false"));
}

#[test]
fn toggle_autostart_rejects_invalid_toml() {
    assert_eq!(toggle_autostart("this is = = not toml"), Err(EditError::InvalidToml));
}

#[test]
fn profile_names() {
    assert_eq!(profile_name(1), Some("Default".to_string()));
    assert_eq!(profile_name(4), Some("Profile4".to_string()));
    assert_eq!(profile_name(7), None);
    assert_eq!(profile_name(0), None);
}

fn grid() -> Grid {
    let key = GridConfigKey::new("M".to_string(), "Default".to_string());
    let mut configs = GridConfigs::new();
    configs.upsert(&key, GridConfig { rows: 2, columns: 2 });
    Grid::new(&Config::default(), configs, key, Rect { x: 0, y: 0, width: 1920, height: 1080 })
}

#[test]
fn arrows_reshape_only_with_control() {
    let mut g = grid();
    assert_eq!(g.key_down(GridKey::Up), KeyResponse::Nothing);
    assert_eq!(g.rows(), 2);
    assert_eq!(g.key_down(GridKey::Control), KeyResponse::Nothing);
    assert!(g.control_down);
    assert_eq!(g.key_down(GridKey::Up), KeyResponse::Reposition);
    assert_eq!(g.key_down(GridKey::Right), KeyResponse::Reposition);
    assert_eq!((g.rows(), g.columns()), (3, 3));
    assert_eq!(g.key_down(GridKey::Down), KeyResponse::Reposition);
    assert_eq!(g.key_down(GridKey::Left), KeyResponse::Reposition);
    assert_eq!((g.rows(), g.columns()), (2, 2));
    assert_eq!(g.key_up(GridKey::Control), KeyResponse::Nothing);
    assert!(!g.control_down);
}

#[test]
fn escape_shift_and_function_keys() {
    let mut g = grid();
    assert_eq!(g.key_down(GridKey::Escape), KeyResponse::Close);
    assert_eq!(g.key_down(GridKey::Shift), KeyResponse::Nothing);
    assert!(g.shift_down);
    assert_eq!(g.key_up(GridKey::Shift), KeyResponse::Nothing);
    assert!(!g.shift_down);
    assert_eq!(g.key_up(GridKey::Function(3)), KeyResponse::SwitchProfile(3));
    assert_eq!(g.key_up(GridKey::Other), KeyResponse::Nothing);
}
