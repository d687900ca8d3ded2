use bitcoin_rpc_web::rpc_page::{RpcAction, RpcState};
use bitcoin_rpc_web::ui::{
    focus_input, handle_keyboard_shortcut, map_key_press, FocusField, Key, KeyboardShortcut,
    Modifiers, ShellState, ShortcutAction, Tab, ThemeName,
};

fn plain() -> Modifiers {
    Modifiers { shift: false, control: false, alt: false, logo: false }
}

fn shifted() -> Modifiers {
    Modifiers { shift: true, ..plain() }
}

fn character(c: &str) -> Key {
    Key::Character(c.to_string())
}

fn page() -> RpcState {
    RpcState::new(Err("no schema".to_string()))
}

#[test]
fn keys_stand_for_shortcuts() {
    assert_eq!(map_key_press(&character("?"), plain()), Some(KeyboardShortcut::ToggleHelp));
    assert_eq!(map_key_press(&character("?"), shifted()), Some(KeyboardShortcut::ToggleHelp));
    assert_eq!(map_key_press(&character("d"), plain()), Some(KeyboardShortcut::SwitchToDashboard));
    assert_eq!(map_key_press(&character("D"), plain()), Some(KeyboardShortcut::SwitchToDashboard));
    assert_eq!(map_key_press(&character("d"), shifted()), None);
    assert_eq!(map_key_press(&character("r"), plain()), Some(KeyboardShortcut::SwitchToRpc));
    assert_eq!(map_key_press(&character("C"), plain()), Some(KeyboardShortcut::SwitchToConfig));
    assert_eq!(map_key_press(&character("x"), plain()), None);
    assert_eq!(map_key_press(&Key::Tab, plain()), Some(KeyboardShortcut::FocusNextInput));
    assert_eq!(map_key_press(&Key::Tab, shifted()), Some(KeyboardShortcut::FocusPrevInput));
    assert_eq!(map_key_press(&Key::Enter, plain()), Some(KeyboardShortcut::ExecuteRpc));
    assert_eq!(map_key_press(&Key::Enter, shifted()), None);
    assert_eq!(map_key_press(&Key::Escape, shifted()), Some(KeyboardShortcut::CloseHelp));
    assert_eq!(map_key_press(&Key::Other, plain()), None);
    for held in [
        Modifiers { control: true, ..plain() },
        Modifiers { alt: true, ..plain() },
        Modifiers { logo: true, ..plain() },
    ] {
        assert_eq!(map_key_press(&character("?"), held), None);
        assert_eq!(map_key_press(&Key::Escape, held), None);
    }
}

#[test]
fn the_focus_goes_round_the_fields_of_the_page() {
    let mut shell = ShellState::new();
    assert!(matches!(focus_input(&mut shell, false, false), ShortcutAction::Idle));
    assert_eq!(shell.focused_input, None);

    shell.select_tab(Tab::Rpc);
    assert!(matches!(
        focus_input(&mut shell, false, false),
        ShortcutAction::Focus(FocusField::RpcSearch)
    ));
    assert!(matches!(
        focus_input(&mut shell, false, false),
        ShortcutAction::Focus(FocusField::RpcParams)
    ));
    assert!(matches!(
        focus_input(&mut shell, false, false),
        ShortcutAction::Focus(FocusField::RpcSearch)
    ));
    assert!(matches!(
        focus_input(&mut shell, true, true),
        ShortcutAction::Focus(FocusField::RpcBatch)
    ));
    assert_eq!(shell.focused_input, Some(FocusField::RpcBatch));
    assert!(matches!(
        focus_input(&mut shell, false, false),
        ShortcutAction::Focus(FocusField::RpcSearch)
    ));

    shell.select_tab(Tab::Config);
    assert_eq!(shell.focused_input, None);
    assert!(matches!(
        focus_input(&mut shell, false, true),
        ShortcutAction::Focus(FocusField::ConfigZmqBufferLimit)
    ));
    assert!(matches!(
        focus_input(&mut shell, false, false),
        ShortcutAction::Focus(FocusField::ConfigUrl)
    ));
    assert!(matches!(
        focus_input(&mut shell, false, false),
        ShortcutAction::Focus(FocusField::ConfigUser)
    ));
    assert!(matches!(
        focus_input(&mut shell, false, true),
        ShortcutAction::Focus(FocusField::ConfigUrl)
    ));
    assert!(matches!(
        focus_input(&mut shell, false, true),
        ShortcutAction::Focus(FocusField::ConfigZmqBufferLimit)
    ));
}

#[test]
fn shortcuts_switch_pages_and_toggle_the_help() {
    let mut shell = ShellState::new();
    let mut rpc = page();
    handle_keyboard_shortcut(&mut shell, &mut rpc, KeyboardShortcut::ToggleHelp);
    assert!(shell.shortcuts_visible);
    handle_keyboard_shortcut(&mut shell, &mut rpc, KeyboardShortcut::ToggleHelp);
    assert!(!shell.shortcuts_visible);
    handle_keyboard_shortcut(&mut shell, &mut rpc, KeyboardShortcut::ToggleHelp);
    handle_keyboard_shortcut(&mut shell, &mut rpc, KeyboardShortcut::CloseHelp);
    assert!(!shell.shortcuts_visible);
    handle_keyboard_shortcut(&mut shell, &mut rpc, KeyboardShortcut::SwitchToConfig);
    assert_eq!(shell.active_tab, Tab::Config);
    handle_keyboard_shortcut(&mut shell, &mut rpc, KeyboardShortcut::SwitchToRpc);
    assert_eq!(shell.active_tab, Tab::Rpc);
    handle_keyboard_shortcut(&mut shell, &mut rpc, KeyboardShortcut::SwitchToDashboard);
    assert_eq!(shell.active_tab, Tab::Dashboard);
}

#[test]
fn characters_are_typed_while_a_field_has_the_focus() {
    let mut shell = ShellState::new();
    let mut rpc = page();
    shell.select_tab(Tab::Rpc);
    handle_keyboard_shortcut(&mut shell, &mut rpc, KeyboardShortcut::FocusNextInput);
    assert_eq!(shell.focused_input, Some(FocusField::RpcSearch));
    handle_keyboard_shortcut(&mut shell, &mut rpc, KeyboardShortcut::SwitchToConfig);
    handle_keyboard_shortcut(&mut shell, &mut rpc, KeyboardShortcut::ToggleHelp);
    assert_eq!(shell.active_tab, Tab::Rpc);
    assert!(!shell.shortcuts_visible);
    handle_keyboard_shortcut(&mut shell, &mut rpc, KeyboardShortcut::FocusPrevInput);
    assert_eq!(shell.focused_input, Some(FocusField::RpcParams));
    handle_keyboard_shortcut(&mut shell, &mut rpc, KeyboardShortcut::CloseHelp);
    assert_eq!(shell.focused_input, Some(FocusField::RpcParams));
}

#[test]
fn enter_runs_a_call_on_its_page_only() {
    let mut shell = ShellState::new();
    let mut rpc = page();
    let action = handle_keyboard_shortcut(&mut shell, &mut rpc, KeyboardShortcut::ExecuteRpc);
    assert!(matches!(action, ShortcutAction::Idle));
    assert!(!rpc.execute_in_flight);

    shell.select_tab(Tab::Rpc);
    let action = handle_keyboard_shortcut(&mut shell, &mut rpc, KeyboardShortcut::ExecuteRpc);
    assert!(matches!(action, ShortcutAction::Rpc(RpcAction::RunSingle { .. })));
    assert!(rpc.execute_in_flight);
    let action = handle_keyboard_shortcut(&mut shell, &mut rpc, KeyboardShortcut::ExecuteRpc);
    assert!(matches!(action, ShortcutAction::Idle));
}

#[test]
fn the_frame_follows_its_settings() {
    let mut shell = ShellState::new();
    assert!(shell.sidebar_visible);
    shell.toggle_sidebar();
    assert!(!shell.sidebar_visible);
    shell.change_theme(ThemeName::Nord);
    assert_eq!(shell.theme_name, ThemeName::Nord);
    assert_eq!(shell.active_tab, Tab::Dashboard);
}
