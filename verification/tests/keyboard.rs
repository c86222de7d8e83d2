use cascade::entities::Command;
use cascade::entities::Direction;
use cascade::entities::VerticalDirection;
use cascade::entities::WindowInfo;
use cascade::geometry::Point;
use cascade::geometry::Rectangle;
use cascade::geometry::Size;
use cascade::keyboard::chord_key_token;
use cascade::keyboard::chord_lookup_token;
use cascade::keyboard::has_key_name;
use cascade::keyboard::holds_nul;
use cascade::keyboard::KEYSYM_MAX;
use cascade::keyboard::is_space;
use cascade::keyboard::ChordError;
use cascade::shortcuts::ActionShortcut;
use cascade::shortcuts::CommandShortcut;
use cascade::shortcuts::Keybinding;
use cascade::shortcuts::KeyboardShortcut;
use cascade::shortcuts::KeyboardShortcutsConfig;
use cascade::shortcuts::KEY_BACKSPACE;
use cascade::shortcuts::KEY_C;
use cascade::shortcuts::KEY_DOWN;
use cascade::shortcuts::KEY_END;
use cascade::shortcuts::KEY_F;
use cascade::shortcuts::KEY_HOME;
use cascade::shortcuts::KEY_LEFT;
use cascade::shortcuts::KEY_NO_SYMBOL;
use cascade::shortcuts::KEY_R;
use cascade::shortcuts::KEY_RIGHT;
use cascade::shortcuts::KEY_SPACE;
use cascade::shortcuts::KEY_UP;
use cascade::state::WindowManager;

fn chord(key: u32, alt: bool, ctrl: bool, logo: bool, shift: bool) -> Keybinding {
    Keybinding { alt, ctrl, logo, shift, key }
}

fn logo(key: u32) -> Keybinding {
    chord(key, false, false, true, false)
}

fn action(shortcut: ActionShortcut) -> Option<KeyboardShortcut> {
    Some(KeyboardShortcut::Action(shortcut))
}

fn surface(width: i32) -> WindowInfo {
    WindowInfo {
        can_receive_focus: true,
        maximized: false,
        fullscreen: false,
        resizing: false,
        has_parent: false,
        blocked_title: false,
        extents: Rectangle::new(Point::new(0, 0), Size::new(width, 800)),
        max_width: i32::MAX,
        max_height: i32::MAX,
    }
}

#[test]
fn key_token_is_the_last_one() {
    assert_eq!(chord_key_token("super+ctrl+Left"), "Left");
    assert_eq!(chord_key_token("Left"), "Left");
    assert_eq!(chord_key_token(" super + Left \t"), "Left");
    assert_eq!(chord_key_token("a++b"), "b");
    assert_eq!(chord_key_token("super+"), "");
    assert_eq!(chord_key_token(""), "");
    assert_eq!(chord_key_token("ctrl+\u{3000}\u{e9}t\u{e9}\u{a0}"), "\u{e9}t\u{e9}");
}

#[test]
fn white_space_is_recognized() {
    for c in [' ', '\t', '\n', '\r', '\u{b}', '\u{c}', '\u{85}', '\u{a0}', '\u{1680}', '\u{2000}']
    {
        assert!(is_space(c));
    }
    for c in ['\u{200a}', '\u{2028}', '\u{2029}', '\u{202f}', '\u{205f}', '\u{3000}'] {
        assert!(is_space(c));
    }
    for c in ['a', '+', '0', '\u{8}', '\u{e}', '\u{200b}', '\u{feff}'] {
        assert!(!is_space(c));
    }
}

#[test]
fn chord_reads_modifiers() {
    assert_eq!(
        Keybinding::from_chord("super+ctrl+Left", KEY_LEFT),
        Ok(chord(KEY_LEFT, false, true, true, false))
    );
    assert_eq!(Keybinding::from_chord("Left", KEY_LEFT), Ok(Keybinding::new(KEY_LEFT)));
    assert_eq!(
        Keybinding::from_chord("alt+shift+x", 0x78),
        Ok(chord(0x78, true, false, false, true))
    );
    assert_eq!(
        Keybinding::from_chord("logo+x", 0x78),
        Ok(chord(0x78, false, false, true, false))
    );
}

#[test]
fn chord_modifiers_ignore_case_and_space() {
    assert_eq!(
        Keybinding::from_chord(" SUPER + Alt+cTrL +  shift+x", 0x78),
        Ok(chord(0x78, true, true, true, true))
    );
    assert_eq!(
        Keybinding::from_chord("super+super+x", 0x78),
        Ok(chord(0x78, false, false, true, false))
    );
}

#[test]
fn chord_rejects_an_unknown_key() {
    assert_eq!(Keybinding::from_chord("super+nokey", KEY_NO_SYMBOL), Err(ChordError::InvalidKey));
    assert_eq!(Keybinding::from_chord("hyper+nokey", KEY_NO_SYMBOL), Err(ChordError::InvalidKey));
    assert_eq!(Keybinding::from_chord("", KEY_NO_SYMBOL), Err(ChordError::InvalidKey));
}

#[test]
fn chord_rejects_a_keysym_without_name() {
    assert_eq!(
        Keybinding::from_chord("super+x", KEYSYM_MAX),
        Ok(chord(KEYSYM_MAX, false, false, true, false))
    );
    assert_eq!(Keybinding::from_chord("super+x", KEYSYM_MAX + 1), Err(ChordError::InvalidKey));
    assert_eq!(Keybinding::from_chord("super+x", u32::MAX), Err(ChordError::InvalidKey));
    assert!(has_key_name(0));
    assert!(has_key_name(KEYSYM_MAX));
    assert!(!has_key_name(KEYSYM_MAX + 1));
}

#[test]
fn key_token_with_nul_is_not_looked_up() {
    assert!(holds_nul("Le\0ft"));
    assert!(!holds_nul("Left"));
    assert!(!holds_nul(""));
    assert_eq!(chord_lookup_token(" super + Left "), Some("Left"));
    assert_eq!(chord_lookup_token("super+Le\0ft"), None);
    assert_eq!(chord_lookup_token("su\0per+Left"), Some("Left"));
}

#[test]
fn chord_rejects_an_unknown_modifier() {
    assert_eq!(Keybinding::from_chord("hyper+x", 0x78), Err(ChordError::InvalidModifier));
    assert_eq!(Keybinding::from_chord("super+al+x", 0x78), Err(ChordError::InvalidModifier));
    assert_eq!(Keybinding::from_chord("+x", 0x78), Err(ChordError::InvalidModifier));
    assert_eq!(Keybinding::from_chord("super++x", 0x78), Err(ChordError::InvalidModifier));
    assert_eq!(Keybinding::from_chord("s\u{17f}per+x", 0x78), Err(ChordError::InvalidModifier));
}

#[test]
fn chord_writes_modifiers_in_order() {
    assert_eq!(chord(KEY_LEFT, true, true, true, true).to_chord("Left"), "alt+ctrl+shift+super+Left");
    assert_eq!(chord(KEY_LEFT, false, true, true, false).to_chord("Left"), "ctrl+super+Left");
    assert_eq!(Keybinding::new(0x78).to_chord("x"), "x");
}

#[test]
fn canonical_chords_round_trip() {
    for text in ["super+Left", "alt+ctrl+shift+super+r", "x", "ctrl+BackSpace", "shift+super+F1"] {
        let token = chord_key_token(text);
        let read = Keybinding::from_chord(text, 77).expect("chord");
        assert_eq!(read.to_chord(token), text);
        assert_eq!(Keybinding::from_chord(&read.to_chord(token), 77), Ok(read));
    }
}

#[test]
fn default_bindings_are_complete() {
    let config = KeyboardShortcutsConfig::default();
    assert_eq!(config.bindings().len(), 19);
    assert_eq!(config, KeyboardShortcutsConfig::default_bindings());
    assert_eq!(config.get(&logo(KEY_HOME)).cloned(), action(ActionShortcut::NavigateToFirst));
    assert_eq!(config.get(&logo(KEY_END)).cloned(), action(ActionShortcut::NavigateToLast));
    for (key, direction) in [(KEY_LEFT, Direction::Left), (KEY_RIGHT, Direction::Right)] {
        assert_eq!(config.get(&logo(key)).cloned(), action(ActionShortcut::Navigate { direction }));
        assert_eq!(
            config.get(&chord(key, true, false, true, false)).cloned(),
            action(ActionShortcut::NavigateMonitor { direction })
        );
        assert_eq!(
            config.get(&chord(key, false, true, true, false)).cloned(),
            action(ActionShortcut::MoveWindow { direction })
        );
        assert_eq!(
            config.get(&chord(key, true, true, true, false)).cloned(),
            action(ActionShortcut::MoveWindowMonitor { direction })
        );
    }
    for (key, direction) in [(KEY_UP, VerticalDirection::Up), (KEY_DOWN, VerticalDirection::Down)]
    {
        assert_eq!(
            config.get(&logo(key)).cloned(),
            action(ActionShortcut::NavigateWorkspace { direction })
        );
        assert_eq!(
            config.get(&chord(key, false, true, true, false)).cloned(),
            action(ActionShortcut::MoveWindowWorkspace { direction })
        );
    }
    assert_eq!(
        config.get(&logo(KEY_R)).cloned(),
        action(ActionShortcut::ResizeWindow { steps: vec![330_000, 500_000, 660_000] })
    );
    assert_eq!(
        config.get(&logo(KEY_F)).cloned(),
        action(ActionShortcut::ResizeWindow { steps: vec![1_000_000] })
    );
    assert_eq!(config.get(&logo(KEY_C)).cloned(), action(ActionShortcut::CenterWindow));
    assert_eq!(config.get(&logo(KEY_BACKSPACE)).cloned(), action(ActionShortcut::CloseWindow));
    assert_eq!(config.get(&logo(KEY_SPACE)).cloned(), action(ActionShortcut::SwitchKeyboardLayout));
    assert_eq!(config.get(&Keybinding::new(KEY_HOME)), None);
    assert_eq!(config.position(&logo(KEY_SPACE)), Some(18));
}

#[test]
fn insert_replaces_a_binding() {
    let mut config = KeyboardShortcutsConfig::new();
    assert_eq!(config.position(&logo(KEY_C)), None);
    config.insert(logo(KEY_C), KeyboardShortcut::Action(ActionShortcut::CenterWindow));
    config.insert(logo(KEY_F), KeyboardShortcut::Action(ActionShortcut::CloseWindow));
    config.insert(logo(KEY_C), KeyboardShortcut::Action(ActionShortcut::DebugPrintWindows));
    assert_eq!(config.bindings().len(), 2);
    assert_eq!(config.get(&logo(KEY_C)).cloned(), action(ActionShortcut::DebugPrintWindows));
    assert_eq!(config.position(&logo(KEY_F)), Some(1));
}

#[test]
fn key_press_triggers_the_binding() {
    let config = KeyboardShortcutsConfig::default();
    let mut wm = WindowManager::new(1, 2);
    wm.advise_application_zone_create(Rectangle::new(Point::new(0, 0), Size::new(1000, 800)));
    let first = wm.handle_window_ready(surface(300)).unwrap();
    let second = wm.handle_window_ready(surface(300)).unwrap();
    assert_eq!(wm.active_window(), Some(second));

    assert!(wm.handle_key_press(&config, &logo(KEY_LEFT), true));
    assert_eq!(wm.active_window(), Some(first));
    assert!(!wm.handle_key_press(&config, &logo(KEY_RIGHT), false));
    assert_eq!(wm.active_window(), Some(first));
    assert!(!wm.handle_key_press(&config, &Keybinding::new(KEY_RIGHT), true));
    assert_eq!(wm.active_window(), Some(first));
    assert!(wm.handle_key_press(&config, &logo(KEY_END), true));
    assert_eq!(wm.active_window(), Some(second));
    assert!(wm.handle_key_press(&config, &logo(KEY_HOME), true));
    assert_eq!(wm.active_window(), Some(first));

    assert!(wm.handle_key_press(&config, &chord(KEY_RIGHT, false, true, true, false), true));
    let workspace = wm.active_workspace().unwrap();
    assert_eq!(wm.get_workspace(workspace).unwrap().windows(), &vec![second, first]);

    assert!(wm.handle_key_press(&config, &logo(KEY_R), true));
    assert_eq!(wm.get_window(first).unwrap().size.width, 330);
    assert!(wm.handle_key_press(&config, &logo(KEY_F), true));
    assert_eq!(wm.get_window(first).unwrap().size.width, 1000);

    wm.take_commands();
    assert!(wm.handle_key_press(&config, &logo(KEY_BACKSPACE), true));
    assert!(wm.handle_key_press(&config, &logo(KEY_SPACE), true));
    assert!(wm.handle_key_press(&config, &logo(KEY_SPACE), true));
    assert_eq!(
        wm.take_commands(),
        vec![
            Command::AskClientToClose { window: first },
            Command::SetKeyboardLayout { index: 1 },
            Command::SetKeyboardLayout { index: 0 },
        ]
    );
}

#[test]
fn command_shortcut_is_handed_on() {
    let mut config = KeyboardShortcutsConfig::new();
    config.insert(logo(KEY_C), KeyboardShortcut::Action(ActionShortcut::DebugPrintWindows));
    config.insert(
        logo(0x61),
        KeyboardShortcut::Command(CommandShortcut {
            cmd: "ulauncher-toggle".to_string(),
            args: vec![],
        }),
    );
    let mut wm = WindowManager::new(1, 0);
    assert!(wm.handle_key_press(&config, &logo(0x61), true));
    assert!(wm.handle_key_press(&config, &logo(KEY_C), true));
    assert!(wm.handle_key_press(&config, &logo(KEY_C), true));
    assert_eq!(wm.take_commands(), vec![Command::Spawn { shortcut: 1 }]);
    wm.switch_keyboard_layout();
    assert!(wm.take_commands().is_empty());
}
