use pfauterminal::hotkeys::{
    digit_to_code, key_name_to_logical_char, key_name_to_physical, letter_to_code,
    named_key_to_code, parse_key_binding, physical_code_to_base_symbol, HotkeyAction,
    HotkeyConfig, KeyCode,
};

fn chars(s: &str) -> Vec<char> {
    s.chars().collect()
}

fn bindings_of(cfg: &HotkeyConfig, action: HotkeyAction) -> Option<Vec<String>> {
    cfg.hotkeys.iter().find(|(a, _)| *a == action).map(|(_, k)| k.clone())
}

#[test]
fn parse_binding_with_dashes() {
    let b = parse_key_binding("⌘-Shift-T");
    assert!(b.super_key && b.shift && !b.ctrl && !b.alt);
    assert_eq!(b.key, "T");
}

#[test]
fn parse_binding_with_plus() {
    let b = parse_key_binding("Ctrl+⌘+F");
    assert!(b.ctrl && b.super_key && !b.shift && !b.alt);
    assert_eq!(b.key, "F");
}

#[test]
fn parse_binding_minus_key() {
    let b = parse_key_binding("⌘--");
    assert!(b.super_key);
    assert_eq!(b.key, "-");
    let c = parse_key_binding("Ctrl-Shift--");
    assert!(c.ctrl && c.shift);
    assert_eq!(c.key, "-");
}

#[test]
fn parse_binding_plain_key_and_option_symbol() {
    let b = parse_key_binding("F11");
    assert!(!b.ctrl && !b.alt && !b.shift && !b.super_key);
    assert_eq!(b.key, "F11");
    let o = parse_key_binding("⌥-PageUp");
    assert!(o.alt);
    assert_eq!(o.key, "PageUp");
    let only_mod = parse_key_binding("Shift");
    assert_eq!(only_mod.key, "Shift");
}

#[test]
fn key_name_classification() {
    assert_eq!(key_name_to_physical(&chars("t")), Some(KeyCode::KeyT));
    assert_eq!(key_name_to_physical(&chars("7")), Some(KeyCode::Digit7));
    assert_eq!(key_name_to_physical(&chars("Esc")), Some(KeyCode::Escape));
    assert_eq!(key_name_to_physical(&chars("Return")), Some(KeyCode::Enter));
    assert_eq!(key_name_to_physical(&chars("=")), None);
    assert_eq!(key_name_to_logical_char(&chars("=")), Some('='));
    assert_eq!(key_name_to_logical_char(&chars("a")), None);
    assert_eq!(key_name_to_logical_char(&chars("PageUp")), None);
    assert_eq!(named_key_to_code(&chars("F12")), Some(KeyCode::F12));
    assert_eq!(named_key_to_code(&chars("Nope")), None);
    assert_eq!(letter_to_code('q'), Some(KeyCode::KeyQ));
    assert_eq!(letter_to_code('1'), None);
    assert_eq!(digit_to_code('0'), Some(KeyCode::Digit0));
    assert_eq!(physical_code_to_base_symbol(KeyCode::Equal), Some('='));
    assert_eq!(physical_code_to_base_symbol(KeyCode::KeyA), None);
}

#[test]
fn macos_defaults_match_keys() {
    let lookup = HotkeyConfig::macos_defaults().build_lookup();
    assert_eq!(
        lookup.match_key(KeyCode::KeyT, Some('t'), false, false, false, true),
        Some(HotkeyAction::NewTab)
    );
    assert_eq!(
        lookup.match_key(KeyCode::KeyT, Some('T'), false, false, true, true),
        Some(HotkeyAction::ReopenTab)
    );
    // ⌘-Shift-= produces '+', found through the key's base symbol
    assert_eq!(
        lookup.match_key(KeyCode::Equal, Some('+'), false, false, true, true),
        Some(HotkeyAction::ZoomIn)
    );
    assert_eq!(
        lookup.match_key(KeyCode::Minus, Some('-'), false, false, false, true),
        Some(HotkeyAction::ZoomOut)
    );
    assert_eq!(
        lookup.match_key(KeyCode::KeyF, Some('f'), true, false, false, true),
        Some(HotkeyAction::ToggleFullscreen)
    );
    assert_eq!(
        lookup.match_key(KeyCode::F11, None, false, false, false, false),
        Some(HotkeyAction::ToggleFullscreen)
    );
    assert_eq!(lookup.match_key(KeyCode::KeyT, Some('t'), false, false, false, false), None);
}

#[test]
fn linux_defaults_match_keys() {
    let cfg = HotkeyConfig::linux_defaults();
    assert_eq!(bindings_of(&cfg, HotkeyAction::Clear), Some(Vec::new()));
    assert_eq!(bindings_of(&cfg, HotkeyAction::Home), None);
    let lookup = cfg.build_lookup();
    assert_eq!(
        lookup.match_key(KeyCode::KeyT, Some('T'), true, false, true, false),
        Some(HotkeyAction::NewTab)
    );
    assert_eq!(
        lookup.match_key(KeyCode::Digit0, Some('0'), false, true, false, false),
        Some(HotkeyAction::Tab10)
    );
    assert_eq!(
        lookup.match_key(KeyCode::Insert, None, false, false, true, false),
        Some(HotkeyAction::Paste)
    );
    assert_eq!(
        lookup.match_key(KeyCode::Comma, Some(','), true, false, false, false),
        Some(HotkeyAction::Settings)
    );
}

#[test]
fn user_bindings_override_defaults() {
    let mut cfg = HotkeyConfig::macos_defaults();
    let mut user = HotkeyConfig::new();
    user.set_bindings(HotkeyAction::NewTab, vec!["Ctrl-Shift-Y".to_string()]);
    user.set_bindings(HotkeyAction::Copy, Vec::new());
    cfg.merge_user(user);
    assert_eq!(bindings_of(&cfg, HotkeyAction::NewTab), Some(vec!["Ctrl-Shift-Y".to_string()]));
    assert_eq!(bindings_of(&cfg, HotkeyAction::Copy), Some(Vec::new()));
    assert_eq!(bindings_of(&cfg, HotkeyAction::Paste), Some(vec!["⌘-V".to_string()]));
    let lookup = cfg.build_lookup();
    assert_eq!(lookup.match_key(KeyCode::KeyT, Some('t'), false, false, false, true), None);
    assert_eq!(
        lookup.match_key(KeyCode::KeyY, Some('Y'), true, false, true, false),
        Some(HotkeyAction::NewTab)
    );
    assert_eq!(lookup.match_key(KeyCode::KeyC, Some('c'), false, false, false, true), None);
}

#[test]
fn set_bindings_replaces_previous() {
    let mut cfg = HotkeyConfig::new();
    cfg.set_bindings(HotkeyAction::Search, vec!["⌘-F".to_string()]);
    cfg.set_bindings(HotkeyAction::Search, vec!["⌘-G".to_string(), "F3".to_string()]);
    assert_eq!(cfg.hotkeys.len(), 1);
    assert_eq!(
        bindings_of(&cfg, HotkeyAction::Search),
        Some(vec!["⌘-G".to_string(), "F3".to_string()])
    );
}

#[test]
fn plus_and_minus_separate_alike() {
    let a = parse_key_binding("Ctrl+⌘+F");
    let b = parse_key_binding("Ctrl-⌘-F");
    assert!(a.ctrl && a.super_key && !a.alt && !a.shift);
    assert_eq!((a.ctrl, a.alt, a.shift, a.super_key), (b.ctrl, b.alt, b.shift, b.super_key));
    assert_eq!(a.key, "F");
    assert_eq!(a.key, b.key);
}
