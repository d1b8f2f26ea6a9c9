use pfauterminal::dropdown::{
    context_menu_entries, new_tab_menu_entries, DropdownElement, DropdownMenu, MenuAction,
    MenuEntry, ICON_ADD, ICON_TERMINAL,
};
use pfauterminal::saved_sessions::{SavedAuthType, SavedSession};

fn describe(e: &MenuEntry) -> String {
    match e {
        MenuEntry::Item(it) => format!("{}|{:?}|{:?}|{}", it.label, it.action, it.icon, it.closeable),
        MenuEntry::Separator => "---".to_string(),
    }
}

fn saved(user: &str, host: &str, port: u16) -> SavedSession {
    SavedSession {
        host: host.to_string(),
        port,
        username: user.to_string(),
        auth_type: SavedAuthType::Agent,
        key_path: None,
        last_used: 0,
    }
}

#[test]
fn new_tab_menu_with_sessions() {
    let shells = vec![
        ("Default (zsh)".to_string(), "/bin/zsh".to_string()),
        ("bash".to_string(), "/bin/bash".to_string()),
    ];
    let sessions = vec![saved("root", "a.example", 22), saved("me", "b.example", 2222)];
    let entries = new_tab_menu_entries(&shells, &sessions);
    let d: Vec<String> = entries.iter().map(describe).collect();
    assert_eq!(
        d,
        vec![
            "Default (zsh)|NewShell(\"/bin/zsh\")|None|false".to_string(),
            "bash|NewShell(\"/bin/bash\")|None|false".to_string(),
            "---".to_string(),
            format!("root@a.example|ConnectSavedSession(\"root@a.example:22\")|Some({})|true", ICON_TERMINAL),
            format!("me@b.example:2222|ConnectSavedSession(\"me@b.example:2222\")|Some({})|true", ICON_TERMINAL),
            "---".to_string(),
            format!("New SSH Session...|OpenSshDialog|Some({})|false", ICON_ADD),
        ]
    );
}

#[test]
fn new_tab_menu_without_sessions() {
    let shells = vec![("sh".to_string(), "/bin/sh".to_string())];
    let entries = new_tab_menu_entries(&shells, &[]);
    let d: Vec<String> = entries.iter().map(describe).collect();
    assert_eq!(d.len(), 3);
    assert_eq!(d[1], "---");
    assert!(d[2].starts_with("New SSH Session...|OpenSshDialog"));
}

#[test]
fn context_menu_depends_on_selection() {
    let with: Vec<String> = context_menu_entries(true).iter().map(describe).collect();
    assert_eq!(with, vec!["Copy|Copy|None|false", "Paste|Paste|None|false"]);
    let without: Vec<String> = context_menu_entries(false).iter().map(describe).collect();
    assert_eq!(without, vec!["Paste|Paste|None|false"]);
}

#[test]
fn open_menu_keeps_items_only() {
    let mut m = DropdownMenu::new();
    assert!(!m.is_open());
    let shells = vec![("sh".to_string(), "/bin/sh".to_string())];
    m.open_entries(new_tab_menu_entries(&shells, &[saved("u", "h", 22)]));
    assert!(m.is_open());
    assert_eq!(m.item_count(), 3);
    assert_eq!(m.label_of(1), Some("u@h"));
    assert!(m.is_closeable(1));
    assert!(!m.is_closeable(0));
    assert!(matches!(m.action_for(2), Some(MenuAction::OpenSshDialog)));
    assert!(m.action_for(3).is_none());
    assert_eq!(m.hover(), DropdownElement::Nothing);
}

#[test]
fn hover_reports_changes_and_close_resets() {
    let mut m = DropdownMenu::new();
    m.open_entries(context_menu_entries(true));
    assert!(m.set_hover(DropdownElement::Item(1)));
    assert!(!m.set_hover(DropdownElement::Item(1)));
    assert_eq!(m.hover(), DropdownElement::Item(1));
    m.close();
    assert!(!m.is_open());
    assert_eq!(m.hover(), DropdownElement::Nothing);
    assert_eq!(m.item_count(), 2);
}

#[test]
fn menu_action_copy_is_equal() {
    let a = MenuAction::ConnectSavedSession("k".to_string());
    assert!(matches!(a.copy(), MenuAction::ConnectSavedSession(ref k) if k == "k"));
}
