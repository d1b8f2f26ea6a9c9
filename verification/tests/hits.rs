use pfauterminal::dropdown::{context_menu_entries, new_tab_menu_entries, DropdownElement, DropdownMenu};
use pfauterminal::hits::first_index;
use pfauterminal::saved_sessions::{SavedAuthType, SavedSession};
use pfauterminal::ssh_dialog::{AuthMethod, DialogHit, DialogShapes, FocusedField, SshDialog};
use pfauterminal::tab_bar::{TabBar, TabBarElement};

fn no_shapes() -> DialogShapes {
    DialogShapes {
        host: false,
        port: false,
        username: false,
        auth_control: false,
        password: false,
        key_path: false,
        browse: false,
        passphrase: false,
        cancel: false,
        ok: false,
    }
}

#[test]
fn first_index_finds_first_true() {
    assert_eq!(first_index(&[false, true, true]), Some(1));
    assert_eq!(first_index(&[false, false]), None);
    assert_eq!(first_index(&[]), None);
}

#[test]
fn tab_bar_close_buttons_need_active_or_hover() {
    let mut bar = TabBar::new();
    bar.set_active(1);
    // on the close button of tab 0, which is neither active nor hovered: the tab body wins
    assert_eq!(bar.resolve_hit(&[true, false], &[true, false], false), TabBarElement::Tab(0));
    assert_eq!(bar.resolve_hit(&[false, true], &[false, true], false), TabBarElement::CloseButton(1));
    assert!(bar.set_hover(TabBarElement::Tab(0)));
    assert!(!bar.set_hover(TabBarElement::Tab(0)));
    assert_eq!(bar.resolve_hit(&[true, false], &[true, false], false), TabBarElement::CloseButton(0));
    assert_eq!(bar.resolve_hit(&[false, false], &[false, false], true), TabBarElement::PlusButton);
    assert_eq!(bar.resolve_hit(&[false, false], &[false, false], false), TabBarElement::Nothing);
    assert_eq!(bar.active(), 1);
    assert_eq!(bar.hover(), TabBarElement::Tab(0));
}

#[test]
fn menu_hits_prefer_close_buttons_of_closeable_items() {
    let mut m = DropdownMenu::new();
    assert_eq!(m.resolve_hit(&[], &[true]), DropdownElement::Nothing);
    let shells = vec![("sh".to_string(), "/bin/sh".to_string())];
    let session = SavedSession {
        host: "h".to_string(),
        port: 22,
        username: "u".to_string(),
        auth_type: SavedAuthType::Agent,
        key_path: None,
        last_used: 0,
    };
    m.open_entries(new_tab_menu_entries(&shells, &[session]));
    assert_eq!(m.resolve_hit(&[false, true, false], &[false, true, false]), DropdownElement::CloseButton(1));
    assert_eq!(m.resolve_hit(&[true, false, false], &[true, false, false]), DropdownElement::Item(0));
    assert_eq!(m.resolve_hit(&[false, false, false], &[false, false, false]), DropdownElement::Nothing);
    m.open_entries(context_menu_entries(true));
    assert_eq!(m.resolve_hit(&[false, false], &[false, true]), DropdownElement::Item(1));
}

#[test]
fn dialog_hits_follow_auth_method() {
    let mut d = SshDialog::new();
    let key = DialogShapes { key_path: true, ..no_shapes() };
    assert_eq!(d.resolve_hit(key, DropdownElement::Nothing, false), DialogHit::Inside);
    d.handle_click(DialogHit::AuthDropdown, 0);
    assert_eq!(d.resolve_hit(key, DropdownElement::Item(1), false), DialogHit::DropdownItem(1));
    assert_eq!(d.resolve_hit(key, DropdownElement::Nothing, true), DialogHit::Outside);
    assert_eq!(d.resolve_hit(key, DropdownElement::Nothing, false), DialogHit::Inside);
    d.handle_click(DialogHit::DropdownItem(1), 0);
    assert_eq!(d.auth_method(), AuthMethod::Key);
    assert_eq!(d.resolve_hit(key, DropdownElement::Nothing, false), DialogHit::Field(FocusedField::KeyPath));
    let both = DialogShapes { host: true, ok: true, ..no_shapes() };
    assert_eq!(d.resolve_hit(both, DropdownElement::Nothing, false), DialogHit::Field(FocusedField::Host));
    let ok = DialogShapes { ok: true, ..no_shapes() };
    assert_eq!(d.resolve_hit(ok, DropdownElement::Nothing, false), DialogHit::OkButton);
}
