use pfauterminal::controller::PointerIcon;
use pfauterminal::ssh::SshAuth;
use pfauterminal::ssh_dialog::{
    accepted_result, auth_menu_entries, cursor_for_hit, next_field, AuthMethod, DialogHit,
    DialogKey, DialogOutcome, FocusedField, SshDialog, SshResult, DEFAULT_KEY_PATH,
};
use pfauterminal::dropdown::MenuEntry;

fn result(host: &str, port: &str, method: AuthMethod) -> SshResult {
    SshResult {
        host: host.to_string(),
        port: port.to_string(),
        username: "me".to_string(),
        auth_method: method,
        password: "pw".to_string(),
        key_path: "~/.ssh/k".to_string(),
        passphrase: String::new(),
    }
}

#[test]
fn auth_method_labels_and_indices() {
    assert_eq!(AuthMethod::Password.display_text(), "Password");
    assert_eq!(AuthMethod::Key.display_text(), "Key pair");
    assert_eq!(AuthMethod::Agent.display_text(), "OpenSSH config and authentication agent");
    assert_eq!(AuthMethod::from_index(1), Some(AuthMethod::Key));
    assert_eq!(AuthMethod::from_index(3), None);
}

#[test]
fn auth_menu_lists_the_methods() {
    let entries = auth_menu_entries();
    assert_eq!(entries.len(), 3);
    let labels: Vec<String> = entries
        .iter()
        .map(|e| match e {
            MenuEntry::Item(it) => it.label.clone(),
            MenuEntry::Separator => String::new(),
        })
        .collect();
    assert_eq!(labels, vec!["Password", "Key pair", "OpenSSH config and authentication agent"]);
}

#[test]
fn tab_order_follows_auth_method() {
    assert_eq!(next_field(FocusedField::Host, AuthMethod::Agent), FocusedField::Port);
    assert_eq!(next_field(FocusedField::Username, AuthMethod::Password), FocusedField::Password);
    assert_eq!(next_field(FocusedField::Username, AuthMethod::Key), FocusedField::KeyPath);
    assert_eq!(next_field(FocusedField::Username, AuthMethod::Agent), FocusedField::Host);
    assert_eq!(next_field(FocusedField::KeyPath, AuthMethod::Key), FocusedField::Passphrase);
    assert_eq!(next_field(FocusedField::Passphrase, AuthMethod::Key), FocusedField::Host);
}

#[test]
fn result_to_config() {
    let c = result("h", "2200", AuthMethod::Password).to_ssh_config();
    assert_eq!(c.host, "h");
    assert_eq!(c.port, 2200);
    assert!(matches!(c.auth, SshAuth::Password(ref p) if p == "pw"));
    let k = result("h", "not a port", AuthMethod::Key).to_ssh_config();
    assert_eq!(k.port, 22);
    assert!(matches!(k.auth, SshAuth::Key { ref path, passphrase: None } if path == "~/.ssh/k"));
    let a = result("h", "+22", AuthMethod::Agent).to_ssh_config();
    assert_eq!(a.port, 22);
    assert!(matches!(a.auth, SshAuth::Agent));
}

#[test]
fn new_dialog_defaults() {
    let d = SshDialog::new();
    assert_eq!(d.auth_method(), AuthMethod::Agent);
    assert_eq!(d.focused_field(), FocusedField::Host);
    assert!(!d.is_auth_dropdown_open());
    assert_eq!(d.field(FocusedField::Port).value(), "22");
    assert_eq!(d.field(FocusedField::KeyPath).display_text(), DEFAULT_KEY_PATH);
}

#[test]
fn typing_tab_and_enter_submit() {
    let mut d = SshDialog::new();
    d.insert_text("example.com");
    assert!(d.handle_key(DialogKey::Tab, None).is_none());
    assert_eq!(d.focused_field(), FocusedField::Port);
    d.handle_key(DialogKey::Tab, None);
    d.handle_key(DialogKey::Other, Some("root"));
    let r = d.handle_key(DialogKey::Enter, None).expect("submitted");
    assert_eq!(r.host, "example.com");
    assert_eq!(r.port, "22");
    assert_eq!(r.username, "root");
    assert_eq!(r.auth_method, AuthMethod::Agent);
    assert_eq!(r.key_path, DEFAULT_KEY_PATH);
}

#[test]
fn choosing_key_auth_focuses_key_path() {
    let mut d = SshDialog::new();
    d.handle_click(DialogHit::AuthDropdown, 0);
    assert!(d.is_auth_dropdown_open());
    d.handle_click(DialogHit::DropdownItem(1), 0);
    assert!(!d.is_auth_dropdown_open());
    assert_eq!(d.auth_method(), AuthMethod::Key);
    assert_eq!(d.focused_field(), FocusedField::KeyPath);
    d.set_key_path("~/.ssh/work");
    let r = d.handle_click(DialogHit::OkButton, 0).expect("submitted");
    assert_eq!(r.key_path, "~/.ssh/work");
}

#[test]
fn key_with_open_menu_only_closes_it() {
    let mut d = SshDialog::new();
    d.set_auth_dropdown_open(true);
    assert!(d.handle_key(DialogKey::Enter, None).is_none());
    assert!(!d.is_auth_dropdown_open());
}

#[test]
fn window_events_cancel_browse_and_submit() {
    let mut d = SshDialog::new();
    assert!(matches!(d.click_in_window(DialogHit::CancelButton, 0), DialogOutcome::Cancel));
    assert!(matches!(d.click_in_window(DialogHit::BrowseButton, 0), DialogOutcome::PickKeyFile));
    // no host: OK does not close the dialog
    assert!(matches!(d.click_in_window(DialogHit::OkButton, 0), DialogOutcome::Continue));
    d.set_auth_dropdown_open(true);
    assert!(matches!(d.key_in_window(true, None, DialogKey::Other, None), DialogOutcome::Continue));
    assert!(!d.is_auth_dropdown_open());
    assert!(matches!(d.key_in_window(true, None, DialogKey::Other, None), DialogOutcome::Cancel));
    assert!(matches!(
        d.key_in_window(false, Some("server"), DialogKey::Other, None),
        DialogOutcome::Continue
    ));
    match d.key_in_window(false, None, DialogKey::Enter, None) {
        DialogOutcome::Submit(r) => assert_eq!(r.host, "server"),
        other => panic!("unexpected {:?}", other),
    }
}

#[test]
fn accepted_result_needs_a_host() {
    assert!(accepted_result(Some(result("", "22", AuthMethod::Agent))).is_none());
    assert!(accepted_result(Some(result("h", "22", AuthMethod::Agent))).is_some());
    assert!(accepted_result(None).is_none());
}

#[test]
fn pointer_over_dialog_elements() {
    assert_eq!(cursor_for_hit(DialogHit::OkButton), PointerIcon::Pointer);
    assert_eq!(cursor_for_hit(DialogHit::Field(FocusedField::Host)), PointerIcon::Text);
    assert_eq!(cursor_for_hit(DialogHit::Outside), PointerIcon::Default);
}
