//! The SSH session form: its fields, focus order, the authentication
//! choice, keys and clicks, and the result it submits. Layout, hit testing
//! and drawing are the renderer's part, which hands this module the element
//! that was hit and the character position of a click.
use vstd::prelude::*;

use crate::controller::PointerIcon;
use crate::dropdown::{entry_action, is_item, opens_shell, DropdownElement, MenuAction, MenuEntry};
use crate::ssh::{SshAuth, SshConfig};
use crate::text::{chars_of, copy_string, parse_u16, spec_parse_u16};
use crate::widgets::{
    field_wf, spec_delete_back, spec_delete_forward, spec_insert_text, spec_move_end,
    spec_move_home, spec_move_left, spec_move_right, TextField, TextFieldView,
};

verus! {

/// The key file offered when none is given.
pub const DEFAULT_KEY_PATH: &'static str = "~/.ssh/id_ed25519";

/// Authentication method selected in the dialog.
#[derive(Debug, Clone, Copy, PartialEq, Eq, Structural)]
pub enum AuthMethod {
    Password,
    Key,
    Agent,
}

pub open spec fn spec_auth_display_text(m: AuthMethod) -> Seq<char> {
    match m {
        AuthMethod::Password => "Password"@,
        AuthMethod::Key => "Key pair"@,
        AuthMethod::Agent => "OpenSSH config and authentication agent"@,
    }
}

pub open spec fn spec_auth_from_index(idx: usize) -> Option<AuthMethod> {
    if idx == 0 {
        Some(AuthMethod::Password)
    } else if idx == 1 {
        Some(AuthMethod::Key)
    } else if idx == 2 {
        Some(AuthMethod::Agent)
    } else {
        None
    }
}

impl AuthMethod {
    /// The label of the method in the dialog.
    pub fn display_text(self) -> (r: &'static str)
        ensures
            r@ == spec_auth_display_text(self),
    {
        match self {
            AuthMethod::Password => "Password",
            AuthMethod::Key => "Key pair",
            AuthMethod::Agent => "OpenSSH config and authentication agent",
        }
    }

    /// The method at a position of the authentication menu.
    pub fn from_index(idx: usize) -> (r: Option<AuthMethod>)
        ensures
            r == spec_auth_from_index(idx),
    {
        match idx {
            0 => Some(AuthMethod::Password),
            1 => Some(AuthMethod::Key),
            2 => Some(AuthMethod::Agent),
            _ => None,
        }
    }
}

/// What the dialog submits when the user confirms.
#[derive(Debug)]
pub struct SshResult {
    pub host: String,
    pub port: String,
    pub username: String,
    pub auth_method: AuthMethod,
    pub password: String,
    pub key_path: String,
    pub passphrase: String,
}

/// The port of a result: its number, or 22 when it is not one.
pub open spec fn result_port(port: Seq<char>) -> u16 {
    match spec_parse_u16(port) {
        Some(p) => p,
        None => 22,
    }
}

/// The connection settings that a result describes.
pub open spec fn config_matches(r: SshResult, c: SshConfig) -> bool {
    &&& c.host@ == r.host@
    &&& c.port == result_port(r.port@)
    &&& c.username@ == r.username@
    &&& match r.auth_method {
        AuthMethod::Password => c.auth matches SshAuth::Password(p) && p@ == r.password@,
        AuthMethod::Key => c.auth matches SshAuth::Key { path, passphrase } && path@
            == r.key_path@ && (if r.passphrase@.len() == 0 {
            passphrase is None
        } else {
            passphrase matches Some(pp) && pp@ == r.passphrase@
        }),
        AuthMethod::Agent => c.auth is Agent,
    }
}

impl SshResult {
    /// The connection settings: the port parsed (22 when it is not a
    /// number), an empty passphrase meaning none.
    pub fn to_ssh_config(&self) -> (r: SshConfig)
        ensures
            config_matches(*self, r),
    {
        let pc = chars_of(self.port.as_str());
        let port = match parse_u16(pc.as_slice()) {
            Some(p) => p,
            None => 22,
        };
        let auth = match self.auth_method {
            AuthMethod::Password => SshAuth::Password(copy_string(self.password.as_str())),
            AuthMethod::Key => SshAuth::Key {
                path: copy_string(self.key_path.as_str()),
                passphrase: if self.passphrase.as_str().is_empty() {
                    None
                } else {
                    Some(copy_string(self.passphrase.as_str()))
                },
            },
            AuthMethod::Agent => SshAuth::Agent,
        };
        SshConfig {
            host: copy_string(self.host.as_str()),
            port,
            username: copy_string(self.username.as_str()),
            auth,
        }
    }
}

// ---------------------------------------------------------------------------
// The form
// ---------------------------------------------------------------------------

/// The text fields of the form.
#[derive(Debug, Clone, Copy, PartialEq, Eq, Structural)]
pub enum FocusedField {
    Host,
    Port,
    Username,
    Password,
    KeyPath,
    Passphrase,
}

/// The element of the dialog under the pointer.
#[derive(Debug, Clone, Copy, PartialEq, Eq, Structural)]
pub enum DialogHit {
    Field(FocusedField),
    AuthDropdown,
    DropdownItem(usize),
    BrowseButton,
    CancelButton,
    OkButton,
    Inside,
    Outside,
}

/// The keys the dialog handles; `Other` keys type their text.
#[derive(Debug, Clone, Copy, PartialEq, Eq, Structural)]
pub enum DialogKey {
    Enter,
    Tab,
    Backspace,
    Delete,
    ArrowLeft,
    ArrowRight,
    Home,
    End,
    Other,
}

pub open spec fn field_index(f: FocusedField) -> int {
    match f {
        FocusedField::Host => 0,
        FocusedField::Port => 1,
        FocusedField::Username => 2,
        FocusedField::Password => 3,
        FocusedField::KeyPath => 4,
        FocusedField::Passphrase => 5,
    }
}

fn field_index_exec(f: FocusedField) -> (r: usize)
    ensures
        r == field_index(f),
{
    match f {
        FocusedField::Host => 0,
        FocusedField::Port => 1,
        FocusedField::Username => 2,
        FocusedField::Password => 3,
        FocusedField::KeyPath => 4,
        FocusedField::Passphrase => 5,
    }
}

/// The field that Tab moves to: Host, Port, Username, then the field of
/// the authentication method (password, or key path then passphrase), then
/// back to Host.
pub open spec fn spec_next_field(f: FocusedField, m: AuthMethod) -> FocusedField {
    match (f, m) {
        (FocusedField::Username, AuthMethod::Password) => FocusedField::Password,
        (FocusedField::Username, AuthMethod::Key) => FocusedField::KeyPath,
        (FocusedField::Username, AuthMethod::Agent) => FocusedField::Host,
        (FocusedField::Password, _) => FocusedField::Host,
        (FocusedField::KeyPath, _) => FocusedField::Passphrase,
        (FocusedField::Passphrase, _) => FocusedField::Host,
        (FocusedField::Host, _) => FocusedField::Port,
        (FocusedField::Port, _) => FocusedField::Username,
    }
}

pub fn next_field(f: FocusedField, m: AuthMethod) -> (r: FocusedField)
    ensures
        r == spec_next_field(f, m),
{
    match (f, m) {
        (FocusedField::Username, AuthMethod::Password) => FocusedField::Password,
        (FocusedField::Username, AuthMethod::Key) => FocusedField::KeyPath,
        (FocusedField::Username, AuthMethod::Agent) => FocusedField::Host,
        (FocusedField::Password, _) => FocusedField::Host,
        (FocusedField::KeyPath, _) => FocusedField::Passphrase,
        (FocusedField::Passphrase, _) => FocusedField::Host,
        (FocusedField::Host, _) => FocusedField::Port,
        (FocusedField::Port, _) => FocusedField::Username,
    }
}

/// The state of the SSH session form.
#[derive(Debug)]
pub struct SshDialog {
    /// Host, port, username, password, key path and passphrase, in that order.
    fields: Vec<TextField>,
    auth_method: AuthMethod,
    focused_field: FocusedField,
    auth_dropdown_open: bool,
}

pub struct SshDialogView {
    pub fields: Seq<TextFieldView>,
    pub auth_method: AuthMethod,
    pub focused: FocusedField,
    pub dropdown_open: bool,
}

impl View for SshDialog {
    type V = SshDialogView;

    closed spec fn view(&self) -> SshDialogView {
        SshDialogView {
            fields: self.fields@.map_values(|f: TextField| f@),
            auth_method: self.auth_method,
            focused: self.focused_field,
            dropdown_open: self.auth_dropdown_open,
        }
    }
}

/// Six well-formed fields.
pub open spec fn dialog_wf(d: SshDialogView) -> bool {
    &&& d.fields.len() == 6
    &&& forall|i: int| 0 <= i < 6 ==> field_wf(#[trigger] d.fields[i])
}

/// The focused field after an edit.
pub open spec fn edit_focused(d: SshDialogView, f: TextFieldView) -> SshDialogView {
    SshDialogView { fields: d.fields.update(field_index(d.focused), f), ..d }
}

/// The dialog with `field` focused, the other fields unfocused.
pub open spec fn spec_set_focus(d: SshDialogView, field: FocusedField) -> SshDialogView {
    let old_i = field_index(d.focused);
    let new_i = field_index(field);
    let unfocused = d.fields.update(old_i, TextFieldView { focused: false, ..d.fields[old_i] });
    SshDialogView {
        fields: unfocused.update(new_i, TextFieldView { focused: true, ..unfocused[new_i] }),
        focused: field,
        ..d
    }
}

pub open spec fn field_text(d: SshDialogView, f: FocusedField) -> Seq<char> {
    d.fields[field_index(f)].value
}

/// The result that the form submits: its fields, the key path defaulting
/// to `~/.ssh/id_ed25519`.
pub open spec fn result_matches(d: SshDialogView, r: SshResult) -> bool {
    &&& r.host@ == field_text(d, FocusedField::Host)
    &&& r.port@ == field_text(d, FocusedField::Port)
    &&& r.username@ == field_text(d, FocusedField::Username)
    &&& r.auth_method == d.auth_method
    &&& r.password@ == field_text(d, FocusedField::Password)
    &&& r.key_path@ == (if field_text(d, FocusedField::KeyPath).len() == 0 {
        DEFAULT_KEY_PATH@
    } else {
        field_text(d, FocusedField::KeyPath)
    })
    &&& r.passphrase@ == field_text(d, FocusedField::Passphrase)
}

/// The effect of a key on the dialog (the result is stated apart): an
/// open menu closes; Tab moves the focus; editing keys edit the focused
/// field; other keys type their text into it.
pub open spec fn spec_handle_key(
    d: SshDialogView,
    key: DialogKey,
    text: Option<Seq<char>>,
) -> SshDialogView {
    let f = d.fields[field_index(d.focused)];
    if d.dropdown_open {
        SshDialogView { dropdown_open: false, ..d }
    } else {
        match key {
            DialogKey::Enter => d,
            DialogKey::Tab => spec_set_focus(d, spec_next_field(d.focused, d.auth_method)),
            DialogKey::Backspace => edit_focused(d, spec_delete_back(f)),
            DialogKey::Delete => edit_focused(d, spec_delete_forward(f)),
            DialogKey::ArrowLeft => edit_focused(d, spec_move_left(f, false)),
            DialogKey::ArrowRight => edit_focused(d, spec_move_right(f, false)),
            DialogKey::Home => edit_focused(d, spec_move_home(f, false)),
            DialogKey::End => edit_focused(d, spec_move_end(f, false)),
            DialogKey::Other => match text {
                Some(t) => edit_focused(d, spec_insert_text(f, t)),
                None => d,
            },
        }
    }
}

/// The effect of a click on the dialog (the result is stated apart). A
/// click in a field focuses it and puts its cursor at `char_pos`; the
/// authentication control opens or closes its menu; choosing a menu item
/// selects that method and focuses its first field when it changed.
pub open spec fn spec_handle_click(d: SshDialogView, hit: DialogHit, char_pos: usize) -> SshDialogView {
    match hit {
        DialogHit::Field(field) => {
            let g = spec_set_focus(SshDialogView { dropdown_open: false, ..d }, field);
            let f = g.fields[field_index(field)];
            edit_focused(
                g,
                TextFieldView {
                    cursor: crate::widgets::min_nat(char_pos as nat, f.value.len()),
                    anchor: None,
                    focused: true,
                    ..f
                },
            )
        },
        DialogHit::AuthDropdown => SshDialogView { dropdown_open: !d.dropdown_open, ..d },
        DialogHit::DropdownItem(idx) => match spec_auth_from_index(idx) {
            Some(method) => {
                let g = SshDialogView { auth_method: method, dropdown_open: false, ..d };
                if d.auth_method != method {
                    match method {
                        AuthMethod::Password => spec_set_focus(g, FocusedField::Password),
                        AuthMethod::Key => spec_set_focus(g, FocusedField::KeyPath),
                        AuthMethod::Agent => g,
                    }
                } else {
                    g
                }
            },
            None => d,
        },
        DialogHit::BrowseButton => d,
        DialogHit::Outside => SshDialogView { dropdown_open: false, ..d },
        DialogHit::OkButton => d,
        DialogHit::CancelButton => d,
        DialogHit::Inside => SshDialogView { dropdown_open: false, ..d },
    }
}

impl SshDialog {
    /// A fresh form: port 22, the key path placeholder, password fields
    /// hidden, agent authentication, the host field focused.
    pub fn new() -> (r: SshDialog)
        ensures
            dialog_wf(r@),
            r@.auth_method == AuthMethod::Agent,
            r@.focused == FocusedField::Host,
            !r@.dropdown_open,
            r@.fields[0].value.len() == 0 && r@.fields[0].focused,
            r@.fields[1].value == "22"@ && !r@.fields[1].focused,
            r@.fields[2].value.len() == 0 && !r@.fields[2].focused,
            r@.fields[3].value.len() == 0 && r@.fields[3].password && !r@.fields[3].focused,
            r@.fields[4].value.len() == 0 && r@.fields[4].placeholder == DEFAULT_KEY_PATH@
                && !r@.fields[4].focused,
            r@.fields[5].value.len() == 0 && r@.fields[5].password && !r@.fields[5].focused,
            forall|i: int| 0 <= i < 6 ==> (#[trigger] r@.fields[i]).anchor is None,
    {
        let mut host = TextField::new("", false);
        let mut port = TextField::new("", false);
        port.set_value("22");
        let username = TextField::new("", false);
        let password = TextField::new("", true);
        let keypath = TextField::new(DEFAULT_KEY_PATH, false);
        let passphrase = TextField::new("", true);
        host.set_focused(true);
        let mut fields: Vec<TextField> = Vec::new();
        fields.push(host);
        fields.push(port);
        fields.push(username);
        fields.push(password);
        fields.push(keypath);
        fields.push(passphrase);
        let d = SshDialog {
            fields,
            auth_method: AuthMethod::Agent,
            focused_field: FocusedField::Host,
            auth_dropdown_open: false,
        };
        proof {
            assert(d@.fields[0] == d.fields@[0]@);
            assert(d@.fields[1] == d.fields@[1]@);
            assert(d@.fields[2] == d.fields@[2]@);
            assert(d@.fields[3] == d.fields@[3]@);
            assert(d@.fields[4] == d.fields@[4]@);
            assert(d@.fields[5] == d.fields@[5]@);
        }
        d
    }

    pub fn auth_method(&self) -> (r: AuthMethod)
        ensures
            r == self@.auth_method,
    {
        self.auth_method
    }

    pub fn focused_field(&self) -> (r: FocusedField)
        ensures
            r == self@.focused,
    {
        self.focused_field
    }

    pub fn is_auth_dropdown_open(&self) -> (r: bool)
        ensures
            r == self@.dropdown_open,
    {
        self.auth_dropdown_open
    }

    /// Opens or closes the authentication menu.
    pub fn set_auth_dropdown_open(&mut self, open: bool)
        ensures
            final(self)@ == (SshDialogView { dropdown_open: open, ..old(self)@ }),
    {
        self.auth_dropdown_open = open;
        assert(final(self)@.fields =~= old(self)@.fields);
    }

    /// A field of the form.
    pub fn field(&self, f: FocusedField) -> (r: &TextField)
        requires
            dialog_wf(self@),
        ensures
            r@ == self@.fields[field_index(f)],
    {
        &self.fields[field_index_exec(f)]
    }

    /// Takes field `i` out for an edit; `put_field` puts it back.
    fn take_field(&mut self, i: usize) -> (r: TextField)
        requires
            i < old(self).fields@.len(),
        ensures
            r@ == old(self)@.fields[i as int],
            final(self).fields@ == old(self).fields@.remove(i as int),
            final(self).auth_method == old(self).auth_method,
            final(self).focused_field == old(self).focused_field,
            final(self).auth_dropdown_open == old(self).auth_dropdown_open,
    {
        self.fields.remove(i)
    }

    fn put_field(&mut self, i: usize, f: TextField)
        requires
            i <= old(self).fields@.len(),
        ensures
            final(self).fields@ == old(self).fields@.insert(i as int, f),
            final(self).auth_method == old(self).auth_method,
            final(self).focused_field == old(self).focused_field,
            final(self).auth_dropdown_open == old(self).auth_dropdown_open,
    {
        self.fields.insert(i, f);
    }

    /// Focuses `field`, unfocusing the field that had the focus.
    pub fn set_focus(&mut self, field: FocusedField)
        requires
            dialog_wf(old(self)@),
        ensures
            dialog_wf(final(self)@),
            final(self)@ == spec_set_focus(old(self)@, field),
    {
        let ghost d0 = self@;
        let oi = field_index_exec(self.focused_field);
        let mut f = self.take_field(oi);
        f.set_focused(false);
        self.put_field(oi, f);
        proof {
            let u = d0.fields.update(oi as int, TextFieldView { focused: false, ..d0.fields[oi as int] });
            assert(self@.fields =~= u);
        }
        let ghost d1 = self@;
        self.focused_field = field;
        let ni = field_index_exec(field);
        let mut g = self.take_field(ni);
        g.set_focused(true);
        self.put_field(ni, g);
        proof {
            let u = d1.fields.update(ni as int, TextFieldView { focused: true, ..d1.fields[ni as int] });
            assert(self@.fields =~= u);
            assert(self@ == spec_set_focus(d0, field));
        }
    }

    /// The result the form submits.
    pub fn build_result(&self) -> (r: SshResult)
        requires
            dialog_wf(self@),
        ensures
            result_matches(self@, r),
    {
        let key_path = {
            let k = self.field(FocusedField::KeyPath).value();
            if k.as_str().is_empty() {
                copy_string(DEFAULT_KEY_PATH)
            } else {
                k
            }
        };
        SshResult {
            host: self.field(FocusedField::Host).value(),
            port: self.field(FocusedField::Port).value(),
            username: self.field(FocusedField::Username).value(),
            auth_method: self.auth_method,
            password: self.field(FocusedField::Password).value(),
            key_path,
            passphrase: self.field(FocusedField::Passphrase).value(),
        }
    }

    /// Types `text` into the focused field.
    pub fn insert_text(&mut self, text: &str)
        requires
            dialog_wf(old(self)@),
        ensures
            dialog_wf(final(self)@),
            final(self)@ == edit_focused(
                old(self)@,
                spec_insert_text(old(self)@.fields[field_index(old(self)@.focused)], text@),
            ),
    {
        let ghost d0 = self@;
        let i = field_index_exec(self.focused_field);
        let mut f = self.take_field(i);
        f.insert_text(text);
        self.put_field(i, f);
        assert(self@.fields =~= d0.fields.update(i as int, f@));
    }

    /// Puts a chosen key file into the key path field.
    pub fn set_key_path(&mut self, path: &str)
        requires
            dialog_wf(old(self)@),
        ensures
            dialog_wf(final(self)@),
            final(self)@ == (SshDialogView {
                fields: old(self)@.fields.update(
                    4,
                    TextFieldView {
                        value: path@,
                        cursor: path@.len(),
                        anchor: None,
                        ..old(self)@.fields[4]
                    },
                ),
                ..old(self)@
            }),
    {
        let ghost d0 = self@;
        let mut f = self.take_field(4);
        f.set_value(path);
        self.put_field(4, f);
        assert(self@.fields =~= d0.fields.update(4, f@));
    }

    /// Handles a key press. Enter submits the form; other keys act on it as
    /// `spec_handle_key` says.
    pub fn handle_key(&mut self, key: DialogKey, text: Option<&str>) -> (r: Option<SshResult>)
        requires
            dialog_wf(old(self)@),
        ensures
            dialog_wf(final(self)@),
            final(self)@ == spec_handle_key(
                old(self)@,
                key,
                match text {
                    Some(t) => Some(t@),
                    None => None,
                },
            ),
            match r {
                Some(res) => !old(self)@.dropdown_open && key == DialogKey::Enter && result_matches(
                    old(self)@,
                    res,
                ),
                None => old(self)@.dropdown_open || key != DialogKey::Enter,
            },
    {
        if self.auth_dropdown_open {
            self.set_auth_dropdown_open(false);
            return None;
        }
        match key {
            DialogKey::Enter => {
                return Some(self.build_result());
            },
            DialogKey::Tab => {
                let next = next_field(self.focused_field, self.auth_method);
                self.set_focus(next);
                return None;
            },
            DialogKey::Other => {
                if let Some(t) = text {
                    self.insert_text(t);
                }
                return None;
            },
            _ => {},
        }
        let ghost d0 = self@;
        let i = field_index_exec(self.focused_field);
        let mut f = self.take_field(i);
        match key {
            DialogKey::Backspace => f.delete_back(),
            DialogKey::Delete => f.delete_forward(),
            DialogKey::ArrowLeft => f.move_left(false),
            DialogKey::ArrowRight => f.move_right(false),
            DialogKey::Home => f.move_home(false),
            _ => f.move_end(false),
        }
        self.put_field(i, f);
        assert(self@.fields =~= d0.fields.update(i as int, f@));
        None
    }

    /// Handles a click on `hit`; `char_pos` is the character position of
    /// the click within a field. The OK button submits the form.
    pub fn handle_click(&mut self, hit: DialogHit, char_pos: usize) -> (r: Option<SshResult>)
        requires
            dialog_wf(old(self)@),
        ensures
            dialog_wf(final(self)@),
            final(self)@ == spec_handle_click(old(self)@, hit, char_pos),
            match r {
                Some(res) => hit == DialogHit::OkButton && result_matches(old(self)@, res),
                None => hit != DialogHit::OkButton,
            },
    {
        match hit {
            DialogHit::Field(field) => {
                self.set_auth_dropdown_open(false);
                self.set_focus(field);
                let ghost d0 = self@;
                let i = field_index_exec(field);
                let mut f = self.take_field(i);
                f.click_at(char_pos);
                self.put_field(i, f);
                assert(self@.fields =~= d0.fields.update(i as int, f@));
                None
            },
            DialogHit::AuthDropdown => {
                let open = self.auth_dropdown_open;
                self.set_auth_dropdown_open(!open);
                None
            },
            DialogHit::DropdownItem(idx) => {
                if let Some(method) = AuthMethod::from_index(idx) {
                    let old_method = self.auth_method;
                    self.auth_method = method;
                    self.set_auth_dropdown_open(false);
                    if old_method != method {
                        match method {
                            AuthMethod::Password => self.set_focus(FocusedField::Password),
                            AuthMethod::Key => self.set_focus(FocusedField::KeyPath),
                            AuthMethod::Agent => {},
                        }
                    }
                }
                None
            },
            DialogHit::BrowseButton => None,
            DialogHit::Outside => {
                self.set_auth_dropdown_open(false);
                None
            },
            DialogHit::OkButton => Some(self.build_result()),
            DialogHit::CancelButton => None,
            DialogHit::Inside => {
                self.set_auth_dropdown_open(false);
                None
            },
        }
    }
}

/// A submitted result is used only when it names a host.
pub fn accepted_result(r: Option<SshResult>) -> (a: Option<SshResult>)
    ensures
        match r {
            Some(res) => if res.host@.len() > 0 {
                a == Some(res)
            } else {
                a is None
            },
            None => a is None,
        },
{
    match r {
        Some(res) => if res.host.as_str().is_empty() {
            None
        } else {
            Some(res)
        },
        None => None,
    }
}

/// The pointer's shape over an element of the dialog: a hand over buttons
/// and the authentication control, a text cursor over fields.
pub fn cursor_for_hit(hit: DialogHit) -> (r: PointerIcon)
    ensures
        r == (match hit {
            DialogHit::CancelButton | DialogHit::OkButton | DialogHit::AuthDropdown
            | DialogHit::BrowseButton => PointerIcon::Pointer,
            DialogHit::Field(_) => PointerIcon::Text,
            _ => PointerIcon::Default,
        }),
{
    match hit {
        DialogHit::CancelButton | DialogHit::OkButton | DialogHit::AuthDropdown
        | DialogHit::BrowseButton => PointerIcon::Pointer,
        DialogHit::Field(_) => PointerIcon::Text,
        _ => PointerIcon::Default,
    }
}

/// What the dialog's window does after an event.
#[derive(Debug)]
pub enum DialogOutcome {
    /// The dialog stays open.
    Continue,
    /// The dialog closes without a result.
    Cancel,
    /// The dialog closes with this result.
    Submit(SshResult),
    /// Let the user choose a key file (then [`SshDialog::set_key_path`]).
    PickKeyFile,
}

impl SshDialog {
    /// A click on `hit` in the dialog's window: Cancel closes it, Browse
    /// asks for a key file, anything else is [`SshDialog::handle_click`],
    /// whose result closes the dialog when it names a host.
    pub fn click_in_window(&mut self, hit: DialogHit, char_pos: usize) -> (r: DialogOutcome)
        requires
            dialog_wf(old(self)@),
        ensures
            dialog_wf(final(self)@),
            hit == DialogHit::CancelButton ==> r is Cancel && final(self)@ == old(self)@,
            hit == DialogHit::BrowseButton ==> r is PickKeyFile && final(self)@ == old(self)@,
            hit != DialogHit::CancelButton && hit != DialogHit::BrowseButton ==> {
                &&& final(self)@ == spec_handle_click(old(self)@, hit, char_pos)
                &&& match r {
                    DialogOutcome::Submit(res) => hit == DialogHit::OkButton && result_matches(
                        old(self)@,
                        res,
                    ) && res.host@.len() > 0,
                    DialogOutcome::Continue => !(hit == DialogHit::OkButton
                        && field_text(old(self)@, FocusedField::Host).len() > 0),
                    _ => false,
                }
            },
    {
        if hit == DialogHit::CancelButton {
            return DialogOutcome::Cancel;
        }
        if hit == DialogHit::BrowseButton {
            return DialogOutcome::PickKeyFile;
        }
        let res = self.handle_click(hit, char_pos);
        match accepted_result(res) {
            Some(r) => DialogOutcome::Submit(r),
            None => DialogOutcome::Continue,
        }
    }

    /// A key press in the dialog's window. Escape closes the open
    /// authentication menu, else cancels the dialog; a paste shortcut whose
    /// clipboard text could be read (`pasted`) types that text; any other
    /// key is [`SshDialog::handle_key`], whose result closes the dialog when
    /// it names a host.
    pub fn key_in_window(
        &mut self,
        escape: bool,
        pasted: Option<&str>,
        key: DialogKey,
        text: Option<&str>,
    ) -> (r: DialogOutcome)
        requires
            dialog_wf(old(self)@),
        ensures
            dialog_wf(final(self)@),
            escape && old(self)@.dropdown_open ==> r is Continue && final(self)@ == (SshDialogView {
                dropdown_open: false,
                ..old(self)@
            }),
            escape && !old(self)@.dropdown_open ==> r is Cancel && final(self)@ == old(self)@,
            !escape && pasted is Some ==> r is Continue && final(self)@ == edit_focused(
                old(self)@,
                spec_insert_text(
                    old(self)@.fields[field_index(old(self)@.focused)],
                    pasted->0@,
                ),
            ),
            !escape && pasted is None ==> {
                &&& final(self)@ == spec_handle_key(
                    old(self)@,
                    key,
                    match text {
                        Some(t) => Some(t@),
                        None => None,
                    },
                )
                &&& match r {
                    DialogOutcome::Submit(res) => !old(self)@.dropdown_open && key
                        == DialogKey::Enter && result_matches(old(self)@, res) && res.host@.len()
                        > 0,
                    DialogOutcome::Continue => !(!old(self)@.dropdown_open && key
                        == DialogKey::Enter && field_text(old(self)@, FocusedField::Host).len() > 0),
                    _ => false,
                }
            },
    {
        if escape {
            if self.auth_dropdown_open {
                self.set_auth_dropdown_open(false);
                return DialogOutcome::Continue;
            }
            return DialogOutcome::Cancel;
        }
        if let Some(t) = pasted {
            self.insert_text(t);
            return DialogOutcome::Continue;
        }
        let res = self.handle_key(key, text);
        match accepted_result(res) {
            Some(r) => DialogOutcome::Submit(r),
            None => DialogOutcome::Continue,
        }
    }
}

/// The entries of the authentication menu: the three methods, in the order
/// of [`AuthMethod::from_index`]. Their actions are placeholders: choosing
/// one goes by its position.
pub fn auth_menu_entries() -> (r: Vec<MenuEntry>)
    ensures
        r@.len() == 3,
        forall|i: int|
            0 <= i < 3 ==> is_item(
                #[trigger] r@[i],
                spec_auth_display_text(spec_auth_from_index(i as usize)->0),
                None,
                false,
            ) && opens_shell(entry_action(r@[i]), Seq::<char>::empty()),
{
    let mut v: Vec<MenuEntry> = Vec::new();
    v.push(MenuEntry::item(AuthMethod::Password.display_text(), MenuAction::NewShell(String::new())));
    v.push(MenuEntry::item(AuthMethod::Key.display_text(), MenuAction::NewShell(String::new())));
    v.push(MenuEntry::item(AuthMethod::Agent.display_text(), MenuAction::NewShell(String::new())));
    v
}

/// Which shapes of the dialog contain a point, as the renderer found them.
#[derive(Debug, Clone, Copy, PartialEq, Eq, Structural)]
pub struct DialogShapes {
    pub host: bool,
    pub port: bool,
    pub username: bool,
    pub auth_control: bool,
    pub password: bool,
    pub key_path: bool,
    pub browse: bool,
    pub passphrase: bool,
    pub cancel: bool,
    pub ok: bool,
}

/// What a point hits in the dialog. While the authentication menu is open
/// it takes the point: an item of it, else inside or outside it. Otherwise
/// the fields and controls are tried in order, the password field only for
/// password authentication and the key fields only for key
/// authentication; a point on none of them is inside the dialog.
pub open spec fn spec_resolve_dialog_hit(
    d: SshDialogView,
    shapes: DialogShapes,
    menu_hit: DropdownElement,
    outside_menu: bool,
) -> DialogHit {
    if d.dropdown_open {
        match menu_hit {
            DropdownElement::Item(i) => DialogHit::DropdownItem(i),
            _ => if outside_menu {
                DialogHit::Outside
            } else {
                DialogHit::Inside
            },
        }
    } else if shapes.host {
        DialogHit::Field(FocusedField::Host)
    } else if shapes.port {
        DialogHit::Field(FocusedField::Port)
    } else if shapes.username {
        DialogHit::Field(FocusedField::Username)
    } else if shapes.auth_control {
        DialogHit::AuthDropdown
    } else if d.auth_method == AuthMethod::Password && shapes.password {
        DialogHit::Field(FocusedField::Password)
    } else if d.auth_method == AuthMethod::Key && shapes.key_path {
        DialogHit::Field(FocusedField::KeyPath)
    } else if d.auth_method == AuthMethod::Key && shapes.browse {
        DialogHit::BrowseButton
    } else if d.auth_method == AuthMethod::Key && shapes.passphrase {
        DialogHit::Field(FocusedField::Passphrase)
    } else if shapes.cancel {
        DialogHit::CancelButton
    } else if shapes.ok {
        DialogHit::OkButton
    } else {
        DialogHit::Inside
    }
}

impl SshDialog {
    /// What a point hits in the dialog (see [`spec_resolve_dialog_hit`]);
    /// `menu_hit` and `outside_menu` are where the point falls in the
    /// authentication menu while it is open.
    pub fn resolve_hit(&self, shapes: DialogShapes, menu_hit: DropdownElement, outside_menu: bool) -> (r:
        DialogHit)
        ensures
            r == spec_resolve_dialog_hit(self@, shapes, menu_hit, outside_menu),
    {
        if self.auth_dropdown_open {
            return match menu_hit {
                DropdownElement::Item(i) => DialogHit::DropdownItem(i),
                _ => if outside_menu {
                    DialogHit::Outside
                } else {
                    DialogHit::Inside
                },
            };
        }
        if shapes.host {
            return DialogHit::Field(FocusedField::Host);
        }
        if shapes.port {
            return DialogHit::Field(FocusedField::Port);
        }
        if shapes.username {
            return DialogHit::Field(FocusedField::Username);
        }
        if shapes.auth_control {
            return DialogHit::AuthDropdown;
        }
        match self.auth_method {
            AuthMethod::Password => {
                if shapes.password {
                    return DialogHit::Field(FocusedField::Password);
                }
            },
            AuthMethod::Key => {
                if shapes.key_path {
                    return DialogHit::Field(FocusedField::KeyPath);
                }
                if shapes.browse {
                    return DialogHit::BrowseButton;
                }
                if shapes.passphrase {
                    return DialogHit::Field(FocusedField::Passphrase);
                }
            },
            AuthMethod::Agent => {},
        }
        if shapes.cancel {
            return DialogHit::CancelButton;
        }
        if shapes.ok {
            return DialogHit::OkButton;
        }
        DialogHit::Inside
    }
}

/// Tab cycles through the fields that the authentication method shows and
/// comes back to Host: after three presses with the agent (Host, Port,
/// Username), four with a password, five with a key pair.
pub proof fn law_tab_cycles_back_to_host(m: AuthMethod)
    ensures
        ({
            let f1 = spec_next_field(FocusedField::Host, m);
            let f2 = spec_next_field(f1, m);
            let f3 = spec_next_field(f2, m);
            let f4 = spec_next_field(f3, m);
            let f5 = spec_next_field(f4, m);
            &&& f1 == FocusedField::Port && f2 == FocusedField::Username
            &&& m == AuthMethod::Agent ==> f3 == FocusedField::Host
            &&& m == AuthMethod::Password ==> f3 == FocusedField::Password && f4
                == FocusedField::Host
            &&& m == AuthMethod::Key ==> f3 == FocusedField::KeyPath && f4
                == FocusedField::Passphrase && f5 == FocusedField::Host
        }),
{
}


/// The editing keys act on the focused field only, as the field's own keys
/// do: Backspace as its Backspace, Delete as its Delete, the arrows, Home and
/// End move its cursor without selecting. With nothing selected, Delete
/// removes the character after the cursor and Backspace the one before it;
/// the other fields, the focus and the authentication method are untouched.
pub proof fn law_editing_keys_edit_the_focused_field(
    d: SshDialogView,
    key: DialogKey,
    text: Option<Seq<char>>,
)
    requires
        dialog_wf(d),
        !d.dropdown_open,
        key == DialogKey::Backspace || key == DialogKey::Delete || key == DialogKey::ArrowLeft
            || key == DialogKey::ArrowRight || key == DialogKey::Home || key == DialogKey::End,
    ensures
        ({
            let i = field_index(d.focused);
            let f = d.fields[i];
            let g = spec_handle_key(d, key, text);
            let c = f.cursor;
            let v = f.value;
            &&& g.focused == d.focused && g.auth_method == d.auth_method && !g.dropdown_open
            &&& g.fields.len() == 6
            &&& forall|j: int| 0 <= j < 6 && j != i ==> #[trigger] g.fields[j] == d.fields[j]
            &&& key == DialogKey::Backspace ==> g.fields[i] == spec_delete_back(f)
            &&& key == DialogKey::Delete ==> g.fields[i] == spec_delete_forward(f)
            &&& key == DialogKey::ArrowLeft ==> g.fields[i] == spec_move_left(f, false)
            &&& key == DialogKey::ArrowRight ==> g.fields[i] == spec_move_right(f, false)
            &&& key == DialogKey::Home ==> g.fields[i] == spec_move_home(f, false)
            &&& key == DialogKey::End ==> g.fields[i] == spec_move_end(f, false)
            &&& key == DialogKey::Delete && f.anchor is None && c < v.len() ==> g.fields[i].value
                == v.take(c as int) + v.skip(c + 1 as int) && g.fields[i].cursor == c
            &&& key == DialogKey::Delete && f.anchor is None && c == v.len() ==> g.fields[i] == f
            &&& key == DialogKey::Backspace && f.anchor is None && c > 0 ==> g.fields[i].value
                == v.take(c - 1) + v.skip(c as int) && g.fields[i].cursor == c - 1
            &&& key == DialogKey::Backspace && f.anchor is None && c == 0 ==> g.fields[i] == f
        }),
{
    let i = field_index(d.focused);
    let f = d.fields[i];
    crate::widgets::law_backspace_and_delete(f);
}


/// The other keys: with the authentication menu open any key only closes
/// it; Enter leaves the form as it is (it submits it); Tab moves the focus to
/// the next field and changes no text; a key with text types it into the
/// focused field alone, and a key without text does nothing.
pub proof fn law_other_keys(d: SshDialogView, key: DialogKey, text: Option<Seq<char>>)
    requires
        dialog_wf(d),
    ensures
        ({
            let i = field_index(d.focused);
            let g = spec_handle_key(d, key, text);
            &&& d.dropdown_open ==> g == SshDialogView { dropdown_open: false, ..d }
            &&& !d.dropdown_open && key == DialogKey::Enter ==> g == d
            &&& !d.dropdown_open && key == DialogKey::Tab ==> g.focused == spec_next_field(
                d.focused,
                d.auth_method,
            ) && g.fields.len() == 6 && (forall|j: int|
                0 <= j < 6 ==> #[trigger] g.fields[j].value == d.fields[j].value)
            &&& !d.dropdown_open && key == DialogKey::Other && text is Some ==> g.focused
                == d.focused && g.fields.len() == 6 && g.fields[i] == spec_insert_text(
                d.fields[i],
                text->0,
            ) && (forall|j: int| 0 <= j < 6 && j != i ==> #[trigger] g.fields[j] == d.fields[j])
            &&& !d.dropdown_open && key == DialogKey::Other && text is None ==> g == d
        }),
{
    if !d.dropdown_open && key == DialogKey::Tab {
        let old_i = field_index(d.focused);
        let new_i = field_index(spec_next_field(d.focused, d.auth_method));
        let u = d.fields.update(old_i, TextFieldView { focused: false, ..d.fields[old_i] });
        assert forall|j: int| 0 <= j < 6 implies #[trigger] spec_handle_key(
            d,
            key,
            text,
        ).fields[j].value == d.fields[j].value by {
            assert(u[j].value == d.fields[j].value);
        }
    }
}

/// What the form submits: Host, Port, Username, Password, Key path and
/// Passphrase are the texts of the first to the sixth field, in that order
/// (the key path `~/.ssh/id_ed25519` when its field is empty), with the
/// chosen authentication method.
pub proof fn law_result_carries_the_fields(d: SshDialogView, r: SshResult)
    requires
        dialog_wf(d),
        result_matches(d, r),
    ensures
        r.host@ == d.fields[0].value,
        r.port@ == d.fields[1].value,
        r.username@ == d.fields[2].value,
        r.password@ == d.fields[3].value,
        d.fields[4].value.len() > 0 ==> r.key_path@ == d.fields[4].value,
        d.fields[4].value.len() == 0 ==> r.key_path@ == "~/.ssh/id_ed25519"@,
        r.passphrase@ == d.fields[5].value,
        r.auth_method == d.auth_method,
{
}

} // verus!
