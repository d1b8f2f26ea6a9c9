//! The decisions of the window's event loop: where a key press or a click
//! goes, what an open menu does with a click, which menu action becomes
//! which command, how clicks count up to a word or line selection, which
//! pointer shape shows, and when the window draws a frame and when it wakes
//! next. The loop itself (window, GPU, clipboard, timers) carries out what
//! these functions decide.
use vstd::prelude::*;

use crate::dropdown::{ActionView, DropdownElement, DropdownMenu, DropdownView, MenuAction};
use crate::hotkeys::KeyCode;
use crate::saved_sessions::{
    index_of_key, touched, upserted, without_key, is_recency_sort_of, SavedAuthType, SavedSession,
    SavedSessions, SessionView,
};
use crate::ssh::{SshAuth, SshConfig};
use crate::ssh_dialog::{result_port, AuthMethod, SshResult, DEFAULT_KEY_PATH};
use crate::tab_bar::TabBarElement;
use crate::text::{chars_of, copy_string, parse_u16};

verus! {

// ---------------------------------------------------------------------------
// Keys
// ---------------------------------------------------------------------------

/// The platform's shortcut convention: Command on macOS, Control elsewhere.
#[derive(Debug, Clone, Copy, PartialEq, Eq, Structural)]
pub enum Platform {
    MacOs,
    Other,
}

/// Where a key press goes.
#[derive(Debug, Clone, Copy, PartialEq, Eq, Structural)]
pub enum KeyDispatch {
    /// The SSH dialog is open and takes every key.
    ToDialog,
    /// Escape closes the open menu.
    CloseMenu,
    /// Copy the selection to the clipboard and clear it.
    CopySelection,
    /// Paste the clipboard into the active terminal.
    Paste,
    /// Save a screenshot of the next frame.
    Screenshot,
    NewTab,
    CloseActiveTab,
    /// The last tab was asked to close: the application quits.
    Exit,
    /// A Command shortcut that means nothing here: it does not reach the terminal.
    Swallow,
    /// The active terminal gets the key.
    ToTerminal,
}

/// Where a key press goes. `pressed` is false for a release; `tab_count`
/// is the number of open tabs; `has_selection` tells whether the active
/// terminal has selected text.
pub open spec fn spec_dispatch_key(
    platform: Platform,
    dialog_open: bool,
    menu_open: bool,
    pressed: bool,
    key: KeyCode,
    command: bool,
    control: bool,
    has_selection: bool,
    tab_count: nat,
) -> KeyDispatch {
    let close = if tab_count <= 1 {
        KeyDispatch::Exit
    } else {
        KeyDispatch::CloseActiveTab
    };
    if dialog_open {
        KeyDispatch::ToDialog
    } else if menu_open && pressed && key == KeyCode::Escape {
        KeyDispatch::CloseMenu
    } else if platform == Platform::MacOs && pressed && command {
        match key {
            KeyCode::KeyC => KeyDispatch::CopySelection,
            KeyCode::KeyV => KeyDispatch::Paste,
            KeyCode::KeyS => KeyDispatch::Screenshot,
            KeyCode::KeyT => KeyDispatch::NewTab,
            KeyCode::KeyW => close,
            _ => KeyDispatch::Swallow,
        }
    } else if platform == Platform::Other && pressed && control {
        match key {
            KeyCode::KeyC => if has_selection {
                KeyDispatch::CopySelection
            } else {
                KeyDispatch::ToTerminal
            },
            KeyCode::KeyV => KeyDispatch::Paste,
            KeyCode::KeyT => KeyDispatch::NewTab,
            KeyCode::KeyW => close,
            _ => KeyDispatch::ToTerminal,
        }
    } else {
        KeyDispatch::ToTerminal
    }
}

/// Where a key press goes: to the open SSH dialog; Escape to an open menu;
/// the platform's clipboard, screenshot and tab shortcuts; otherwise to the
/// terminal. On macOS no other Command combination reaches the terminal;
/// elsewhere Control+C without a selection reaches it as an interrupt.
pub fn dispatch_key(
    platform: Platform,
    dialog_open: bool,
    menu_open: bool,
    pressed: bool,
    key: KeyCode,
    command: bool,
    control: bool,
    has_selection: bool,
    tab_count: usize,
) -> (r: KeyDispatch)
    ensures
        r == spec_dispatch_key(
            platform,
            dialog_open,
            menu_open,
            pressed,
            key,
            command,
            control,
            has_selection,
            tab_count as nat,
        ),
{
    let close = if tab_count <= 1 {
        KeyDispatch::Exit
    } else {
        KeyDispatch::CloseActiveTab
    };
    if dialog_open {
        KeyDispatch::ToDialog
    } else if menu_open && pressed && key == KeyCode::Escape {
        KeyDispatch::CloseMenu
    } else if platform == Platform::MacOs && pressed && command {
        match key {
            KeyCode::KeyC => KeyDispatch::CopySelection,
            KeyCode::KeyV => KeyDispatch::Paste,
            KeyCode::KeyS => KeyDispatch::Screenshot,
            KeyCode::KeyT => KeyDispatch::NewTab,
            KeyCode::KeyW => close,
            _ => KeyDispatch::Swallow,
        }
    } else if platform == Platform::Other && pressed && control {
        match key {
            KeyCode::KeyC => if has_selection {
                KeyDispatch::CopySelection
            } else {
                KeyDispatch::ToTerminal
            },
            KeyCode::KeyV => KeyDispatch::Paste,
            KeyCode::KeyT => KeyDispatch::NewTab,
            KeyCode::KeyW => close,
            _ => KeyDispatch::ToTerminal,
        }
    } else {
        KeyDispatch::ToTerminal
    }
}

/// The shortcuts: Command on macOS and Control elsewhere give the same
/// actions for V (paste), T (new tab) and W (close the active tab, or quit
/// when it is the last one); C copies (elsewhere only with a selection, else
/// Control+C reaches the terminal as an interrupt); Command+S on macOS takes
/// a screenshot. The open SSH dialog takes every key; Escape closes an open
/// menu; a key release, or a key without the shortcut modifier, goes to the
/// terminal.
pub proof fn law_shortcuts(
    dialog_open: bool,
    menu_open: bool,
    pressed: bool,
    key: KeyCode,
    command: bool,
    control: bool,
    has_selection: bool,
    tab_count: nat,
)
    ensures
        ({
            let mac = spec_dispatch_key(
                Platform::MacOs,
                false,
                false,
                true,
                key,
                true,
                control,
                has_selection,
                tab_count,
            );
            let other = spec_dispatch_key(
                Platform::Other,
                false,
                false,
                true,
                key,
                command,
                true,
                has_selection,
                tab_count,
            );
            &&& key == KeyCode::KeyV ==> mac == KeyDispatch::Paste && other == KeyDispatch::Paste
            &&& key == KeyCode::KeyT ==> mac == KeyDispatch::NewTab && other == KeyDispatch::NewTab
            &&& key == KeyCode::KeyW ==> mac == other && (mac == KeyDispatch::Exit <==> tab_count
                <= 1) && (mac == KeyDispatch::CloseActiveTab <==> tab_count > 1)
            &&& key == KeyCode::KeyC ==> mac == KeyDispatch::CopySelection && (other
                == KeyDispatch::CopySelection <==> has_selection) && (other
                == KeyDispatch::ToTerminal <==> !has_selection)
            &&& key == KeyCode::KeyS ==> mac == KeyDispatch::Screenshot && other
                == KeyDispatch::ToTerminal
        }),
        forall|p: Platform|
            spec_dispatch_key(
                p,
                true,
                menu_open,
                pressed,
                key,
                command,
                control,
                has_selection,
                tab_count,
            ) == KeyDispatch::ToDialog,
        forall|p: Platform|
            spec_dispatch_key(
                p,
                false,
                true,
                true,
                KeyCode::Escape,
                command,
                control,
                has_selection,
                tab_count,
            ) == KeyDispatch::CloseMenu,
        forall|p: Platform|
            spec_dispatch_key(
                p,
                false,
                false,
                false,
                key,
                command,
                control,
                has_selection,
                tab_count,
            ) == KeyDispatch::ToTerminal,
        spec_dispatch_key(
            Platform::MacOs,
            false,
            false,
            true,
            key,
            false,
            control,
            has_selection,
            tab_count,
        ) == KeyDispatch::ToTerminal,
        spec_dispatch_key(
            Platform::Other,
            false,
            false,
            true,
            key,
            command,
            false,
            has_selection,
            tab_count,
        ) == KeyDispatch::ToTerminal,
{
}

// ---------------------------------------------------------------------------
// Clicks
// ---------------------------------------------------------------------------

/// Where a press of the left button goes.
#[derive(Debug, Clone, Copy, PartialEq, Eq, Structural)]
pub enum ClickDispatch {
    /// The SSH dialog is open and takes every click.
    ToDialog,
    /// The open menu takes the click (see [`menu_click`]).
    ToMenu(DropdownElement),
    SelectTab(usize),
    CloseTab(usize),
    OpenNewTabMenu,
    /// A click on the tab bar that hits nothing, or on a tab that is gone.
    Nothing,
    /// The active terminal takes the click (scroll bar or selection).
    ToPanel,
}

/// Where a press of the left button goes. `menu_hit` is what the click hits
/// in the menu when one is open; `in_tab_bar` tells whether it falls in the
/// tab bar's band and `tab_hit` what it hits there.
pub open spec fn spec_dispatch_left_click(
    dialog_open: bool,
    menu_hit: Option<DropdownElement>,
    in_tab_bar: bool,
    tab_hit: TabBarElement,
    tab_count: nat,
) -> ClickDispatch {
    if dialog_open {
        ClickDispatch::ToDialog
    } else if menu_hit is Some {
        ClickDispatch::ToMenu(menu_hit->0)
    } else if in_tab_bar {
        match tab_hit {
            TabBarElement::Tab(i) => if i < tab_count {
                ClickDispatch::SelectTab(i)
            } else {
                ClickDispatch::Nothing
            },
            TabBarElement::CloseButton(i) => if i < tab_count {
                ClickDispatch::CloseTab(i)
            } else {
                ClickDispatch::Nothing
            },
            TabBarElement::PlusButton => ClickDispatch::OpenNewTabMenu,
            TabBarElement::Nothing => ClickDispatch::Nothing,
        }
    } else if tab_count > 0 {
        ClickDispatch::ToPanel
    } else {
        ClickDispatch::Nothing
    }
}

/// Where a press of the left button goes: the dialog, then an open menu,
/// then the tab bar, then the active terminal.
pub fn dispatch_left_click(
    dialog_open: bool,
    menu_hit: Option<DropdownElement>,
    in_tab_bar: bool,
    tab_hit: TabBarElement,
    tab_count: usize,
) -> (r: ClickDispatch)
    ensures
        r == spec_dispatch_left_click(dialog_open, menu_hit, in_tab_bar, tab_hit, tab_count as nat),
{
    if dialog_open {
        ClickDispatch::ToDialog
    } else if let Some(hit) = menu_hit {
        ClickDispatch::ToMenu(hit)
    } else if in_tab_bar {
        match tab_hit {
            TabBarElement::Tab(i) => if i < tab_count {
                ClickDispatch::SelectTab(i)
            } else {
                ClickDispatch::Nothing
            },
            TabBarElement::CloseButton(i) => if i < tab_count {
                ClickDispatch::CloseTab(i)
            } else {
                ClickDispatch::Nothing
            },
            TabBarElement::PlusButton => ClickDispatch::OpenNewTabMenu,
            TabBarElement::Nothing => ClickDispatch::Nothing,
        }
    } else if tab_count > 0 {
        ClickDispatch::ToPanel
    } else {
        ClickDispatch::Nothing
    }
}

/// A left click acts on what it hits: a click on the body of an open tab
/// selects that tab and a click on its close button closes that same tab;
/// "+" opens the new-tab menu; a click in the tab bar never reaches the
/// terminal, and one below it reaches the terminal when there is one. An
/// open dialog, then an open menu, take every click first.
pub proof fn law_left_click_acts_on_what_it_hits(
    dialog_open: bool,
    menu_hit: Option<DropdownElement>,
    in_tab_bar: bool,
    tab_hit: TabBarElement,
    tab_count: nat,
)
    ensures
        ({
            let r = spec_dispatch_left_click(dialog_open, menu_hit, in_tab_bar, tab_hit, tab_count);
            let bar = spec_dispatch_left_click(false, None, true, tab_hit, tab_count);
            &&& dialog_open ==> r == ClickDispatch::ToDialog
            &&& !dialog_open && menu_hit is Some ==> r == ClickDispatch::ToMenu(menu_hit->0)
            &&& !dialog_open && menu_hit is None && in_tab_bar ==> r == bar
            &&& bar != ClickDispatch::ToPanel && bar != ClickDispatch::ToDialog
            &&& (tab_hit matches TabBarElement::Tab(i) ==> (i < tab_count ==> bar
                == ClickDispatch::SelectTab(i)) && (i >= tab_count ==> bar == ClickDispatch::Nothing))
            &&& (tab_hit matches TabBarElement::CloseButton(i) ==> (i < tab_count ==> bar
                == ClickDispatch::CloseTab(i)) && (i >= tab_count ==> bar == ClickDispatch::Nothing))
            &&& tab_hit == TabBarElement::PlusButton ==> bar == ClickDispatch::OpenNewTabMenu
            &&& tab_hit == TabBarElement::Nothing ==> bar == ClickDispatch::Nothing
            &&& !dialog_open && menu_hit is None && !in_tab_bar ==> (r == ClickDispatch::ToPanel
                <==> tab_count > 0) && (r == ClickDispatch::Nothing <==> tab_count == 0)
        }),
{
}

/// What a press of the right button does.
#[derive(Debug, Clone, Copy, PartialEq, Eq, Structural)]
pub enum RightClick {
    /// The SSH dialog is open and absorbs it.
    Ignore,
    /// The context menu opens at the pointer, after closing the menu that
    /// was open, if any.
    OpenContextMenu { close_open_menu: bool },
}

/// What a press of the right button does: nothing while the SSH dialog is
/// open, else the context menu replaces any open menu.
pub fn dispatch_right_click(dialog_open: bool, menu_open: bool) -> (r: RightClick)
    ensures
        r == (if dialog_open {
            RightClick::Ignore
        } else {
            RightClick::OpenContextMenu { close_open_menu: menu_open }
        }),
{
    if dialog_open {
        RightClick::Ignore
    } else {
        RightClick::OpenContextMenu { close_open_menu: menu_open }
    }
}

/// Whether the wheel scrolls the active terminal: there is one, and the SSH
/// dialog, which absorbs scrolling, is closed.
pub fn wheel_scrolls_terminal(dialog_open: bool, has_panel: bool) -> (r: bool)
    ensures
        r == (!dialog_open && has_panel),
{
    !dialog_open && has_panel
}

/// The menu's view once it is closed.
pub open spec fn closed_menu(v: DropdownView) -> DropdownView {
    DropdownView { visible: false, hover: DropdownElement::Nothing, ..v }
}

/// What a click does to an open menu and the saved sessions: an item closes
/// the menu and hands back its action; a close button closes the menu and,
/// on a saved session, forgets it; a click on no element closes the menu
/// when it falls outside it.
pub fn menu_click(
    menu: &mut DropdownMenu,
    sessions: &mut SavedSessions,
    hit: DropdownElement,
    outside: bool,
) -> (r: Option<MenuAction>)
    ensures
        match hit {
            DropdownElement::Item(idx) => {
                &&& final(menu)@ == closed_menu(old(menu)@)
                &&& final(sessions).sessions@ == old(sessions).sessions@
                &&& match r {
                    Some(a) => idx < old(menu)@.items.len()
                        && a@ == old(menu)@.items[idx as int].action@,
                    None => idx >= old(menu)@.items.len(),
                }
            },
            DropdownElement::CloseButton(idx) => {
                &&& final(menu)@ == closed_menu(old(menu)@)
                &&& r is None
                &&& final(sessions).sessions@ == (if idx < old(menu)@.items.len()
                    && old(menu)@.items[idx as int].action@ is ConnectSavedSession {
                    without_key(
                        old(sessions).sessions@,
                        old(menu)@.items[idx as int].action@->ConnectSavedSession_0,
                    )
                } else {
                    old(sessions).sessions@
                })
            },
            DropdownElement::Nothing => {
                &&& r is None
                &&& final(sessions).sessions@ == old(sessions).sessions@
                &&& final(menu)@ == (if outside {
                    closed_menu(old(menu)@)
                } else {
                    old(menu)@
                })
            },
        },
{
    match hit {
        DropdownElement::Item(idx) => {
            let action = match menu.action_for(idx) {
                Some(a) => Some(a.copy()),
                None => None,
            };
            menu.close();
            action
        },
        DropdownElement::CloseButton(idx) => {
            if let Some(MenuAction::ConnectSavedSession(key)) = menu.action_for(idx) {
                sessions.remove_by_key(key.as_str());
            }
            menu.close();
            None
        },
        DropdownElement::Nothing => {
            if outside {
                menu.close();
            }
            None
        },
    }
}

/// How many clicks in a row a press makes: one more than before (at most
/// three) when it comes within 400 ms of the last one, else one.
pub open spec fn spec_next_click_count(previous: u8, since_last_ms: u64) -> u8 {
    if since_last_ms < 400 {
        if previous + 1 < 3 {
            (previous + 1) as u8
        } else {
            3
        }
    } else {
        1
    }
}

/// How many clicks in a row a press makes.
pub fn next_click_count(previous: u8, since_last_ms: u64) -> (r: u8)
    requires
        previous < u8::MAX,
    ensures
        r == spec_next_click_count(previous, since_last_ms),
{
    if since_last_ms < 400 {
        let n = previous + 1;
        if n < 3 {
            n
        } else {
            3
        }
    } else {
        1
    }
}

/// What a selection started by a click covers.
#[derive(Debug, Clone, Copy, PartialEq, Eq, Structural)]
pub enum SelectionKind {
    /// Characters, from a single click.
    Simple,
    /// Words, from a double click.
    Semantic,
    /// Lines, from a triple click.
    Lines,
}

/// What a selection covers after `count` clicks in a row.
pub fn selection_kind(count: u8) -> (r: SelectionKind)
    ensures
        r == (if count == 2 {
            SelectionKind::Semantic
        } else if count == 3 {
            SelectionKind::Lines
        } else {
            SelectionKind::Simple
        }),
{
    match count {
        2 => SelectionKind::Semantic,
        3 => SelectionKind::Lines,
        _ => SelectionKind::Simple,
    }
}

// ---------------------------------------------------------------------------
// Window events
// ---------------------------------------------------------------------------

/// The window events whose handling is decided before any dispatch.
#[derive(Debug, Clone, Copy, PartialEq, Eq, Structural)]
pub enum WindowEventKind {
    CloseRequested,
    Resized,
    ScaleFactorChanged,
    Occluded(bool),
    /// Any other event: input, redraw requests.
    Other,
}

/// What to do with a window event.
#[derive(Debug, Clone, Copy, PartialEq, Eq, Structural)]
pub enum WindowStep {
    /// The event belongs to another window and is dropped.
    Ignore,
    /// The window is closing: leave the event loop.
    Exit,
    /// The size or scale changed: close the menu, resize the surface,
    /// recenter the SSH dialog and update the tabs.
    Relayout,
    /// Record whether the window is hidden; redraw when it shows again.
    SetOccluded { occluded: bool, redraw: bool },
    /// Handled by the key, click and movement dispatch.
    Dispatch,
}

pub open spec fn spec_window_step(
    main_window: Option<u64>,
    event_window: u64,
    kind: WindowEventKind,
) -> WindowStep {
    if main_window is Some && main_window->0 != event_window {
        WindowStep::Ignore
    } else {
        match kind {
            WindowEventKind::CloseRequested => WindowStep::Exit,
            WindowEventKind::Resized => WindowStep::Relayout,
            WindowEventKind::ScaleFactorChanged => WindowStep::Relayout,
            WindowEventKind::Occluded(o) => WindowStep::SetOccluded { occluded: o, redraw: !o },
            WindowEventKind::Other => WindowStep::Dispatch,
        }
    }
}

/// The first decision on a window event: events of another window than the
/// main one are dropped; a close request ends the loop; a resize or a change
/// of scale lays the window out again; a change of visibility is recorded.
pub fn window_step(main_window: Option<u64>, event_window: u64, kind: WindowEventKind) -> (r:
    WindowStep)
    ensures
        r == spec_window_step(main_window, event_window, kind),
{
    if let Some(w) = main_window {
        if w != event_window {
            return WindowStep::Ignore;
        }
    }
    match kind {
        WindowEventKind::CloseRequested => WindowStep::Exit,
        WindowEventKind::Resized => WindowStep::Relayout,
        WindowEventKind::ScaleFactorChanged => WindowStep::Relayout,
        WindowEventKind::Occluded(o) => WindowStep::SetOccluded { occluded: o, redraw: !o },
        WindowEventKind::Other => WindowStep::Dispatch,
    }
}

// ---------------------------------------------------------------------------
// Pointer movement
// ---------------------------------------------------------------------------

/// Where a pointer movement goes.
#[derive(Debug, Clone, Copy, PartialEq, Eq, Structural)]
pub enum MoveDispatch {
    /// The SSH dialog is open and takes it.
    ToDialog,
    /// The open menu updates its hovered element.
    MenuHover,
    /// The terminal and the tab bar track it.
    Track,
}

/// Where a pointer movement goes: the dialog, then an open menu, then the
/// terminal and the tab bar.
pub fn dispatch_move(dialog_open: bool, menu_open: bool) -> (r: MoveDispatch)
    ensures
        r == (if dialog_open {
            MoveDispatch::ToDialog
        } else if menu_open {
            MoveDispatch::MenuHover
        } else {
            MoveDispatch::Track
        }),
{
    if dialog_open {
        MoveDispatch::ToDialog
    } else if menu_open {
        MoveDispatch::MenuHover
    } else {
        MoveDispatch::Track
    }
}

/// What a movement with the left button held drags.
#[derive(Debug, Clone, Copy, PartialEq, Eq, Structural)]
pub enum DragKind {
    Nothing,
    Scrollbar,
    Selection,
}

/// What a movement drags: nothing unless the left button is held over a
/// terminal; the scroll bar when its drag started, else the selection.
pub fn drag_kind(left_pressed: bool, has_panel: bool, dragging_scrollbar: bool) -> (r: DragKind)
    ensures
        r == (if !(left_pressed && has_panel) {
            DragKind::Nothing
        } else if dragging_scrollbar {
            DragKind::Scrollbar
        } else {
            DragKind::Selection
        }),
{
    if !(left_pressed && has_panel) {
        DragKind::Nothing
    } else if dragging_scrollbar {
        DragKind::Scrollbar
    } else {
        DragKind::Selection
    }
}

/// The pointer's shape.
#[derive(Debug, Clone, Copy, PartialEq, Eq, Structural)]
pub enum PointerIcon {
    Default,
    Text,
    /// A pointing hand, over buttons.
    Pointer,
    Grab,
    Grabbing,
}

/// The pointer's shape: grabbing while the scroll bar is dragged, a grab
/// hand over it, a text cursor over the terminal's cells, else the arrow.
pub fn pointer_icon(dragging_scrollbar: bool, on_scrollbar: bool, in_content: bool) -> (r:
    PointerIcon)
    ensures
        r == (if dragging_scrollbar {
            PointerIcon::Grabbing
        } else if on_scrollbar {
            PointerIcon::Grab
        } else if in_content {
            PointerIcon::Text
        } else {
            PointerIcon::Default
        }),
{
    if dragging_scrollbar {
        PointerIcon::Grabbing
    } else if on_scrollbar {
        PointerIcon::Grab
    } else if in_content {
        PointerIcon::Text
    } else {
        PointerIcon::Default
    }
}

// ---------------------------------------------------------------------------
// Menu actions and saved sessions
// ---------------------------------------------------------------------------

/// What the window does next.
#[derive(Debug)]
pub enum AppCommand {
    /// Open a tab running the shell at this path.
    OpenShell(String),
    OpenSshDialog,
    /// Open a tab connected over SSH.
    Connect(SshConfig),
    /// Copy the active terminal's selection to the clipboard and clear it.
    CopySelection,
    /// Paste the clipboard into the active terminal.
    Paste,
    Nothing,
}

/// The connection settings of a saved session: a key session without a
/// key path uses the default key, and a password session starts with an
/// empty password, since passwords are not saved.
pub open spec fn session_config_matches(s: SessionView, c: SshConfig) -> bool {
    &&& c.host@ == s.host
    &&& c.port == s.port
    &&& c.username@ == s.username
    &&& match s.auth_type {
        SavedAuthType::Password => c.auth matches SshAuth::Password(p) && p@.len() == 0,
        SavedAuthType::Key => c.auth matches SshAuth::Key { path, passphrase } && passphrase is None
            && path@ == (match s.key_path {
            Some(k) => k,
            None => DEFAULT_KEY_PATH@,
        }),
        SavedAuthType::Agent => c.auth is Agent,
    }
}

/// The connection settings of a saved session.
pub fn session_ssh_config(s: &SavedSession) -> (r: SshConfig)
    ensures
        session_config_matches(s@, r),
{
    let auth = match s.auth_type {
        SavedAuthType::Password => SshAuth::Password(String::new()),
        SavedAuthType::Key => SshAuth::Key {
            path: match &s.key_path {
                Some(k) => copy_string(k.as_str()),
                None => copy_string(DEFAULT_KEY_PATH),
            },
            passphrase: None,
        },
        SavedAuthType::Agent => SshAuth::Agent,
    };
    SshConfig {
        host: copy_string(s.host.as_str()),
        port: s.port,
        username: copy_string(s.username.as_str()),
        auth,
    }
}

/// The saved session that a submitted dialog records, used at `now`: the
/// port parsed (22 when it is not a number), the key path only for key
/// authentication.
pub open spec fn spec_session_of_result(r: SshResult, now: u64) -> SessionView {
    SessionView {
        host: r.host@,
        port: result_port(r.port@),
        username: r.username@,
        auth_type: match r.auth_method {
            AuthMethod::Password => SavedAuthType::Password,
            AuthMethod::Key => SavedAuthType::Key,
            AuthMethod::Agent => SavedAuthType::Agent,
        },
        key_path: if r.auth_method == AuthMethod::Key {
            Some(r.key_path@)
        } else {
            None
        },
        last_used: now,
    }
}

/// The saved session that a submitted dialog records, used at `now`.
pub fn session_of_result(r: &SshResult, now: u64) -> (s: SavedSession)
    ensures
        s@ == spec_session_of_result(*r, now),
{
    let pc = chars_of(r.port.as_str());
    let port = match parse_u16(pc.as_slice()) {
        Some(p) => p,
        None => 22,
    };
    SavedSession {
        host: copy_string(r.host.as_str()),
        port,
        username: copy_string(r.username.as_str()),
        auth_type: match r.auth_method {
            AuthMethod::Password => SavedAuthType::Password,
            AuthMethod::Key => SavedAuthType::Key,
            AuthMethod::Agent => SavedAuthType::Agent,
        },
        key_path: match r.auth_method {
            AuthMethod::Key => Some(copy_string(r.key_path.as_str())),
            _ => None,
        },
        last_used: now,
    }
}

/// Records a submitted dialog in the saved sessions, as used now.
pub fn save_ssh_session(sessions: &mut SavedSessions, r: &SshResult)
    ensures
        exists|s: SavedSession|
            #![trigger upserted(old(sessions).sessions@, s)]
            (exists|now: u64| s@ == #[trigger] spec_session_of_result(*r, now)) && is_recency_sort_of(
                final(sessions).sessions@,
                upserted(old(sessions).sessions@, s),
            ),
{
    let now = crate::saved_sessions::now_unix();
    let s = session_of_result(r, now);
    let ghost gs = s;
    sessions.upsert(s);
    assert(is_recency_sort_of(sessions.sessions@, upserted(old(sessions).sessions@, gs)));
}

/// What choosing a menu action does: a shell opens in a new tab; the SSH
/// dialog opens unless it is open already; a saved session is looked up,
/// marked as used now and connected to (nothing happens when it is gone);
/// copy and paste go to the active terminal.
pub fn execute_menu_action(action: &MenuAction, sessions: &mut SavedSessions, dialog_open: bool) -> (r:
    AppCommand)
    ensures
        match action@ {
            ActionView::NewShell(p) => r matches AppCommand::OpenShell(q) && q@ == p && final(sessions).sessions@ == old(sessions).sessions@,
            ActionView::OpenSshDialog => (if dialog_open {
                r is Nothing
            } else {
                r is OpenSshDialog
            }) && final(sessions).sessions@ == old(sessions).sessions@,
            ActionView::ConnectSavedSession(k) => {
                let i = index_of_key(old(sessions).sessions@, k);
                if i < old(sessions).sessions@.len() {
                    &&& r matches AppCommand::Connect(c) && session_config_matches(
                        old(sessions).sessions@[i as int]@,
                        c,
                    )
                    &&& exists|now: u64|
                        is_recency_sort_of(
                            final(sessions).sessions@,
                            #[trigger] touched(old(sessions).sessions@, k, now),
                        )
                } else {
                    r is Nothing && final(sessions).sessions@ == old(sessions).sessions@
                }
            },
            ActionView::Copy => r is CopySelection && final(sessions).sessions@ == old(sessions).sessions@,
            ActionView::Paste => r is Paste && final(sessions).sessions@ == old(sessions).sessions@,
        },
{
    match action {
        MenuAction::NewShell(p) => AppCommand::OpenShell(copy_string(p.as_str())),
        MenuAction::OpenSshDialog => {
            if dialog_open {
                AppCommand::Nothing
            } else {
                AppCommand::OpenSshDialog
            }
        },
        MenuAction::ConnectSavedSession(key) => {
            let config = match sessions.find_by_key(key.as_str()) {
                Some(s) => Some(session_ssh_config(s)),
                None => None,
            };
            match config {
                Some(c) => {
                    sessions.touch_by_key(key.as_str());
                    AppCommand::Connect(c)
                },
                None => AppCommand::Nothing,
            }
        },
        MenuAction::Copy => AppCommand::CopySelection,
        MenuAction::Paste => AppCommand::Paste,
    }
}

// ---------------------------------------------------------------------------
// Frames
// ---------------------------------------------------------------------------

/// The cursor blinks at this interval (about 30 frames a second), in nanoseconds.
pub const BLINK_INTERVAL_NS: u64 = 33_000_000;

/// For this long after input the cursor stays solid, in nanoseconds.
pub const BLINK_PAUSE_NS: u64 = 500_000_000;

/// The state of the active terminal that frame scheduling reads.
#[derive(Debug, Clone, Copy, PartialEq, Eq, Structural)]
pub struct PanelFrame {
    pub cursor_visible: bool,
    /// The cursor moves smoothly or the view scrolls smoothly.
    pub animating: bool,
    /// Time since the last input to the terminal, in nanoseconds.
    pub input_age_ns: u64,
}

/// What frame scheduling reads, taken when the window handles the event.
#[derive(Debug, Clone, Copy, PartialEq, Eq, Structural)]
pub struct FrameState {
    /// The window is hidden behind others.
    pub occluded: bool,
    /// New terminal output or input arrived since the last full frame.
    pub dirty: bool,
    pub dialog_open: bool,
    /// The active terminal, if there is a tab.
    pub panel: Option<PanelFrame>,
    /// Time since the last frame was drawn, in nanoseconds.
    pub since_last_redraw_ns: u64,
}

/// What to draw. After `Full` and `BlinkOnly` the time of the last frame is now.
#[derive(Debug, Clone, Copy, PartialEq, Eq, Structural)]
pub enum Render {
    Nothing,
    /// Rebuild the whole scene.
    Full,
    /// Draw the cached scene with only the cursor updated.
    BlinkOnly,
    /// Ask the window for a redraw, which then goes through the full path.
    Request,
}

/// When the event loop wakes next.
#[derive(Debug, Clone, Copy, PartialEq, Eq, Structural)]
pub enum Wake {
    /// Keep the current wake-up setting.
    Unchanged,
    /// This many nanoseconds after the frame just drawn.
    AfterRender(u64),
    /// This many nanoseconds from now.
    FromNow(u64),
    /// This many nanoseconds after the last frame drawn before this event.
    AfterLastRedraw(u64),
}

/// What the window does for a frame event.
#[derive(Debug, Clone, Copy, PartialEq, Eq, Structural)]
pub struct FramePlan {
    pub render: Render,
    /// The pending content change is taken care of.
    pub clear_dirty: bool,
    pub wake: Wake,
}

/// A blink frame, which redraws everything while the SSH dialog is open.
pub open spec fn blink_render(dialog_open: bool) -> Render {
    if dialog_open {
        Render::Full
    } else {
        Render::BlinkOnly
    }
}

/// While the cursor blinks without animation: wait out the pause after
/// input, else blink.
pub open spec fn idle_cursor_plan(p: PanelFrame, dialog_open: bool, since_last_redraw_ns: u64) -> FramePlan {
    if p.input_age_ns < BLINK_PAUSE_NS {
        FramePlan {
            render: Render::Nothing,
            clear_dirty: false,
            wake: Wake::FromNow((BLINK_PAUSE_NS - p.input_age_ns) as u64),
        }
    } else if since_last_redraw_ns >= BLINK_INTERVAL_NS {
        FramePlan {
            render: blink_render(dialog_open),
            clear_dirty: false,
            wake: Wake::AfterRender(BLINK_INTERVAL_NS),
        }
    } else {
        FramePlan {
            render: Render::Nothing,
            clear_dirty: false,
            wake: Wake::AfterLastRedraw(BLINK_INTERVAL_NS),
        }
    }
}

/// The window's answer to a redraw request. Hidden: nothing. New content:
/// a full frame, then a wake-up to keep a visible cursor blinking (after
/// the pause that follows input). Otherwise, with a visible cursor: full
/// frames while it animates, nothing during the pause after input, a blink
/// frame once the blink interval has passed; with a hidden cursor or no
/// tab: one full frame.
pub open spec fn spec_plan_redraw(f: FrameState) -> FramePlan {
    if f.occluded {
        FramePlan { render: Render::Nothing, clear_dirty: false, wake: Wake::Unchanged }
    } else if f.dirty {
        let wake = match f.panel {
            Some(p) => if !p.cursor_visible {
                Wake::Unchanged
            } else if p.animating {
                Wake::AfterRender(BLINK_INTERVAL_NS)
            } else if p.input_age_ns < BLINK_PAUSE_NS {
                Wake::FromNow((BLINK_PAUSE_NS - p.input_age_ns) as u64)
            } else {
                Wake::AfterRender(BLINK_INTERVAL_NS)
            },
            None => Wake::Unchanged,
        };
        FramePlan { render: Render::Full, clear_dirty: true, wake }
    } else {
        match f.panel {
            Some(p) => if !p.cursor_visible {
                FramePlan { render: Render::Full, clear_dirty: false, wake: Wake::Unchanged }
            } else if p.animating {
                FramePlan {
                    render: Render::Full,
                    clear_dirty: false,
                    wake: Wake::AfterRender(BLINK_INTERVAL_NS),
                }
            } else {
                idle_cursor_plan(p, f.dialog_open, f.since_last_redraw_ns)
            },
            None => FramePlan { render: Render::Full, clear_dirty: false, wake: Wake::Unchanged },
        }
    }
}

/// The window's answer to a redraw request.
pub fn plan_redraw(f: FrameState) -> (r: FramePlan)
    ensures
        r == spec_plan_redraw(f),
{
    if f.occluded {
        return FramePlan { render: Render::Nothing, clear_dirty: false, wake: Wake::Unchanged };
    }
    if f.dirty {
        let wake = match f.panel {
            Some(p) => if !p.cursor_visible {
                Wake::Unchanged
            } else if p.animating {
                Wake::AfterRender(BLINK_INTERVAL_NS)
            } else if p.input_age_ns < BLINK_PAUSE_NS {
                Wake::FromNow(BLINK_PAUSE_NS - p.input_age_ns)
            } else {
                Wake::AfterRender(BLINK_INTERVAL_NS)
            },
            None => Wake::Unchanged,
        };
        return FramePlan { render: Render::Full, clear_dirty: true, wake };
    }
    match f.panel {
        Some(p) => if !p.cursor_visible {
            FramePlan { render: Render::Full, clear_dirty: false, wake: Wake::Unchanged }
        } else if p.animating {
            FramePlan {
                render: Render::Full,
                clear_dirty: false,
                wake: Wake::AfterRender(BLINK_INTERVAL_NS),
            }
        } else {
            idle_cursor(p, f.dialog_open, f.since_last_redraw_ns)
        },
        None => FramePlan { render: Render::Full, clear_dirty: false, wake: Wake::Unchanged },
    }
}

fn idle_cursor(p: PanelFrame, dialog_open: bool, since_last_redraw_ns: u64) -> (r: FramePlan)
    ensures
        r == idle_cursor_plan(p, dialog_open, since_last_redraw_ns),
{
    if p.input_age_ns < BLINK_PAUSE_NS {
        FramePlan {
            render: Render::Nothing,
            clear_dirty: false,
            wake: Wake::FromNow(BLINK_PAUSE_NS - p.input_age_ns),
        }
    } else if since_last_redraw_ns >= BLINK_INTERVAL_NS {
        FramePlan {
            render: if dialog_open {
                Render::Full
            } else {
                Render::BlinkOnly
            },
            clear_dirty: false,
            wake: Wake::AfterRender(BLINK_INTERVAL_NS),
        }
    } else {
        FramePlan {
            render: Render::Nothing,
            clear_dirty: false,
            wake: Wake::AfterLastRedraw(BLINK_INTERVAL_NS),
        }
    }
}

/// The window's answer when a timed wake-up comes. Hidden: nothing. New
/// content: a redraw request. A visible cursor: a full frame while it
/// animates, the rest of the pause after input, else a blink frame (here
/// without waiting for the blink interval, which the timer already did).
pub open spec fn spec_plan_timer_wake(f: FrameState) -> FramePlan {
    if f.occluded {
        FramePlan { render: Render::Nothing, clear_dirty: false, wake: Wake::Unchanged }
    } else if f.dirty {
        FramePlan { render: Render::Request, clear_dirty: false, wake: Wake::Unchanged }
    } else {
        match f.panel {
            Some(p) => if !p.cursor_visible {
                FramePlan { render: Render::Nothing, clear_dirty: false, wake: Wake::Unchanged }
            } else if p.animating {
                FramePlan {
                    render: Render::Full,
                    clear_dirty: false,
                    wake: Wake::AfterRender(BLINK_INTERVAL_NS),
                }
            } else {
                idle_cursor_plan(p, f.dialog_open, BLINK_INTERVAL_NS)
            },
            None => FramePlan { render: Render::Nothing, clear_dirty: false, wake: Wake::Unchanged },
        }
    }
}

/// The window's answer when a timed wake-up comes.
pub fn plan_timer_wake(f: FrameState) -> (r: FramePlan)
    ensures
        r == spec_plan_timer_wake(f),
{
    if f.occluded {
        return FramePlan { render: Render::Nothing, clear_dirty: false, wake: Wake::Unchanged };
    }
    if f.dirty {
        return FramePlan { render: Render::Request, clear_dirty: false, wake: Wake::Unchanged };
    }
    match f.panel {
        Some(p) => if !p.cursor_visible {
            FramePlan { render: Render::Nothing, clear_dirty: false, wake: Wake::Unchanged }
        } else if p.animating {
            FramePlan {
                render: Render::Full,
                clear_dirty: false,
                wake: Wake::AfterRender(BLINK_INTERVAL_NS),
            }
        } else {
            idle_cursor(p, f.dialog_open, BLINK_INTERVAL_NS)
        },
        None => FramePlan { render: Render::Nothing, clear_dirty: false, wake: Wake::Unchanged },
    }
}

/// A hidden window draws nothing, and new content is never dropped: a
/// redraw request then draws a full frame and clears the change, and a
/// timed wake-up passes it on as a redraw request.
pub proof fn law_frames_follow_content(f: FrameState)
    ensures
        f.occluded ==> spec_plan_redraw(f).render == Render::Nothing
            && spec_plan_timer_wake(f).render == Render::Nothing,
        !f.occluded && f.dirty ==> spec_plan_redraw(f).render == Render::Full && spec_plan_redraw(
            f,
        ).clear_dirty && spec_plan_timer_wake(f).render == Render::Request,
        !f.dirty ==> !spec_plan_redraw(f).clear_dirty,
{
}

/// During the pause after input the cursor is not redrawn: without new
/// content no frame is drawn, and the next wake-up comes when the pause ends.
pub proof fn law_blink_pause(f: FrameState)
    requires
        !f.occluded,
        !f.dirty,
        f.panel matches Some(p) && p.cursor_visible && !p.animating && p.input_age_ns
            < BLINK_PAUSE_NS,
    ensures
        spec_plan_redraw(f).render == Render::Nothing,
        spec_plan_redraw(f).wake == Wake::FromNow((BLINK_PAUSE_NS - f.panel->0.input_age_ns) as u64),
        spec_plan_timer_wake(f) == spec_plan_redraw(f),
{
}

/// While the SSH dialog is open, every frame is drawn in full.
pub proof fn law_dialog_frames_full(f: FrameState)
    requires
        f.dialog_open,
    ensures
        spec_plan_redraw(f).render != Render::BlinkOnly,
        spec_plan_timer_wake(f).render != Render::BlinkOnly,
{
}

} // verus!
