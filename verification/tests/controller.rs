use pfauterminal::controller::{
    dispatch_key, dispatch_left_click, dispatch_move, dispatch_right_click, wheel_scrolls_terminal, RightClick, drag_kind, execute_menu_action,
    menu_click, next_click_count, plan_redraw, plan_timer_wake, pointer_icon, save_ssh_session,
    selection_kind, session_of_result, session_ssh_config, AppCommand, ClickDispatch,
    DragKind, FramePlan, FrameState, KeyDispatch, MoveDispatch, PanelFrame, Platform,
    PointerIcon, Render, SelectionKind, Wake, BLINK_INTERVAL_NS, BLINK_PAUSE_NS, window_step,
    WindowEventKind, WindowStep,
};
use pfauterminal::dropdown::{
    context_menu_entries, new_tab_menu_entries, DropdownElement, DropdownMenu, MenuAction,
};
use pfauterminal::hotkeys::KeyCode;
use pfauterminal::saved_sessions::{SavedAuthType, SavedSession, SavedSessions};
use pfauterminal::ssh::SshAuth;
use pfauterminal::ssh_dialog::{AuthMethod, SshResult};
use pfauterminal::tab_bar::TabBarElement;
use pfauterminal::tabs::{CloseOutcome, TabList};
use pfauterminal::terminal_panel::PanelId;

fn saved(user: &str, host: &str, port: u16, auth: SavedAuthType, key: Option<&str>) -> SavedSession {
    SavedSession {
        host: host.to_string(),
        port,
        username: user.to_string(),
        auth_type: auth,
        key_path: key.map(|k| k.to_string()),
        last_used: 1,
    }
}

fn tabs_of(n: u64) -> TabList {
    let mut t = TabList::new();
    for i in 1..=n {
        t.add(PanelId(i), "Terminal");
    }
    t
}

fn ids(t: &TabList) -> Vec<u64> {
    (0..t.len()).map(|i| t.id_at(i).unwrap().0).collect()
}

#[test]
fn added_tab_becomes_active() {
    let t = tabs_of(3);
    assert_eq!(t.len(), 3);
    assert_eq!(t.active(), 2);
    assert_eq!(t.active_id(), Some(PanelId(3)));
    assert_eq!(t.title_at(0), Some("Terminal"));
}

#[test]
fn closing_tabs_clamps_active() {
    let mut t = tabs_of(3);
    assert_eq!(t.close(2), CloseOutcome::Closed);
    assert_eq!(ids(&t), vec![1, 2]);
    assert_eq!(t.active(), 1);
    assert!(t.select(0));
    assert_eq!(t.close(1), CloseOutcome::Closed);
    assert_eq!(t.active(), 0);
    assert_eq!(t.close(5), CloseOutcome::NoSuchTab);
    assert_eq!(t.close(0), CloseOutcome::ClosedLast);
    assert_eq!(t.len(), 0);
    assert_eq!(t.active_id(), None);
}

#[test]
fn closing_before_active_keeps_the_index() {
    let mut t = tabs_of(3);
    assert!(t.select(1));
    t.close(0);
    assert_eq!(t.active(), 1);
    assert_eq!(t.active_id(), Some(PanelId(3)));
    assert!(!t.select(9));
}

#[test]
fn exited_panel_is_removed() {
    let mut t = tabs_of(3);
    assert!(!t.remove_panel(PanelId(2)));
    assert_eq!(ids(&t), vec![1, 3]);
    assert_eq!(t.active(), 1);
    assert!(!t.remove_panel(PanelId(9)));
    assert_eq!(ids(&t), vec![1, 3]);
    assert!(!t.remove_panel(PanelId(1)));
    assert!(t.remove_panel(PanelId(3)));
    assert_eq!(t.len(), 0);
}

#[test]
fn titles_follow_panels() {
    let mut t = tabs_of(2);
    assert!(t.set_title(PanelId(2), "vim"));
    assert_eq!(t.title_at(1), Some("vim"));
    assert_eq!(t.title_at(0), Some("Terminal"));
    assert!(!t.set_title(PanelId(7), "x"));
}

#[test]
fn keys_on_macos() {
    let k = |key, cmd, tabs| dispatch_key(Platform::MacOs, false, false, true, key, cmd, false, false, tabs);
    assert_eq!(k(KeyCode::KeyC, true, 1), KeyDispatch::CopySelection);
    assert_eq!(k(KeyCode::KeyV, true, 1), KeyDispatch::Paste);
    assert_eq!(k(KeyCode::KeyS, true, 1), KeyDispatch::Screenshot);
    assert_eq!(k(KeyCode::KeyT, true, 1), KeyDispatch::NewTab);
    assert_eq!(k(KeyCode::KeyW, true, 1), KeyDispatch::Exit);
    assert_eq!(k(KeyCode::KeyW, true, 2), KeyDispatch::CloseActiveTab);
    assert_eq!(k(KeyCode::KeyX, true, 2), KeyDispatch::Swallow);
    assert_eq!(k(KeyCode::KeyX, false, 2), KeyDispatch::ToTerminal);
}

#[test]
fn keys_elsewhere() {
    let k = |key, ctrl, sel| dispatch_key(Platform::Other, false, false, true, key, false, ctrl, sel, 2);
    assert_eq!(k(KeyCode::KeyC, true, true), KeyDispatch::CopySelection);
    assert_eq!(k(KeyCode::KeyC, true, false), KeyDispatch::ToTerminal);
    assert_eq!(k(KeyCode::KeyV, true, false), KeyDispatch::Paste);
    assert_eq!(k(KeyCode::KeyW, true, false), KeyDispatch::CloseActiveTab);
    assert_eq!(k(KeyCode::KeyA, true, false), KeyDispatch::ToTerminal);
}

#[test]
fn dialog_and_menu_take_keys_first() {
    assert_eq!(
        dispatch_key(Platform::MacOs, true, true, true, KeyCode::Escape, false, false, false, 1),
        KeyDispatch::ToDialog
    );
    assert_eq!(
        dispatch_key(Platform::MacOs, false, true, true, KeyCode::Escape, false, false, false, 1),
        KeyDispatch::CloseMenu
    );
    assert_eq!(
        dispatch_key(Platform::MacOs, false, true, false, KeyCode::Escape, false, false, false, 1),
        KeyDispatch::ToTerminal
    );
}

#[test]
fn left_clicks_are_dispatched() {
    assert_eq!(dispatch_left_click(true, None, true, TabBarElement::PlusButton, 1), ClickDispatch::ToDialog);
    assert_eq!(
        dispatch_left_click(false, Some(DropdownElement::Item(0)), true, TabBarElement::PlusButton, 1),
        ClickDispatch::ToMenu(DropdownElement::Item(0))
    );
    assert_eq!(dispatch_left_click(false, None, true, TabBarElement::Tab(1), 2), ClickDispatch::SelectTab(1));
    assert_eq!(dispatch_left_click(false, None, true, TabBarElement::Tab(2), 2), ClickDispatch::Nothing);
    assert_eq!(dispatch_left_click(false, None, true, TabBarElement::CloseButton(0), 2), ClickDispatch::CloseTab(0));
    assert_eq!(dispatch_left_click(false, None, true, TabBarElement::PlusButton, 2), ClickDispatch::OpenNewTabMenu);
    assert_eq!(dispatch_left_click(false, None, false, TabBarElement::Nothing, 2), ClickDispatch::ToPanel);
    assert_eq!(dispatch_left_click(false, None, false, TabBarElement::Nothing, 0), ClickDispatch::Nothing);
}

#[test]
fn menu_clicks_run_or_forget() {
    let mut sessions = SavedSessions::new();
    sessions.upsert(saved("u", "h", 22, SavedAuthType::Agent, None));
    let shells = vec![("sh".to_string(), "/bin/sh".to_string())];
    let mut menu = DropdownMenu::new();
    menu.open_entries(new_tab_menu_entries(&shells, &sessions.sessions));

    let a = menu_click(&mut menu, &mut sessions, DropdownElement::Item(0), false);
    assert!(matches!(a, Some(MenuAction::NewShell(ref p)) if p == "/bin/sh"));
    assert!(!menu.is_open());

    menu.open_entries(new_tab_menu_entries(&shells, &sessions.sessions));
    assert!(menu_click(&mut menu, &mut sessions, DropdownElement::Nothing, false).is_none());
    assert!(menu.is_open());
    assert!(menu_click(&mut menu, &mut sessions, DropdownElement::CloseButton(1), false).is_none());
    assert!(!menu.is_open());
    assert!(sessions.sessions.is_empty());

    menu.open_entries(context_menu_entries(false));
    assert!(menu_click(&mut menu, &mut sessions, DropdownElement::Nothing, true).is_none());
    assert!(!menu.is_open());
}

#[test]
fn clicks_count_up_to_three() {
    assert_eq!(next_click_count(0, 50), 1);
    assert_eq!(next_click_count(1, 399), 2);
    assert_eq!(next_click_count(2, 10), 3);
    assert_eq!(next_click_count(3, 10), 3);
    assert_eq!(next_click_count(2, 400), 1);
    assert_eq!(selection_kind(1), SelectionKind::Simple);
    assert_eq!(selection_kind(2), SelectionKind::Semantic);
    assert_eq!(selection_kind(3), SelectionKind::Lines);
}

#[test]
fn pointer_movement() {
    assert_eq!(dispatch_move(true, true), MoveDispatch::ToDialog);
    assert_eq!(dispatch_move(false, true), MoveDispatch::MenuHover);
    assert_eq!(dispatch_move(false, false), MoveDispatch::Track);
    assert_eq!(drag_kind(false, true, true), DragKind::Nothing);
    assert_eq!(drag_kind(true, true, true), DragKind::Scrollbar);
    assert_eq!(drag_kind(true, true, false), DragKind::Selection);
    assert_eq!(pointer_icon(true, true, true), PointerIcon::Grabbing);
    assert_eq!(pointer_icon(false, true, true), PointerIcon::Grab);
    assert_eq!(pointer_icon(false, false, true), PointerIcon::Text);
    assert_eq!(pointer_icon(false, false, false), PointerIcon::Default);
}

#[test]
fn saved_sessions_become_configs() {
    let c = session_ssh_config(&saved("u", "h", 2200, SavedAuthType::Key, None));
    assert_eq!((c.host.as_str(), c.port, c.username.as_str()), ("h", 2200, "u"));
    assert!(matches!(c.auth, SshAuth::Key { ref path, passphrase: None } if path == "~/.ssh/id_ed25519"));
    let p = session_ssh_config(&saved("u", "h", 22, SavedAuthType::Password, None));
    assert!(matches!(p.auth, SshAuth::Password(ref pw) if pw.is_empty()));
}

#[test]
fn dialog_results_become_sessions() {
    let r = SshResult {
        host: "h".to_string(),
        port: "x".to_string(),
        username: "u".to_string(),
        auth_method: AuthMethod::Key,
        password: String::new(),
        key_path: "~/.ssh/k".to_string(),
        passphrase: String::new(),
    };
    let s = session_of_result(&r, 42);
    assert_eq!(s.port, 22);
    assert_eq!(s.auth_type, SavedAuthType::Key);
    assert_eq!(s.key_path.as_deref(), Some("~/.ssh/k"));
    assert_eq!(s.last_used, 42);
    let mut sessions = SavedSessions::new();
    save_ssh_session(&mut sessions, &r);
    assert_eq!(sessions.sessions.len(), 1);
    assert_eq!(sessions.sessions[0].key(), "u@h:22");
}

#[test]
fn menu_actions_become_commands() {
    let mut sessions = SavedSessions::new();
    sessions.upsert(saved("u", "h", 22, SavedAuthType::Agent, None));
    match execute_menu_action(&MenuAction::ConnectSavedSession("u@h:22".to_string()), &mut sessions, false) {
        AppCommand::Connect(c) => {
            assert_eq!(c.host, "h");
            assert!(matches!(c.auth, SshAuth::Agent));
        }
        other => panic!("unexpected {:?}", other),
    }
    assert!(sessions.sessions[0].last_used > 1);
    assert!(matches!(
        execute_menu_action(&MenuAction::ConnectSavedSession("gone@x:22".to_string()), &mut sessions, false),
        AppCommand::Nothing
    ));
    assert!(matches!(
        execute_menu_action(&MenuAction::NewShell("/bin/zsh".to_string()), &mut sessions, false),
        AppCommand::OpenShell(ref p) if p == "/bin/zsh"
    ));
    assert!(matches!(execute_menu_action(&MenuAction::OpenSshDialog, &mut sessions, true), AppCommand::Nothing));
    assert!(matches!(execute_menu_action(&MenuAction::OpenSshDialog, &mut sessions, false), AppCommand::OpenSshDialog));
    assert!(matches!(execute_menu_action(&MenuAction::Copy, &mut sessions, false), AppCommand::CopySelection));
    assert!(matches!(execute_menu_action(&MenuAction::Paste, &mut sessions, false), AppCommand::Paste));
}

fn frame(dirty: bool, panel: Option<PanelFrame>, since: u64) -> FrameState {
    FrameState { occluded: false, dirty, dialog_open: false, panel, since_last_redraw_ns: since }
}

fn blinking(age: u64) -> Option<PanelFrame> {
    Some(PanelFrame { cursor_visible: true, animating: false, input_age_ns: age })
}

#[test]
fn redraw_plans() {
    let hidden = FrameState { occluded: true, ..frame(true, blinking(0), 0) };
    assert_eq!(plan_redraw(hidden).render, Render::Nothing);
    let dirty = plan_redraw(frame(true, blinking(BLINK_PAUSE_NS), 0));
    assert_eq!(dirty, FramePlan { render: Render::Full, clear_dirty: true, wake: Wake::AfterRender(BLINK_INTERVAL_NS) });
    let paused = plan_redraw(frame(false, blinking(100_000_000), BLINK_INTERVAL_NS));
    assert_eq!(paused, FramePlan { render: Render::Nothing, clear_dirty: false, wake: Wake::FromNow(400_000_000) });
    let blink = plan_redraw(frame(false, blinking(BLINK_PAUSE_NS), BLINK_INTERVAL_NS));
    assert_eq!(blink.render, Render::BlinkOnly);
    let early = plan_redraw(frame(false, blinking(BLINK_PAUSE_NS), 1));
    assert_eq!(early, FramePlan { render: Render::Nothing, clear_dirty: false, wake: Wake::AfterLastRedraw(BLINK_INTERVAL_NS) });
    let hidden_cursor = Some(PanelFrame { cursor_visible: false, animating: false, input_age_ns: 0 });
    assert_eq!(plan_redraw(frame(false, hidden_cursor, 0)), FramePlan { render: Render::Full, clear_dirty: false, wake: Wake::Unchanged });
    let dialog = FrameState { dialog_open: true, ..frame(false, blinking(BLINK_PAUSE_NS), BLINK_INTERVAL_NS) };
    assert_eq!(plan_redraw(dialog).render, Render::Full);
}

#[test]
fn timer_wake_plans() {
    assert_eq!(plan_timer_wake(frame(true, blinking(0), 0)).render, Render::Request);
    let animating = Some(PanelFrame { cursor_visible: true, animating: true, input_age_ns: 0 });
    assert_eq!(plan_timer_wake(frame(false, animating, 0)).wake, Wake::AfterRender(BLINK_INTERVAL_NS));
    assert_eq!(plan_timer_wake(frame(false, blinking(BLINK_PAUSE_NS), 0)).render, Render::BlinkOnly);
    assert_eq!(plan_timer_wake(frame(false, None, 0)).render, Render::Nothing);
}

#[test]
fn right_clicks_and_wheel() {
    assert_eq!(dispatch_right_click(true, true), RightClick::Ignore);
    assert_eq!(dispatch_right_click(false, true), RightClick::OpenContextMenu { close_open_menu: true });
    assert_eq!(dispatch_right_click(false, false), RightClick::OpenContextMenu { close_open_menu: false });
    assert!(!wheel_scrolls_terminal(true, true));
    assert!(wheel_scrolls_terminal(false, true));
    assert!(!wheel_scrolls_terminal(false, false));
}

#[test]
fn window_events_first_decision() {
    assert_eq!(window_step(Some(1), 2, WindowEventKind::CloseRequested), WindowStep::Ignore);
    assert_eq!(window_step(Some(1), 1, WindowEventKind::CloseRequested), WindowStep::Exit);
    assert_eq!(window_step(None, 7, WindowEventKind::Resized), WindowStep::Relayout);
    assert_eq!(window_step(Some(1), 1, WindowEventKind::ScaleFactorChanged), WindowStep::Relayout);
    assert_eq!(
        window_step(Some(1), 1, WindowEventKind::Occluded(false)),
        WindowStep::SetOccluded { occluded: false, redraw: true }
    );
    assert_eq!(
        window_step(Some(1), 1, WindowEventKind::Occluded(true)),
        WindowStep::SetOccluded { occluded: true, redraw: false }
    );
    assert_eq!(window_step(Some(1), 1, WindowEventKind::Other), WindowStep::Dispatch);
}
