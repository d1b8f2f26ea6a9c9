use pfauterminal::paths::{colors_file_in, config_file_in, ssh_config_in, ssh_dir_in};
use pfauterminal::ssh::{expand_home, join_path, shellexpand_path, SshMsg};
use pfauterminal::ssh_session::{
    auth_failure_message, authenticating_message, connecting_message, default_key_paths,
    key_auth_result, on_channel_event, on_window_message, password_auth_result, pty_size,
    resize_message, session_error_message, session_title, AuthLog, AuthReply, ChannelEvent,
    LoopStep, SHOW_CURSOR,
};
use pfauterminal::terminal_panel::TermSize;

#[test]
fn home_expansion() {
    let home: &[u8] = b"/home/me";
    assert_eq!(expand_home("~/.ssh/id_rsa", Some(home)), b"/home/me/.ssh/id_rsa".to_vec());
    assert_eq!(expand_home("~/.ssh/id_rsa", Some(&b"/home/me/"[..])), b"/home/me/.ssh/id_rsa".to_vec());
    assert_eq!(expand_home("~/.ssh/id_rsa", None), b"~/.ssh/id_rsa".to_vec());
    assert_eq!(expand_home("/etc/key", Some(home)), b"/etc/key".to_vec());
    assert_eq!(expand_home("~user/key", Some(home)), b"~user/key".to_vec());
    assert_eq!(expand_home("~//abs", Some(home)), b"/abs".to_vec());
    // a home directory that is not valid Unicode is kept as it is
    assert_eq!(expand_home("~/k", Some(&b"/home/\xff"[..])), b"/home/\xff/k".to_vec());
    assert_eq!(shellexpand_path("/abs/key"), b"/abs/key".to_vec());
}

#[test]
fn path_join_like_unix() {
    assert_eq!(join_path(b"/a", b"b"), b"/a/b".to_vec());
    assert_eq!(join_path(b"/a/", b"b"), b"/a/b".to_vec());
    assert_eq!(join_path(b"", b"b"), b"b".to_vec());
    assert_eq!(join_path(b"/a", b"/b"), b"/b".to_vec());
}

#[test]
fn terminal_messages() {
    assert_eq!(connecting_message("host", 2222), "\x1b[?25lConnecting to host:2222...\r\n");
    assert_eq!(authenticating_message("me"), "Authenticating as me...\r\n");
    assert_eq!(
        auth_failure_message("me", "host", "bad"),
        "\x1b[?25l\r\n\x1b[31mAuthentication failed for me@host\r\n  bad\x1b[0m\r\n"
    );
    assert_eq!(session_error_message("boom"), "\x1b[?25l\r\n\x1b[31mSSH error: boom\x1b[0m\r\n");
    assert_eq!(session_title("me", "host"), "me@host");
    assert_eq!(SHOW_CURSOR, "\x1b[?25h");
}

#[test]
fn password_and_key_outcomes() {
    assert!(password_auth_result(&AuthReply::Accepted).is_ok());
    assert_eq!(password_auth_result(&AuthReply::Rejected), Err("server rejected password".to_string()));
    assert_eq!(
        password_auth_result(&AuthReply::Failed("eof".to_string())),
        Err("password auth error: eof".to_string())
    );
    assert!(key_auth_result("/k", &Ok(AuthReply::Accepted)).is_ok());
    assert_eq!(key_auth_result("/k", &Ok(AuthReply::Rejected)), Err("server rejected key /k".to_string()));
    assert_eq!(
        key_auth_result("/k", &Err("bad format".to_string())),
        Err("failed to load key /k: bad format".to_string())
    );
    assert_eq!(
        key_auth_result("/k", &Ok(AuthReply::Failed("x".to_string()))),
        Err("public key auth error: x".to_string())
    );
}

#[test]
fn agent_failure_reasons_are_joined() {
    let empty = AuthLog::new();
    assert_eq!(empty.failure_reason(), "no keys available and agent not reachable");
    let mut log = AuthLog::new();
    log.agent_unavailable();
    assert!(!log.agent_key_reply(&AuthReply::Rejected));
    assert!(log.agent_key_reply(&AuthReply::Accepted));
    log.no_default_keys("/home/me/.ssh");
    assert_eq!(
        log.failure_reason(),
        "SSH_AUTH_SOCK not set — agent not available\r\n  agent key rejected by server\r\n  no default keys found in /home/me/.ssh"
    );
    let mut keys = AuthLog::new();
    assert!(!keys.default_key_reply("/h/.ssh/id_rsa", &AuthReply::Failed("io".to_string())));
    keys.key_unreadable("/h/.ssh/id_ed25519", "locked");
    keys.agent_unreachable("/tmp/sock", "refused");
    keys.agent_identities_failed("timeout");
    keys.agent_empty();
    keys.no_home();
    assert_eq!(
        keys.failure_reason(),
        "/h/.ssh/id_rsa auth error: io\r\n  failed to load /h/.ssh/id_ed25519: locked\r\n  cannot connect to SSH agent at /tmp/sock: refused\r\n  agent request_identities failed: timeout\r\n  agent has no identities\r\n  cannot determine home directory for default keys"
    );
}

#[test]
fn default_key_files() {
    assert_eq!(
        default_key_paths(b"/home/me/.ssh"),
        vec![
            b"/home/me/.ssh/id_ed25519".to_vec(),
            b"/home/me/.ssh/id_rsa".to_vec(),
            b"/home/me/.ssh/id_ecdsa".to_vec()
        ]
    );
}

#[test]
fn session_loop_steps() {
    assert!(matches!(on_channel_event(ChannelEvent::Data(vec![1, 2])), LoopStep::ShowOutput(ref d) if *d == vec![1, 2]));
    assert!(matches!(on_channel_event(ChannelEvent::ExtendedData(vec![3])), LoopStep::ShowOutput(ref d) if *d == vec![3]));
    assert!(matches!(on_channel_event(ChannelEvent::Eof), LoopStep::Stop));
    assert!(matches!(on_channel_event(ChannelEvent::ExitStatus), LoopStep::Stop));
    assert!(matches!(on_channel_event(ChannelEvent::Closed), LoopStep::Stop));
    assert!(matches!(on_channel_event(ChannelEvent::Other), LoopStep::Continue));
    assert!(matches!(on_window_message(Some(SshMsg::Input(b"ls".to_vec()))), LoopStep::SendInput(ref d) if d == b"ls"));
    assert!(matches!(
        on_window_message(Some(SshMsg::Resize { cols: 80, rows: 24 })),
        LoopStep::WindowChange { cols: 80, rows: 24 }
    ));
    assert!(matches!(on_window_message(None), LoopStep::Stop));
}

#[test]
fn sizes_for_the_channel() {
    let s = TermSize::new(100, 40);
    assert_eq!(pty_size(s), (100, 40));
    assert!(matches!(resize_message(s), SshMsg::Resize { cols: 100, rows: 40 }));
    let big = TermSize::new(70000, 3);
    assert_eq!(pty_size(big), (70000u32 as u16, 3));
}

#[test]
fn file_locations() {
    assert_eq!(
        config_file_in(b"/home/me/.config", "sessions.json"),
        b"/home/me/.config/pfauterminal/sessions.json".to_vec()
    );
    assert_eq!(config_file_in(b".", "hotkeys.json"), b"./pfauterminal/hotkeys.json".to_vec());
    assert_eq!(colors_file_in(b"/home/me"), b"/home/me/.pfauterminal/colors.json".to_vec());
    assert_eq!(ssh_dir_in(b"/home/me"), b"/home/me/.ssh".to_vec());
    assert_eq!(ssh_config_in(b"/home/me/"), b"/home/me/.ssh/config".to_vec());
}
