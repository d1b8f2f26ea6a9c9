use pfauterminal::saved_sessions::{seconds_or_zero, SavedAuthType, SavedSession, SavedSessions};

fn session(user: &str, host: &str, port: u16, used: u64) -> SavedSession {
    SavedSession {
        host: host.to_string(),
        port,
        username: user.to_string(),
        auth_type: SavedAuthType::Agent,
        key_path: None,
        last_used: used,
    }
}

fn keys(s: &SavedSessions) -> Vec<String> {
    s.sessions.iter().map(|x| x.key()).collect()
}

#[test]
fn session_label_and_key() {
    let a = session("root", "example.com", 22, 0);
    assert_eq!(a.display_label(), "root@example.com");
    assert_eq!(a.key(), "root@example.com:22");
    let b = session("admin", "10.0.0.1", 2222, 0);
    assert_eq!(b.display_label(), "admin@10.0.0.1:2222");
    assert_eq!(b.key(), "admin@10.0.0.1:2222");
}

#[test]
fn upsert_orders_most_recent_first() {
    let mut s = SavedSessions::new();
    s.upsert(session("a", "h1", 22, 10));
    s.upsert(session("b", "h2", 22, 30));
    s.upsert(session("c", "h3", 22, 20));
    assert_eq!(keys(&s), vec!["b@h2:22", "c@h3:22", "a@h1:22"]);
}

#[test]
fn upsert_updates_existing_key() {
    let mut s = SavedSessions::new();
    s.upsert(session("a", "h1", 22, 10));
    s.upsert(session("b", "h2", 22, 20));
    let mut again = session("a", "h1", 22, 50);
    again.auth_type = SavedAuthType::Key;
    again.key_path = Some("~/.ssh/id_rsa".to_string());
    s.upsert(again);
    assert_eq!(s.sessions.len(), 2);
    assert_eq!(keys(&s), vec!["a@h1:22", "b@h2:22"]);
    let found = s.find_by_key("a@h1:22").unwrap();
    assert_eq!(found.last_used, 50);
    assert_eq!(found.auth_type, SavedAuthType::Key);
    assert_eq!(found.key_path.as_deref(), Some("~/.ssh/id_rsa"));
}

#[test]
fn remove_then_find_is_none() {
    let mut s = SavedSessions::new();
    s.upsert(session("a", "h1", 22, 10));
    s.upsert(session("b", "h2", 2200, 20));
    s.remove_by_key("b@h2:2200");
    assert!(s.find_by_key("b@h2:2200").is_none());
    assert_eq!(keys(&s), vec!["a@h1:22"]);
    s.remove_by_key("missing@x:22");
    assert_eq!(keys(&s), vec!["a@h1:22"]);
}

#[test]
fn touch_at_moves_session_first() {
    let mut s = SavedSessions::new();
    s.upsert(session("a", "h1", 22, 10));
    s.upsert(session("b", "h2", 22, 20));
    s.touch_by_key_at("a@h1:22", 99);
    assert_eq!(keys(&s), vec!["a@h1:22", "b@h2:22"]);
    assert_eq!(s.find_by_key("a@h1:22").unwrap().last_used, 99);
    s.touch_by_key_at("nobody@h:22", 200);
    assert_eq!(keys(&s), vec!["a@h1:22", "b@h2:22"]);
}

#[test]
fn touch_uses_the_clock() {
    let mut s = SavedSessions::new();
    s.upsert(session("a", "h1", 22, 0));
    s.upsert(session("b", "h2", 22, 1));
    s.touch_by_key("a@h1:22");
    assert!(s.find_by_key("a@h1:22").unwrap().last_used > 1);
    assert_eq!(keys(&s), vec!["a@h1:22", "b@h2:22"]);
}

#[test]
fn sort_is_stable_for_equal_times() {
    let mut s = SavedSessions {
        sessions: vec![
            session("x", "h", 1, 5),
            session("y", "h", 2, 7),
            session("z", "h", 3, 5),
        ],
    };
    s.sort();
    assert_eq!(keys(&s), vec!["y@h:2", "x@h:1", "z@h:3"]);
}

#[test]
fn sorting_a_sorted_list_changes_nothing() {
    let mut s = SavedSessions::new();
    s.upsert(session("a", "h1", 22, 10));
    s.upsert(session("b", "h2", 22, 30));
    s.upsert(session("c", "h3", 22, 30));
    s.upsert(session("d", "h4", 22, 5));
    let before = keys(&s);
    s.sort();
    assert_eq!(keys(&s), before);
    assert_eq!(before, vec!["b@h2:22", "c@h3:22", "a@h1:22", "d@h4:22"]);
}

#[test]
fn clock_reading_before_the_epoch_counts_as_zero() {
    assert_eq!(seconds_or_zero(Some(1_700_000_000)), 1_700_000_000);
    assert_eq!(seconds_or_zero(None), 0);
}
