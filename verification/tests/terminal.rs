use pfauterminal::terminal_panel::{
    grid_changed, key_to_bytes, named_key_bytes, route_emulator_event, EmulatorEvent,
    EventRoute, KeyPress, LogicalKey, NamedKey, PanelId, PanelIdCounter, TermSize,
    TerminalEvent,
};

fn press(key: LogicalKey, text: Option<&str>) -> KeyPress {
    KeyPress { pressed: true, logical_key: key, text: text.map(|t| t.to_string()) }
}

#[test]
fn panel_ids_count_up_from_one() {
    let mut c = PanelIdCounter::new();
    assert_eq!(PanelId::next(&mut c), PanelId(1));
    assert_eq!(PanelId::next(&mut c), PanelId(2));
    assert_eq!(PanelId::next(&mut c), PanelId(3));
}

#[test]
fn panel_ids_from_one_counter_are_distinct_and_nonzero() {
    let mut c = PanelIdCounter::new();
    let ids: Vec<PanelId> = (0..200).map(|_| PanelId::next(&mut c)).collect();
    for (i, a) in ids.iter().enumerate() {
        assert_ne!(*a, PanelId(0));
        for b in ids.iter().skip(i + 1) {
            assert_ne!(a, b);
            assert!(a.0 < b.0);
        }
    }
}

#[test]
fn term_size_has_a_floor_of_two() {
    let s = TermSize::new(0, 1);
    assert_eq!((s.columns(), s.screen_lines(), s.total_lines()), (2, 2, 2));
    let t = TermSize::new(80, 24);
    assert_eq!((t.columns(), t.screen_lines(), t.total_lines()), (80, 24, 24));
}

#[test]
fn ctrl_letters_send_control_bytes() {
    let e = press(LogicalKey::Character("c".to_string()), Some("c"));
    assert_eq!(key_to_bytes(&e, true, false, false), Some(vec![3]));
    let e = press(LogicalKey::Character("A".to_string()), Some("A"));
    assert_eq!(key_to_bytes(&e, true, false, false), Some(vec![1]));
    let e = press(LogicalKey::Character("[".to_string()), Some("["));
    assert_eq!(key_to_bytes(&e, true, false, false), Some(vec![0x1B]));
}

#[test]
fn alt_prefixes_escape() {
    let e = press(LogicalKey::Character("x".to_string()), Some("x"));
    assert_eq!(key_to_bytes(&e, false, true, false), Some(vec![0x1B, b'x']));
}

#[test]
fn plain_text_is_sent_as_utf8() {
    let e = press(LogicalKey::Character("é".to_string()), Some("é"));
    assert_eq!(key_to_bytes(&e, false, false, false), Some("é".as_bytes().to_vec()));
}

#[test]
fn named_keys_send_escape_sequences() {
    let up = press(LogicalKey::Named(NamedKey::ArrowUp), None);
    assert_eq!(key_to_bytes(&up, false, false, false), Some(vec![0x1B, b'[', b'A']));
    assert_eq!(key_to_bytes(&up, false, false, true), Some(vec![0x1B, b'O', b'A']));
    let enter = press(LogicalKey::Named(NamedKey::Enter), Some("\r"));
    assert_eq!(key_to_bytes(&enter, false, false, false), Some(vec![0x0D]));
    assert_eq!(named_key_bytes(NamedKey::F5, false), Some(b"\x1b[15~".to_vec()));
    assert_eq!(named_key_bytes(NamedKey::Other, false), None);
}

#[test]
fn released_keys_send_nothing() {
    let mut e = press(LogicalKey::Character("a".to_string()), Some("a"));
    e.pressed = false;
    assert_eq!(key_to_bytes(&e, false, false, false), None);
}

#[test]
fn emulator_events_are_routed() {
    let id = PanelId(7);
    match route_emulator_event(id, EmulatorEvent::Title("vim".to_string())) {
        EventRoute::ToWindow(TerminalEvent::Title(p, t)) => {
            assert_eq!(p, id);
            assert_eq!(t, "vim");
        }
        other => panic!("unexpected {:?}", other),
    }
    match route_emulator_event(id, EmulatorEvent::ChildExit(1)) {
        EventRoute::ToWindow(TerminalEvent::Exit(p)) => assert_eq!(p, id),
        other => panic!("unexpected {:?}", other),
    }
    match route_emulator_event(id, EmulatorEvent::PtyWrite("\x1b[1;1R".to_string())) {
        EventRoute::ToShell(b) => assert_eq!(b, b"\x1b[1;1R".to_vec()),
        other => panic!("unexpected {:?}", other),
    }
    assert!(matches!(
        route_emulator_event(id, EmulatorEvent::Wakeup),
        EventRoute::ToWindow(TerminalEvent::Wakeup)
    ));
    assert!(matches!(route_emulator_event(id, EmulatorEvent::Other), EventRoute::Drop));
}

#[test]
fn grid_change_detection() {
    assert!(grid_changed(None, 80, 24));
    assert!(!grid_changed(Some((80, 24)), 80, 24));
    assert!(grid_changed(Some((80, 24)), 81, 24));
    assert!(grid_changed(Some((80, 24)), 80, 25));
}
