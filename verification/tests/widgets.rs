use pfauterminal::widgets::TextField;

fn field_with(text: &str) -> TextField {
    let mut f = TextField::new("placeholder", false);
    f.set_value(text);
    f
}

#[test]
fn new_field_is_empty_and_shows_placeholder() {
    let f = TextField::new("hostname", false);
    assert_eq!(f.value(), "");
    assert_eq!(f.cursor_pos(), 0);
    assert!(!f.is_focused());
    assert!(!f.has_selection());
    assert!(f.is_showing_placeholder());
    assert_eq!(f.display_text(), "hostname");
}

#[test]
fn password_field_shows_stars() {
    let mut f = TextField::new("secret", true);
    assert!(!f.is_showing_placeholder());
    assert_eq!(f.display_text(), "");
    f.set_value("hunter2");
    assert_eq!(f.display_text(), "*******");
    assert_eq!(f.value(), "hunter2");
}

#[test]
fn insert_and_delete_back_restores_text() {
    let mut f = field_with("helo");
    f.click_at(3);
    f.insert_text("l");
    assert_eq!(f.value(), "hello");
    assert_eq!(f.cursor_pos(), 4);
    f.delete_back();
    assert_eq!(f.value(), "helo");
    assert_eq!(f.cursor_pos(), 3);
}

#[test]
fn insert_skips_control_characters() {
    let mut f = field_with("");
    f.insert_text("a\nb\tc");
    assert_eq!(f.value(), "abc");
    assert_eq!(f.cursor_pos(), 3);
}

#[test]
fn insert_replaces_selection() {
    let mut f = field_with("hello world");
    f.move_home(false);
    f.move_right(true);
    f.move_right(true);
    f.move_right(true);
    f.move_right(true);
    f.move_right(true);
    assert_eq!(f.selected_text(), Some("hello".to_string()));
    f.insert_text("bye");
    assert_eq!(f.value(), "bye world");
    assert_eq!(f.cursor_pos(), 3);
    assert!(!f.has_selection());
}

#[test]
fn select_all_then_delete_empties() {
    let mut f = field_with("abc");
    f.select_all();
    assert_eq!(f.selection_range(), (0, 3));
    assert_eq!(f.selected_text(), Some("abc".to_string()));
    f.delete_forward();
    assert_eq!(f.value(), "");
    assert_eq!(f.cursor_pos(), 0);
}

#[test]
fn select_all_on_empty_selects_nothing() {
    let mut f = field_with("");
    f.select_all();
    assert!(!f.has_selection());
}

#[test]
fn delete_forward_and_at_edges() {
    let mut f = field_with("abc");
    f.delete_forward();
    assert_eq!(f.value(), "abc");
    f.move_home(false);
    f.delete_back();
    assert_eq!(f.value(), "abc");
    f.delete_forward();
    assert_eq!(f.value(), "bc");
    assert_eq!(f.cursor_pos(), 0);
}

#[test]
fn arrows_collapse_selection() {
    let mut f = field_with("abcdef");
    f.click_at(2);
    f.move_right(true);
    f.move_right(true);
    assert_eq!(f.selection_range(), (2, 4));
    f.move_left(false);
    assert_eq!(f.cursor_pos(), 2);
    assert!(!f.has_selection());
    f.move_end(true);
    assert_eq!(f.selection_range(), (2, 6));
    f.move_right(false);
    assert_eq!(f.cursor_pos(), 6);
    assert!(!f.has_selection());
}

#[test]
fn shift_back_to_anchor_drops_selection() {
    let mut f = field_with("abc");
    f.click_at(1);
    f.move_right(true);
    assert!(f.has_selection());
    f.move_left(true);
    assert!(!f.has_selection());
    assert_eq!(f.cursor_pos(), 1);
}

#[test]
fn click_clamps_and_focuses() {
    let mut f = field_with("abc");
    f.select_all();
    f.click_at(10);
    assert_eq!(f.cursor_pos(), 3);
    assert!(f.is_focused());
    assert!(!f.has_selection());
    f.set_focused(false);
    assert!(!f.is_focused());
}

#[test]
fn delete_selection_inner_keeps_start() {
    let mut f = field_with("abcdef");
    f.click_at(5);
    f.move_left(true);
    f.move_left(true);
    f.move_left(true);
    f.delete_selection_inner();
    assert_eq!(f.value(), "abf");
    assert_eq!(f.cursor_pos(), 2);
}

#[test]
fn unicode_text_counts_characters() {
    let mut f = field_with("héllo");
    assert_eq!(f.cursor_pos(), 5);
    f.move_left(false);
    f.delete_back();
    assert_eq!(f.value(), "hélo");
    assert_eq!(f.cursor_pos(), 3);
}
