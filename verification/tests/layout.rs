use pfauterminal::layout::update_if_changed;
use pfauterminal::tab_bar::TabBarElement;

#[test]
fn update_if_changed_reports_changes() {
    let mut v: u32 = 3;
    assert!(!update_if_changed(&mut v, 3));
    assert!(update_if_changed(&mut v, 4));
    assert_eq!(v, 4);
    let mut hover = TabBarElement::Nothing;
    assert!(update_if_changed(&mut hover, TabBarElement::Tab(2)));
    assert!(!update_if_changed(&mut hover, TabBarElement::Tab(2)));
    assert_eq!(hover, TabBarElement::Tab(2));
}
