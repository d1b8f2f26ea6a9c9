use pfauterminal::screenshot::{align_up, bgra_to_rgba, COPY_ROW_ALIGNMENT};

#[test]
fn rows_align_to_multiples() {
    assert_eq!(align_up(0, COPY_ROW_ALIGNMENT), 0);
    assert_eq!(align_up(1, 256), 256);
    assert_eq!(align_up(256, 256), 256);
    assert_eq!(align_up(800 * 4, 256), 3328);
    assert_eq!(align_up(5, 1), 5);
}

#[test]
fn bgra_rows_become_rgba_without_padding() {
    // two rows of two pixels, rows eight bytes apart plus four bytes of padding
    let data = vec![
        1, 2, 3, 4, 5, 6, 7, 8, 0, 0, 0, 0, //
        9, 10, 11, 12, 13, 14, 15, 16, 0, 0, 0, 0,
    ];
    let out = bgra_to_rgba(&data, 2, 2, 12);
    assert_eq!(out, vec![3, 2, 1, 4, 7, 6, 5, 8, 11, 10, 9, 12, 15, 14, 13, 16]);
    assert!(bgra_to_rgba(&[], 3, 0, 16).is_empty());
}

#[test]
fn align_up_at_the_top_of_the_range() {
    assert_eq!(align_up(0xFFFF_FF00, 256), 0xFFFF_FF00);
    assert_eq!(align_up(u32::MAX, 1), u32::MAX);
}
