use tui_calc::digits::Digits;
use tui_calc::screen::{entry_start, first_shown, too_small};

#[test]
fn grid_needs_forty_six_columns_and_six_rows() {
    assert!(!too_small(46, 6));
    assert!(too_small(45, 6));
    assert!(too_small(46, 5));
    assert!(too_small(0, 0));
    assert!(!too_small(u16::MAX, u16::MAX));
}

#[test]
fn box_shows_the_latest_lines() {
    assert_eq!(first_shown(10, 5), 7);
    assert_eq!(first_shown(3, 5), 0);
    assert_eq!(first_shown(4, 5), 1);
    assert_eq!(first_shown(0, 2), 0);
    assert_eq!(first_shown(1, 2), 1);
    assert_eq!(first_shown(0, u16::MAX), 0);
}

#[test]
fn entry_is_flush_right_on_the_middle_row() {
    let mut entry = Digits::default();
    entry.set_negative(true);
    assert_eq!(entry.push('1'), Ok(()));
    assert_eq!(entry.push('2'), Ok(()));
    entry.set_decimal_position();
    assert_eq!(entry.push('5'), Ok(()));
    assert_eq!(entry.to_string(), "-12.5");
    assert_eq!(entry_start(&entry, 3, 20, 4), (15, 4, 5));
    assert_eq!(entry_start(&entry, 3, 20, 5), (15, 5, 5));
    assert_eq!(entry_start(&entry, 0, 5, 1), (0, 0, 5));
    assert_eq!(entry_start(&entry, 7, 3, 0), (0, 7, 5));
}

#[test]
fn empty_entry_takes_one_column() {
    let entry = Digits::default();
    assert_eq!(entry_start(&entry, 0, 10, 3), (9, 1, 1));
}
