use tab_bar::rect::Rect;
use tab_bar::scroll::{centered_tab_scroll, max_tab_scroll};
use tab_bar::strip::{tab_strip_in_range, tab_strip_layout, TabSlot, TabStrip};

fn rect(x: u16, y: u16, width: u16, height: u16) -> Rect {
    Rect { x, y, width, height }
}

fn slot(index: usize, x: u16, width: u16) -> TabSlot {
    TabSlot { index, x, width }
}

#[test]
fn trailing_scroll_limit_accounts_for_full_widths_and_separators() {
    for (widths, available, expected) in [
        (&[][..], 0, 0),
        (&[8, 13][..], 0, 1),
        (&[8, 13][..], 1, 1),
        (&[8, 13][..], 12, 1),
        (&[8, 13][..], 21, 1),
        (&[8, 13][..], 22, 0),
        (&[8, 13][..], 30, 0),
        (&[8, u16::MAX][..], u16::MAX, 1),
    ] {
        assert_eq!(
            max_tab_scroll(widths, available),
            expected,
            "widths={widths:?}, available={available}"
        );
    }
}

#[test]
fn trailing_scroll_limit_takes_the_longest_visible_row() {
    assert_eq!(max_tab_scroll(&[10, 10, 10], 21), 1);
    assert_eq!(max_tab_scroll(&[10, 10, 10], 31), 1);
    assert_eq!(max_tab_scroll(&[10, 10, 10], 32), 0);
    assert_eq!(max_tab_scroll(&[u16::MAX, u16::MAX], u16::MAX), 1);
}

#[test]
fn focused_tab_is_centered() {
    assert_eq!(centered_tab_scroll(1, &[8, 8, 8], 20), 0);
    assert_eq!(centered_tab_scroll(2, &[8, 8, 8], 20), 1);
    assert_eq!(centered_tab_scroll(0, &[8], 20), 0);
}

#[test]
fn of_equally_good_places_the_later_one_centers() {
    assert_eq!(centered_tab_scroll(1, &[5, 4], 10), 1);
    assert_eq!(centered_tab_scroll(1, &[4, 4], 10), 0);
}

#[test]
fn without_room_the_focused_tab_comes_first() {
    assert_eq!(centered_tab_scroll(2, &[8, 8, 8], 0), 2);
    assert_eq!(centered_tab_scroll(7, &[8], 0), 7);
    assert_eq!(centered_tab_scroll(1, &[8, 8], 1), 1);
}

#[test]
fn wide_tabs_before_the_focused_one_do_not_overflow() {
    assert_eq!(
        centered_tab_scroll(2, &[u16::MAX - 1, u16::MAX - 1, u16::MAX], u16::MAX),
        2
    );
}

#[test]
fn fitting_tabs_are_drawn_in_full() {
    let strip = tab_strip_layout(&[8, 13], Some(1), rect(0, 0, 40, 1), true, 1, true);
    assert_eq!(
        strip,
        TabStrip {
            scroll: 0,
            max_scroll: 0,
            buttons: None,
            slots: vec![slot(0, 0, 8), slot(1, 9, 13)],
            new_tab: Some(rect(23, 0, 3, 1)),
        }
    );
}

#[test]
fn too_many_tabs_get_scroll_buttons() {
    let content = rect(5, 2, 30, 1);
    let strip = tab_strip_layout(&[10, 10, 10], None, content, true, 0, false);
    assert_eq!(
        strip,
        TabStrip {
            scroll: 0,
            max_scroll: 1,
            buttons: Some((rect(5, 2, 3, 1), rect(29, 2, 3, 1))),
            slots: vec![slot(0, 8, 10), slot(1, 19, 10)],
            new_tab: Some(rect(32, 2, 3, 1)),
        }
    );
}

#[test]
fn scrolling_stops_at_the_last_place() {
    let content = rect(5, 2, 30, 1);
    let strip = tab_strip_layout(&[10, 10, 10], None, content, true, 5, false);
    assert_eq!(strip.scroll, 1);
    assert_eq!(strip.slots, vec![slot(1, 8, 10), slot(2, 19, 10)]);
    let again = tab_strip_layout(&[10, 10, 10], None, content, true, strip.scroll, false);
    assert_eq!(again, strip);
}

#[test]
fn without_a_tab_to_reveal_the_place_stays() {
    let content = rect(5, 2, 30, 1);
    let strip = tab_strip_layout(&[10, 10, 10], None, content, true, 5, true);
    assert_eq!(strip.scroll, 5);
    assert!(strip.slots.is_empty());
}

#[test]
fn without_the_mouse_there_are_no_buttons() {
    let strip = tab_strip_layout(&[10, 10, 10], None, rect(5, 2, 25, 1), false, 0, false);
    assert_eq!(
        strip,
        TabStrip {
            scroll: 0,
            max_scroll: 1,
            buttons: None,
            slots: vec![slot(0, 5, 10), slot(1, 16, 10), slot(2, 27, 3)],
            new_tab: None,
        }
    );
}

#[test]
fn a_row_too_narrow_for_buttons_is_not_scrolled() {
    let strip = tab_strip_layout(&[10, 10], Some(1), rect(0, 0, 16, 1), true, 1, true);
    assert_eq!(
        strip,
        TabStrip {
            scroll: 0,
            max_scroll: 1,
            buttons: None,
            slots: vec![slot(0, 0, 10), slot(1, 11, 2)],
            new_tab: Some(rect(14, 0, 2, 1)),
        }
    );
}

#[test]
fn a_revealed_tab_is_drawn() {
    let content = rect(0, 0, 30, 1);
    let widths = [10, 10, 10, 10, 10];
    let middle = tab_strip_layout(&widths, Some(2), content, true, 0, true);
    assert_eq!(middle.scroll, 2);
    assert_eq!(middle.slots, vec![slot(2, 3, 10), slot(3, 14, 10)]);
    let last = tab_strip_layout(&widths, Some(4), content, true, 0, true);
    assert_eq!(last.scroll, 3);
    assert_eq!(last.slots, vec![slot(3, 3, 10), slot(4, 14, 10)]);
    assert_eq!(last.max_scroll, 3);
}

#[test]
fn an_oversized_last_tab_is_reachable_and_cut() {
    let strip = tab_strip_layout(&[10, 90], None, rect(0, 0, 20, 1), false, 9, false);
    assert_eq!(strip.scroll, 1);
    assert_eq!(strip.slots, vec![slot(1, 0, 20)]);
}

#[test]
fn buttons_at_the_edge_of_the_screen_are_cut() {
    let content = rect(u16::MAX - 2, u16::MAX, 30, 1);
    let strip = tab_strip_layout(&[40], None, content, true, 0, false);
    let (left, right) = strip.buttons.unwrap();
    assert_eq!(left, rect(u16::MAX - 2, u16::MAX, 2, 0));
    assert_eq!(right, rect(u16::MAX - 6, u16::MAX, 3, 0));
}

#[test]
fn tabs_as_wide_as_a_coordinate_are_out_of_range() {
    let narrow = rect(0, 0, 30, 1);
    assert!(!tab_strip_in_range(&[u16::MAX, 8], Some(1), narrow, false, 0, true));
    assert!(tab_strip_in_range(&[u16::MAX, 8], Some(1), narrow, false, 0, false));
    assert!(tab_strip_in_range(&[u16::MAX, 8], Some(0), narrow, false, 0, true));
    let whole = rect(0, 0, u16::MAX, 1);
    assert!(!tab_strip_in_range(&[u16::MAX], None, whole, false, 0, false));
    assert!(tab_strip_in_range(&[u16::MAX], None, whole, true, 0, false));
    assert!(tab_strip_in_range(&[8, 13], Some(0), whole, false, 0, true));
}
