use stargaze::widgets::{hit_test, layout_rows, FocusList, Rect};

#[test]
fn focus_list_saturates_at_both_ends() {
    let mut focus = FocusList::new(3);
    focus.up();
    assert_eq!(focus.focus, 0);
    focus.down();
    focus.down();
    assert_eq!(focus.focus, 2);
    focus.down();
    assert_eq!(focus.focus, 2);
}

#[test]
fn focus_list_resize_clamps() {
    let mut focus = FocusList::new(4);
    focus.down();
    focus.down();
    focus.down();
    assert_eq!(focus.focus, 3);
    focus.resize(2);
    assert_eq!(focus.focus, 1);
    focus.resize(0);
    assert_eq!(focus.focus, 0);
}

#[test]
fn hit_test_finds_row() {
    let rects = layout_rows(3, 100, 56, 8, 40);
    assert_eq!(hit_test(&rects, 50, 110), Some(0));
    assert_eq!(hit_test(&rects, 50, 100 + 64 + 10), Some(1));
    assert_eq!(hit_test(&rects, 50, 10), None);
    // Outside the horizontal margin.
    assert_eq!(hit_test(&rects, 10, 110), None);
}

#[test]
fn focus_at_updates_focus() {
    let rects = layout_rows(3, 100, 56, 8, 40);
    let mut focus = FocusList::new(3);
    assert_eq!(focus.focus_at(&rects, 50, 170), Some(1));
    assert_eq!(focus.focus, 1);
    assert_eq!(focus.focus_at(&rects, 50, 10), None);
    assert_eq!(focus.focus, 1);
}

#[test]
fn layout_rows_geometry() {
    let rects = layout_rows(2, 100, 56, 8, 40);
    assert_eq!(rects[0], Rect::new(40, 100, 1200, 56));
    assert_eq!(rects[1], Rect::new(40, 164, 1200, 56));
}

#[test]
fn rect_is_never_empty() {
    let rect = Rect::new(5, 6, 0, 3);
    assert_eq!((rect.x(), rect.y(), rect.width(), rect.height()), (5, 6, 1, 3));
    assert!(rect.contains_point(5, 8));
    assert!(!rect.contains_point(6, 8));
    assert!(!rect.contains_point(5, 9));
}

#[test]
fn every_point_of_a_row_hits_it() {
    let rects = layout_rows(5, 150, 56, 10, 80);
    for (i, rect) in rects.iter().enumerate() {
        for (x, y) in [
            (rect.x(), rect.y()),
            (rect.x() + rect.width() as i32 - 1, rect.y() + rect.height() as i32 - 1),
        ] {
            assert_eq!(hit_test(&rects, x, y), Some(i));
        }
        assert_eq!(hit_test(&rects, rect.x(), rect.y() + rect.height() as i32), None);
    }
}
