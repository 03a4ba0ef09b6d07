use surf_ace_compositor::cursor::{SoftwareCursorColor, rect_intersection, software_cursor_rects_at};
use surf_ace_compositor::planes::LogicalRect;

fn rect(x: i32, y: i32, w: i32, h: i32) -> LogicalRect {
    LogicalRect { x, y, w, h }
}

#[test]
fn software_cursor_rects_clip_to_output_bounds() {
    // A pointer at (-4, -4) is clamped to (0, 0); the mask origin sits at minus the hotspot.
    let rects = software_cursor_rects_at(-6, -4, 12, 12);

    assert!(!rects.is_empty());
    assert!(rects.iter().all(|(rect, _)| {
        rect.x >= 0 && rect.y >= 0 && rect.x + rect.w <= 12 && rect.y + rect.h <= 12
    }));
}

#[test]
fn software_cursor_uses_non_magenta_visible_rectangles_at_pointer_location() {
    // Pointer at (10, 10): origin (4, 6).
    let rects = software_cursor_rects_at(4, 6, 160, 100);

    assert_eq!(rects[0].1, SoftwareCursorColor::White);
    assert!(rects.iter().any(|(r, color)| *color == SoftwareCursorColor::White && *r == rect(10, 10, 1, 1)));
    assert!(rects.iter().any(|(r, color)| *color == SoftwareCursorColor::Black && *r == rect(9, 9, 3, 1)));
    assert!(rects.iter().any(|(_, color)| *color == SoftwareCursorColor::White));
    assert!(rects.iter().any(|(_, color)| *color == SoftwareCursorColor::Black));
}

#[test]
fn software_cursor_hotspot_places_arrow_tip_at_pointer_location() {
    // Pointer at (100, 80): origin (94, 76).
    let rects = software_cursor_rects_at(94, 76, 200, 160);
    assert!(rects.iter().any(|(r, color)| *color == SoftwareCursorColor::White && *r == rect(100, 80, 1, 1)));
}

#[test]
fn software_cursor_draws_nothing_on_an_empty_output() {
    assert!(software_cursor_rects_at(0, 0, 0, 100).is_empty());
    assert!(software_cursor_rects_at(0, 0, 100, -1).is_empty());
}

#[test]
fn white_rectangles_come_before_black_ones() {
    let rects = software_cursor_rects_at(0, 0, 64, 64);
    let first_black = rects.iter().position(|(_, c)| *c == SoftwareCursorColor::Black).unwrap();
    assert!(rects[..first_black].iter().all(|(_, c)| *c == SoftwareCursorColor::White));
    assert!(rects[first_black..].iter().all(|(_, c)| *c == SoftwareCursorColor::Black));
    // Row 6 of the arrow is lit at columns 6..9: one white span.
    assert!(rects.contains(&(rect(6, 6, 3, 1), SoftwareCursorColor::White)));
}

#[test]
fn rectangle_intersection_clips_and_rejects_disjoint() {
    assert_eq!(rect_intersection(rect(0, 0, 10, 10), rect(5, 5, 10, 10)), Some(rect(5, 5, 5, 5)));
    assert_eq!(rect_intersection(rect(0, 0, 10, 10), rect(10, 0, 5, 5)), None);
    assert_eq!(rect_intersection(rect(-3, 2, 4, 1), rect(0, 0, 12, 12)), Some(rect(0, 2, 1, 1)));
    assert_eq!(
        rect_intersection(rect(i32::MAX - 1, 0, 10, 1), rect(0, 0, i32::MAX, 1)),
        Some(rect(i32::MAX - 1, 0, 1, 1))
    );
}
