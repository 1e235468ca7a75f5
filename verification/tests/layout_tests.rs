use morphic_tui::layout::{centered_rect, Area};

#[test]
fn entry_box_sits_in_the_middle() {
    let screen = Area { x: 0, y: 0, width: 100, height: 40 };
    let a = centered_rect(60, 25, screen);
    assert_ne!(a, screen);
    assert_eq!(a.x, 20);
    assert_eq!(a.width, 60);
    assert!(a.y == 14 || a.y == 15);
    assert_eq!(a.height, 10);
    let full = centered_rect(100, 100, screen);
    assert_eq!(full, screen);
}

#[test]
fn entry_box_is_centred_within_one_cell_of_its_shares() {
    let r = Area { x: 3, y: 2, width: 101, height: 33 };
    let a = centered_rect(60, 25, r);
    // Shares: offset 20% and width 60% of 101, offset 37% and height 25% of 33.
    assert!((100 * (a.x as i64 - 3) - 101 * 20).abs() <= 100);
    assert!((100 * a.width as i64 - 101 * 60).abs() <= 100);
    assert!((100 * (a.y as i64 - 2) - 33 * 37).abs() <= 100);
    assert!((100 * a.height as i64 - 33 * 25).abs() <= 100);
    assert!(a.x >= r.x && a.x + a.width <= r.x + r.width);
    assert!(a.y >= r.y && a.y + a.height <= r.y + r.height);
}
