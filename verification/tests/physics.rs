use dodge_core::movable::{BBox, MovableSprite};

fn sprite(x: i32, y: i32, dx: i32, dy: i32, w: i32, h: i32, scr_w: i32, scr_h: i32) -> MovableSprite {
    MovableSprite::new(0, x, y, dx, dy, w, h, scr_w, scr_h)
}

#[test]
fn left_bounce_flips_on_the_crossing_tick() {
    // x + dx = -2 <= 0 while moving left: the velocity flips first, then
    // applies, so the sprite is reflected, never placed past the bound.
    let mut s = sprite(3, 50, -5, 0, 10, 10, 100, 100);
    s.update();
    assert_eq!(s.dx, 5);
    assert_eq!(s.x, 8);
    assert!(s.x >= 0);
}

#[test]
fn left_bounce_exactly_at_zero_still_reflects() {
    let mut s = sprite(0, 50, -3, 0, 10, 10, 100, 100);
    s.update();
    assert_eq!(s.dx, 3);
    assert_eq!(s.x, 3);
}

#[test]
fn right_bounce_uses_far_edge() {
    // far edge 80 + 10 = 90, moving right by 9 reaches 99 >= scr_w - 1.
    let mut s = sprite(80, 50, 9, 0, 10, 10, 100, 100);
    s.update();
    assert_eq!(s.dx, -9);
    assert_eq!(s.x, 71);
}

#[test]
fn no_bounce_in_the_open() {
    let mut s = sprite(40, 40, 3, -2, 10, 10, 100, 100);
    s.update();
    assert_eq!((s.x, s.y, s.dx, s.dy), (43, 38, 3, -2));
}

#[test]
fn position_plus_extent_stays_in_bounds_forever() {
    // The play-area invariant, exercised over many ticks and several
    // velocity/extent combinations.
    let cases = [
        (3, 7, -5, 4, 12, 9, 100, 80),
        (0, 0, 2, 2, 1, 1, 10, 10),
        (50, 30, -7, -6, 20, 15, 200, 150),
        (90, 70, 4, 3, 8, 8, 100, 80),
    ];
    for &(x, y, dx, dy, w, h, sw, sh) in cases.iter() {
        let mut s = sprite(x, y, dx, dy, w, h, sw, sh);
        for _ in 0..1000 {
            s.update();
            assert!(0 <= s.x && s.x + s.w <= s.scr_w - 1);
            assert!(0 <= s.y && s.y + s.h <= s.scr_h - 1);
        }
    }
}

#[test]
fn collides_is_strict_interior() {
    let s = sprite(10, 20, 0, 0, 30, 40, 100, 100);
    // Interior.
    assert!(s.collides(11, 21));
    assert!(s.collides(39, 59));
    assert!(s.collides(25, 40));
    // Every edge point is out.
    assert!(!s.collides(10, 40)); // left edge
    assert!(!s.collides(40, 40)); // right edge
    assert!(!s.collides(25, 20)); // top edge
    assert!(!s.collides(25, 60)); // bottom edge
    assert!(!s.collides(10, 20)); // corner
    // Clearly outside.
    assert!(!s.collides(0, 0));
    assert!(!s.collides(41, 40));
}

#[test]
fn bounding_box_reports_anchor_and_size() {
    let s = sprite(10, 20, 1, 1, 30, 40, 100, 100);
    let bb: BBox = s.get_bb();
    assert_eq!(bb.anchor, (10, 20));
    assert_eq!(bb.size, (30, 40));
}
