use barn::math::bounding_box_2d::BoundingBox2D;
use barn::math::bounding_circle_2d::BoundingCircle2D;
use barn::math::vector2::{Vector2, UNIT};

fn px(x: i32, y: i32) -> Vector2 {
    Vector2::new(x * UNIT, y * UNIT)
}

fn bb(x: i32, y: i32, w: u32, h: u32) -> BoundingBox2D {
    BoundingBox2D::new(px(x, y), w, h)
}

#[test]
fn new_keeps_fields() {
    let b = bb(1, 2, 3, 4);
    assert_eq!(b.origin, px(1, 2));
    assert_eq!(b.width, 3);
    assert_eq!(b.height, 4);
}

#[test]
fn intersects_point_is_half_open() {
    let b = bb(0, 0, 10, 10);
    assert!(b.intersects_point(&px(0, 0)));
    assert!(b.intersects_point(&px(5, 5)));
    assert!(b.intersects_point(&Vector2::new(10 * UNIT - 1, 10 * UNIT - 1)));
    assert!(!b.intersects_point(&px(10, 5)));
    assert!(!b.intersects_point(&px(5, 10)));
    assert!(!b.intersects_point(&Vector2::new(-1, 0)));
}

#[test]
fn intersects_box_overlap() {
    let a = bb(0, 0, 10, 10);
    assert!(a.intersects_box(&bb(5, 5, 10, 10)));
    assert!(a.intersects_box(&bb(2, 2, 2, 2)));
    assert!(!a.intersects_box(&bb(20, 0, 5, 5)));
}

#[test]
fn intersects_box_is_symmetric() {
    let boxes = [
        bb(0, 0, 10, 10),
        bb(5, 5, 10, 10),
        bb(10, 0, 5, 5),
        bb(-3, 9, 4, 1),
        bb(2, 2, 0, 0),
        bb(0, 10, 10, 10),
    ];
    for a in boxes.iter() {
        for b in boxes.iter() {
            assert_eq!(a.intersects_box(b), b.intersects_box(a));
        }
    }
}

#[test]
fn touching_boxes_do_not_intersect() {
    let a = bb(0, 0, 10, 10);
    let right = bb(10, 0, 10, 10);
    let below = bb(0, 10, 10, 10);
    assert!(!a.intersects_box(&right));
    assert!(!right.intersects_box(&a));
    assert!(!a.intersects_box(&below));
    assert!(!below.intersects_box(&a));
}

#[test]
fn center_truncates_odd_sizes() {
    assert_eq!(bb(0, 0, 50, 50).center(), px(25, 25));
    assert_eq!(bb(10, 20, 5, 7).center(), px(12, 23));
}

#[test]
fn player_moving_right_snaps_flush_with_tile() {
    let mut player = bb(0, 0, 50, 50);
    let tiles = vec![bb(40, 0, 100, 100)];
    let vel = px(10, 0);
    player.resolve_bb_intersect(&tiles, &vel);
    // right edge flush with the tile's left edge at x = 40
    assert_eq!(player.origin.x, -10 * UNIT);
    assert!(player.origin.x + 50 * UNIT <= 40 * UNIT);
    assert_eq!(player.origin.y, 0);
    assert_eq!(vel, px(10, 0));
}

#[test]
fn moving_left_and_up_snap_to_far_edges() {
    let mut b = bb(105, 0, 10, 10);
    b.resolve_bb_intersect(&vec![bb(0, 0, 100, 100)], &px(-10, 0));
    assert_eq!(b.origin, px(100, 0));
    let mut c = bb(0, 105, 10, 10);
    c.resolve_bb_intersect(&vec![bb(0, 0, 100, 100)], &px(0, -10));
    assert_eq!(c.origin, px(0, 100));
    let mut d = bb(0, -15, 10, 10);
    d.resolve_bb_intersect(&vec![bb(0, 0, 100, 100)], &px(0, 10));
    assert_eq!(d.origin, px(0, -10));
}

#[test]
fn free_movement_applies_velocity() {
    let mut b = bb(0, 0, 10, 10);
    b.resolve_bb_intersect(&vec![bb(100, 100, 10, 10)], &px(3, -4));
    assert_eq!(b.origin, px(3, -4));
}

#[test]
fn resolving_again_with_zero_velocity_does_not_move() {
    let mut player = bb(0, 0, 50, 50);
    let tiles = vec![bb(40, 0, 100, 100), bb(0, 60, 100, 100)];
    player.resolve_bb_intersect(&tiles, &px(10, 20));
    let after = player;
    player.resolve_bb_intersect(&tiles, &Vector2::zero());
    assert_eq!(player, after);
}

#[test]
fn corner_resolution_is_x_then_y() {
    // Moving diagonally into the corner of a block below and to the right.
    let mut b = bb(0, 0, 10, 10);
    let block = vec![bb(15, 15, 10, 10)];
    b.resolve_bb_intersect(&block, &px(10, 10));
    // x first: at (10, 0) there is no overlap, so x keeps the move;
    // then y: at (10, 10) it overlaps, so it snaps to the block's top.
    assert_eq!(b.origin, px(10, 5));

    // The same corner approached so that x hits first.
    let mut c = bb(0, 10, 10, 10);
    c.resolve_bb_intersect(&block, &px(10, 10));
    // x: at (10, 10) it overlaps, so x snaps back to 5; y then moves freely.
    assert_eq!(c.origin, px(5, 20));
}

#[test]
fn first_obstacle_in_order_decides() {
    let mut a = bb(0, 0, 10, 10);
    let near_first = vec![bb(15, 0, 10, 10), bb(12, 0, 10, 10)];
    a.resolve_bb_intersect(&near_first, &px(10, 0));
    assert_eq!(a.origin, px(5, 0));
    let mut b = bb(0, 0, 10, 10);
    let other_order = vec![bb(12, 0, 10, 10), bb(15, 0, 10, 10)];
    b.resolve_bb_intersect(&other_order, &px(10, 0));
    assert_eq!(b.origin, px(2, 0));
}

#[test]
fn no_obstacles_moves_freely() {
    let mut a = bb(0, 0, 10, 10);
    a.resolve_bb_intersect(&Vec::new(), &px(-7, 9));
    assert_eq!(a.origin, px(-7, 9));
}

#[test]
fn circle_contains_point_strictly_inside() {
    let c = BoundingCircle2D { center: px(0, 0), radius: 5 };
    assert!(c.intersects_point(px(3, 3)));
    assert!(!c.intersects_point(px(3, 4)));
    assert!(!c.intersects_point(px(6, 0)));
    let empty = BoundingCircle2D { center: px(0, 0), radius: 0 };
    assert!(!empty.intersects_point(px(0, 0)));
}

#[test]
fn circles_overlap_below_sum_of_radii() {
    let a = BoundingCircle2D { center: px(0, 0), radius: 2 };
    assert!(a.intersects_circle(BoundingCircle2D { center: px(4, 0), radius: 3 }));
    assert!(!a.intersects_circle(BoundingCircle2D { center: px(5, 0), radius: 3 }));
}
