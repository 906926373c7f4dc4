use barn::math::vector2::{Vector2, UNIT};

#[test]
fn new_sets_components() {
    let v = Vector2::new(3, -4);
    assert_eq!(v.x, 3);
    assert_eq!(v.y, -4);
}

#[test]
fn named_vectors() {
    assert_eq!(Vector2::right(), Vector2::new(UNIT, 0));
    assert_eq!(Vector2::up(), Vector2::new(0, UNIT));
    assert_eq!(Vector2::zero(), Vector2::new(0, 0));
}

#[test]
fn add_and_sub_are_componentwise() {
    let a = Vector2::new(1500, -200);
    let b = Vector2::new(-500, 700);
    assert_eq!(a.add(b), Vector2::new(1000, 500));
    assert_eq!(a.sub(b), Vector2::new(2000, -900));
    let mut c = a;
    c.add_assign(b);
    assert_eq!(c, Vector2::new(1000, 500));
    c.sub_assign(b);
    assert_eq!(c, a);
}

#[test]
fn mul_scales_by_fixed_point_factor() {
    let v = Vector2::new(2000, -3000);
    // factor 2.5
    assert_eq!(v.mul(2500), Vector2::new(5000, -7500));
    // factor 0.333: truncated toward zero
    assert_eq!(Vector2::new(1000, -1000).mul(333), Vector2::new(333, -333));
    let mut w = v;
    w.mul_assign(500);
    assert_eq!(w, Vector2::new(1000, -1500));
}

#[test]
fn div_divides_by_fixed_point_factor() {
    let v = Vector2::new(3000, -3000);
    // divide by 2.0
    assert_eq!(v.div(2000), Vector2::new(1500, -1500));
    // divide by -4.0, truncating toward zero
    assert_eq!(Vector2::new(1001, 1001).div(-4000), Vector2::new(-250, -250));
    let mut w = v;
    w.div_assign(3000);
    assert_eq!(w, Vector2::new(1000, -1000));
}

#[test]
fn length_rounds_down() {
    assert_eq!(Vector2::new(3000, 4000).length(), 5000);
    assert_eq!(Vector2::right().length(), 1000);
    // sqrt(2) * 1000 = 1414.2...
    assert_eq!(Vector2::new(1000, -1000).length(), 1414);
    assert_eq!(Vector2::zero().length(), 0);
}

#[test]
fn length_of_extreme_vector() {
    let v = Vector2::new(i32::MIN, i32::MIN);
    // sqrt(2 * 2^62) = 2^31 * sqrt(2) = 3037000499.97...
    assert_eq!(v.length(), 3_037_000_499);
}

#[test]
fn normalize_zero_is_zero() {
    assert_eq!(Vector2::zero().normalize(), Vector2::zero());
}

#[test]
fn normalize_gives_unit_length() {
    let cases = [
        Vector2::new(1, 0),
        Vector2::new(1, 1),
        Vector2::new(-1000, 1000),
        Vector2::new(3, 4),
        Vector2::new(i32::MAX, 1),
        Vector2::new(i32::MIN, i32::MIN),
        Vector2::new(-7, 123_456),
    ];
    for v in cases.iter() {
        let n = v.normalize();
        let len = n.length() as i32;
        assert!(UNIT - 3 <= len && len <= UNIT, "{:?} -> {:?} has length {}", v, n, len);
    }
}

#[test]
fn normalize_exact_values() {
    assert_eq!(Vector2::new(3, 4).normalize(), Vector2::new(600, 800));
    assert_eq!(Vector2::new(-5000, 0).normalize(), Vector2::new(-1000, 0));
    // 1000 / sqrt(2) = 707.1...
    assert_eq!(Vector2::new(1, -1).normalize(), Vector2::new(707, -707));
}

#[test]
fn equality_is_exact() {
    assert_eq!(Vector2::new(1, 2), Vector2::new(1, 2));
    assert_ne!(Vector2::new(1, 2), Vector2::new(1, 3));
}
