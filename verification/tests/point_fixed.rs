use gridkit::point::PointI32;

#[test]
fn point_macro_point_print() {
    let p = PointI32 { x: 1, y: 2 };
    assert_eq!(p.to_string(), "(1, 2)");
}

#[test]
fn point_macro_point_equality() {
    let p1 = PointI32 { x: 1, y: 2 };
    let p2 = PointI32 { x: 1, y: 2 };
    let p3 = PointI32 { x: 2, y: 2 };
    let p4 = PointI32 { x: 2, y: 1 };

    assert_eq!(p1, p2);
    assert_ne!(p1, p3);
    assert_ne!(p1, p4);
}

#[test]
fn point_macro_point_order() {
    let p1 = PointI32 { x: 1, y: 2 };
    let p2 = PointI32 { x: 2, y: 1 };
    let p3 = PointI32 { x: 1, y: 3 };
    let p4 = PointI32 { x: 1, y: 1 };
    let p5 = PointI32 { x: 0, y: 1 };

    assert!(p1 < p2);
    assert!(p1 < p3);
    assert!(p1 > p4);
    assert!(p1 > p5);
}

#[test]
fn point_macro_point_add() {
    let mut p1 = PointI32 { x: 1, y: 2 };
    let p2 = PointI32 { x: 3, y: 4 };
    let p3 = PointI32 { x: 4, y: 6 };

    assert_eq!(p1 + p2, p3);
    assert_eq!(p1 + p2, p2 + p1);

    p1 += p2;
    assert_eq!(p1, p3);
}

#[test]
fn point_macro_point_subtract() {
    let mut p1 = PointI32 { x: 1, y: 2 };
    let p2 = PointI32 { x: 3, y: 4 };
    let p3 = PointI32 { x: -2, y: -2 };

    assert_eq!(p1 - p2, p3);
    assert_ne!(p1 - p2, p2 - p1);

    p1 -= p2;
    assert_eq!(p1, p3);
}

#[test]
fn point_macro_point_multiply() {
    let mut p1 = PointI32 { x: 1, y: 2 };
    let p2 = PointI32 { x: 2, y: 4 };
    let n = 2;

    assert_eq!(p1 * n, p2);

    p1 *= n;
    assert_eq!(p1, p2);
}

#[test]
fn point_macro_point_divide() {
    let mut p1 = PointI32 { x: 3, y: 9 };
    let p2 = PointI32 { x: 1, y: 3 };
    let n = 3;

    assert_eq!(p1 / n, Ok(p2));

    assert_eq!(p1.div_assign(n), Ok(()));
    assert_eq!(p1, p2);
}

#[test]
fn point_macro_point_up() {
    let mut p1 = PointI32 { x: 1, y: 2 };
    let up = PointI32 { x: 0, y: -1 };
    let result = p1 + up;

    assert_eq!(p1.up(), result);

    p1.move_up();
    assert_eq!(p1, result);
}

#[test]
fn point_macro_point_down() {
    let mut p1 = PointI32 { x: 1, y: 2 };
    let down = PointI32 { x: 0, y: 1 };
    let result = p1 + down;

    assert_eq!(p1.down(), result);

    p1.move_down();
    assert_eq!(p1, result);
}

#[test]
fn point_macro_point_left() {
    let mut p1 = PointI32 { x: 1, y: 2 };
    let left = PointI32 { x: -1, y: 0 };
    let result = p1 + left;

    assert_eq!(p1.left(), result);

    p1.move_left();
    assert_eq!(p1, result);
}

#[test]
fn point_macro_point_right() {
    let mut p1 = PointI32 { x: 1, y: 2 };
    let right = PointI32 { x: 1, y: 0 };
    let result = p1 + right;

    assert_eq!(p1.right(), result);

    p1.move_right();
    assert_eq!(p1, result);
}
