use gridkit::error::DivideByZero;
use gridkit::point::{
    chebyshev, chebyshev_unsigned, manhattan, manhattan_unsigned, Point, PointI128, PointI64,
};

#[test]
fn sum_does_not_depend_on_order() {
    let a = Point::new(-7i64, 12);
    let b = Point::new(30i64, -5);
    assert_eq!(a + b, b + a);
    assert_eq!(a + b, Point::new(23, 7));
}

#[test]
fn subtraction_undoes_addition() {
    let a = Point::new(200u8, 3);
    let b = Point::new(55u8, 252);
    assert_eq!((a + b) - b, a);
}

#[test]
fn opposite_steps_cancel() {
    let a = Point::new(i8::MIN + 1, i8::MAX - 1);
    assert_eq!(a.up().down(), a);
    assert_eq!(a.down().up(), a);
    assert_eq!(a.left().right(), a);
    assert_eq!(a.right().left(), a);
}

#[test]
fn up_takes_one_from_y() {
    let a = Point::new(5u16, 5u16);
    assert_eq!(a.up(), Point::new(5, 4));
    assert_eq!(a.down(), Point::new(5, 6));
    assert_eq!(a.left(), Point::new(4, 5));
    assert_eq!(a.right(), Point::new(6, 5));
}

#[test]
fn neighbors_come_in_order() {
    let a = Point::new(0i32, 0i32);
    assert_eq!(
        a.neighbors(),
        [Point::new(0, -1), Point::new(0, 1), Point::new(-1, 0), Point::new(1, 0)]
    );
}

#[test]
fn moves_change_the_point_in_place() {
    let mut a = PointI64 { x: 10, y: 20 };
    a.move_up();
    a.move_up();
    a.move_left();
    assert_eq!(a, Point::new(9, 18));
    a.move_down();
    a.move_right();
    a.move_right();
    assert_eq!(a, Point::new(11, 19));
}

#[test]
fn division_undoes_scaling() {
    let a = Point::new(-4i32, 9);
    for k in [-3, -1, 1, 2, 7] {
        assert_eq!((a * k) / k, Ok(a));
    }
    let b = Point::new(12u64, 0);
    assert_eq!((b * 5) / 5, Ok(b));
}

#[test]
fn division_rounds_towards_zero() {
    assert_eq!(Point::new(7, -7) / 2, Ok(Point::new(3, -3)));
    assert_eq!(Point::new(7, -7) / -2, Ok(Point::new(-3, 3)));
    assert_eq!(Point::new(i32::MIN, i32::MAX) / 1, Ok(Point::new(i32::MIN, i32::MAX)));
    assert_eq!(Point::new(i32::MAX, -i32::MAX) / -1, Ok(Point::new(-i32::MAX, i32::MAX)));
}

#[test]
fn division_by_zero_is_reported() {
    let a = Point::new(3, 9);
    assert_eq!(a / 0, Err(DivideByZero));
    assert_eq!(Point::new(0u8, 0u8) / 0, Err(DivideByZero));

    let mut b = a;
    assert_eq!(b.div_assign(0), Err(DivideByZero));
    assert_eq!(b, a);
}

#[test]
fn compound_operators_agree_with_the_plain_ones() {
    let a = PointI128 { x: 6, y: -8 };
    let b = PointI128 { x: 1, y: 1 };
    let mut c = a;
    c += b;
    assert_eq!(c, a + b);
    c -= b;
    c -= b;
    assert_eq!(c, a - b);
    c *= 4;
    assert_eq!(c, (a - b) * 4);
    assert_eq!(c.div_assign(5), Ok(()));
    assert_eq!(Ok(c), ((a - b) * 4) / 5);
    assert_eq!(c, Point::new(4, -7));
}

#[test]
fn default_is_the_origin() {
    assert_eq!(Point::<i16>::default(), Point::new(0, 0));
    assert_eq!(Point::<usize>::default(), Point::new(0, 0));
}

#[test]
fn points_are_ordered_by_x_then_y() {
    let mut points = vec![Point::new(2, 1), Point::new(1, 3), Point::new(1, 2), Point::new(0, 9)];
    points.sort();
    assert_eq!(
        points,
        vec![Point::new(0, 9), Point::new(1, 2), Point::new(1, 3), Point::new(2, 1)]
    );
    assert!(Point::new(1u8, 2u8) <= Point::new(1u8, 2u8));
    assert!(Point::new(1u8, 2u8) >= Point::new(1u8, 2u8));
    assert!(!(Point::new(1u8, 2u8) < Point::new(1u8, 2u8)));
}

#[test]
fn manhattan_is_the_same_both_ways() {
    let a = Point::new(-5i32, 7);
    let b = Point::new(4i32, -1);
    assert_eq!(manhattan(&a, &b), 17);
    assert_eq!(manhattan(&b, &a), 17);
    assert_eq!(manhattan(&a, &a), 0);
}

#[test]
fn unsigned_distances_never_go_below_zero() {
    let a = Point::new(0u8, 0u8);
    let b = Point::new(255u8, 0u8);
    assert_eq!(manhattan_unsigned(&a, &b), 255);
    assert_eq!(manhattan_unsigned(&b, &a), 255);

    let c = Point::new(0u8, 255u8);
    assert_eq!(chebyshev_unsigned(&b, &c), 255);
    assert_eq!(chebyshev_unsigned(&c, &b), 255);
    assert_eq!(chebyshev_unsigned(&c, &c), 0);
}

#[test]
fn chebyshev_lies_between_zero_and_manhattan() {
    let points = [Point::new(0i64, 0), Point::new(3, -4), Point::new(-6, -6), Point::new(9, 1)];
    for a in points {
        for b in points {
            let c = chebyshev(&a, &b);
            assert!(0 <= c);
            assert!(c <= manhattan(&a, &b));
            assert_eq!(c, chebyshev(&b, &a));
        }
    }
    assert_eq!(chebyshev(&points[1], &points[2]), 9);
}

#[test]
fn points_are_written_in_decimal() {
    assert_eq!(Point::new(0, 0).to_string(), "(0, 0)");
    assert_eq!(Point::new(-12, 340).to_string(), "(-12, 340)");
    assert_eq!(Point::new(10u8, 255u8).to_string(), "(10, 255)");
    assert_eq!(
        Point::new(i128::MIN, i128::MAX).to_string(),
        format!("({}, {})", i128::MIN, i128::MAX)
    );
    assert_eq!(Point::new(u128::MAX, 1).to_string(), format!("({}, 1)", u128::MAX));
    assert_eq!(Point::new(isize::MIN, -1).to_string(), format!("({}, -1)", isize::MIN));
}
