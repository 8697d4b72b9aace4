use graphics::rect::{Rectangle, Rectangles};
use graphics::scalar::Scalar;

fn s(v: f64) -> Scalar {
    Scalar::from_micros((v * 1e6).round() as i64)
}

fn rect(x: f64, y: f64, w: f64, h: f64) -> Rectangle {
    Rectangle(s(x), s(y), s(w), s(h))
}

#[test]
fn example() {
    let r_left = rect(0., 0., 10., 10.);
    let r_right = rect(0., 9., 10., 10.);
    let overlap_x = r_left.overlap_x(&r_right);
    println!("overlap_x:{:?}", overlap_x);
    assert_eq!(overlap_x, s(10.));
}

#[test]
fn example2() {
    let left = Rectangles::new(vec![rect(0., 0., 10., 10.), rect(10., 0., 10., 10.)]);
    let right = Rectangles::new(vec![rect(0., 0., 10., 10.), rect(0., 10., 10., 10.)])
        .move_xy(s(19.), s(-20.));

    let overlap_x = left.overlap_x(&right);
    println!("overlap_x:{:?}", overlap_x);
    assert_eq!(overlap_x, s(0.));
}

#[test]
fn overlap_is_zero_without_a_shared_stretch() {
    let left = rect(0., 0., 10., 10.);
    assert_eq!(left.overlap_x(&rect(0., 10., 10., 10.)), s(0.));
    assert_eq!(left.overlap_x(&rect(0., -10., 10., 10.)), s(0.));
    assert_eq!(left.overlap_x(&rect(10., 0., 10., 10.)), s(0.));
    assert_eq!(left.overlap_x(&rect(4., 0., 10., 10.)), s(6.));
}

#[test]
fn overlap_of_lists_is_the_largest_of_all_pairs() {
    let left = Rectangles::new(vec![rect(0., 0., 10., 10.), rect(2., 0., 10., 10.)]);
    let right = Rectangles::new(vec![rect(5., 0., 1., 1.), rect(8., 0., 1., 1.)]);
    assert_eq!(left.overlap_x(&right), s(7.));
    let none = Rectangles::new(vec![]);
    assert_eq!(left.overlap_x(&none), Scalar::smallest());
    assert_eq!(none.overlap_x(&right), Scalar::smallest());
}

#[test]
fn move_xy_shifts_the_corner_and_keeps_the_size() {
    let moved = Rectangles::new(vec![rect(1., 2., 3., 4.), rect(0., 0., 1., 1.)])
        .move_xy(s(10.), s(-2.));
    assert_eq!(moved.len(), 2);
    assert_eq!(moved.get(0), Some(rect(11., 0., 3., 4.)));
    assert_eq!(moved.get(1), Some(rect(10., -2., 1., 1.)));
    assert_eq!(moved.get(2), None);
}
