use graphics::error::GraphicsError;
use graphics::path::PathSegment::{C, L, M, Q, Z};
use graphics::path::{quadratic_to_cubic, read_tuple, PathSegment, PathSegments};
use graphics::scalar::Scalar;

fn s(v: f64) -> Scalar {
    Scalar::from_micros((v * 1e6).round() as i64)
}

fn f(v: Scalar) -> f64 {
    v.micros as f64 / 1e6
}

fn sample() -> PathSegments {
    PathSegments(vec![
        M(s(0.), s(0.)),
        C(s(10.), s(0.), s(10.), s(10.), s(20.), s(10.)),
        Q(s(5.), s(5.), s(1.), s(2.)),
        L(s(0.), s(10.)),
        Z,
    ])
}

#[test]
fn path_syntax_of_move_line_close() {
    let path = PathSegments(vec![M(s(0.), s(0.)), L(s(10.), s(0.)), Z]);
    assert_eq!(path.to_string(), "M 0 0 L 10 0 Z ");
}

#[test]
fn path_syntax_of_every_command() {
    assert_eq!(sample().to_string(), "M 0 0 C 10 0 10 10 20 10 Q 5 5 1 2 L 0 10 Z ");
    assert_eq!(PathSegments(vec![]).to_string(), "");
    assert_eq!(
        PathSegments(vec![M(s(-1.5), s(0.25))]).to_string(),
        "M -1.5 0.25 "
    );
}

#[test]
fn segment_write_appends() {
    let mut out = String::from("d=");
    L(s(1.), s(2.)).write(&mut out);
    Z.write(&mut out);
    assert_eq!(out, "d=L 1 2 Z ");
}

#[test]
fn move_path_shifts_every_pair_and_keeps_order() {
    let moved = sample().move_path(s(100.), s(-1.));
    assert_eq!(
        moved,
        PathSegments(vec![
            M(s(100.), s(-1.)),
            C(s(110.), s(-1.), s(110.), s(9.), s(120.), s(9.)),
            Q(s(105.), s(4.), s(101.), s(1.)),
            L(s(100.), s(9.)),
            Z,
        ])
    );
}

#[test]
fn scale_path_scales_each_axis_and_may_flip() {
    let scaled = sample().scale_path(s(0.5), s(-2.));
    assert_eq!(
        scaled,
        PathSegments(vec![
            M(s(0.), s(0.)),
            C(s(5.), s(0.), s(5.), s(-20.), s(10.), s(-20.)),
            Q(s(2.5), s(-10.), s(0.5), s(-4.)),
            L(s(0.), s(-20.)),
            Z,
        ])
    );
}

#[test]
fn move_twice_is_move_by_the_sum() {
    let a = sample().move_path(s(3.), s(4.)).move_path(s(-1.5), s(10.));
    let b = sample().move_path(s(1.5), s(14.));
    assert_eq!(a, b);
}

#[test]
fn clone_keeps_the_segments() {
    assert_eq!(sample().clone(), sample());
}

#[test]
fn quadratic_to_cubic_of_the_arch() {
    let r = quadratic_to_cubic(s(0.), s(0.), s(10.), s(10.), s(20.), s(0.));
    assert!((f(r.0) - 6.667).abs() < 1e-3);
    assert!((f(r.1) - 6.667).abs() < 1e-3);
    assert!((f(r.2) - 13.333).abs() < 1e-3);
    assert!((f(r.3) - 6.667).abs() < 1e-3);
    assert_eq!(r.0, Scalar::from_micros(6_666_667));
    assert_eq!(r.1, Scalar::from_micros(6_666_667));
    assert_eq!(r.2, Scalar::from_micros(13_333_333));
    assert_eq!(r.3, Scalar::from_micros(6_666_667));
    assert_eq!(r.4, s(20.));
    assert_eq!(r.5, s(0.));
}

#[test]
fn quadratic_to_cubic_agrees_with_the_float_formula() {
    let (px, py, cx, cy, x, y) = (1.5f64, -2.0, 7.25, 3.0, 12.0, 9.5);
    let r = quadratic_to_cubic(s(px), s(py), s(cx), s(cy), s(x), s(y));
    assert!((f(r.0) - (px + 2. / 3. * (cx - px))).abs() < 1e-6);
    assert!((f(r.1) - (py + 2. / 3. * (cy - py))).abs() < 1e-6);
    assert!((f(r.2) - (x + 2. / 3. * (cx - x))).abs() < 1e-6);
    assert!((f(r.3) - (y + 2. / 3. * (cy - y))).abs() < 1e-6);
}

fn tuple(tag: &str, numbers: &[f64]) -> (String, Vec<Scalar>) {
    (tag.to_string(), numbers.iter().map(|v| s(*v)).collect())
}

#[test]
fn from_tagged_reads_every_command() {
    let tuples = vec![
        tuple("M", &[0., 0.]),
        tuple("L", &[10., 0.]),
        tuple("Q", &[1., 2., 3., 4.]),
        tuple("C", &[1., 2., 3., 4., 5., 6.]),
        tuple("Z", &[]),
    ];
    assert_eq!(
        PathSegments::from_tagged(&tuples),
        Ok(PathSegments(vec![
            M(s(0.), s(0.)),
            L(s(10.), s(0.)),
            Q(s(1.), s(2.), s(3.), s(4.)),
            C(s(1.), s(2.), s(3.), s(4.), s(5.), s(6.)),
            Z,
        ]))
    );
    assert_eq!(PathSegments::from_tagged(&vec![]), Ok(PathSegments(vec![])));
}

#[test]
fn from_tagged_rejects_an_unknown_tag() {
    let tuples = vec![tuple("M", &[0., 0.]), tuple("X", &[1., 2.]), tuple("Y", &[])];
    assert_eq!(
        PathSegments::from_tagged(&tuples),
        Err(GraphicsError::MalformedInterchange(1))
    );
    let lower = vec![tuple("m", &[0., 0.])];
    assert_eq!(
        PathSegments::from_tagged(&lower),
        Err(GraphicsError::MalformedInterchange(0))
    );
    let long = vec![tuple("ML", &[0., 0.])];
    assert_eq!(
        PathSegments::from_tagged(&long),
        Err(GraphicsError::MalformedInterchange(0))
    );
    let empty = vec![tuple("", &[])];
    assert_eq!(
        PathSegments::from_tagged(&empty),
        Err(GraphicsError::MalformedInterchange(0))
    );
}

#[test]
fn from_tagged_rejects_a_wrong_count_of_numbers() {
    let tuples = vec![tuple("M", &[0., 0.]), tuple("L", &[10., 0.]), tuple("Q", &[1., 2., 3.])];
    assert_eq!(
        PathSegments::from_tagged(&tuples),
        Err(GraphicsError::MalformedInterchange(2))
    );
    assert_eq!(
        PathSegments::from_tagged(&vec![tuple("Z", &[1.])]),
        Err(GraphicsError::MalformedInterchange(0))
    );
    assert_eq!(
        PathSegments::from_tagged(&vec![tuple("C", &[1., 2., 3., 4.])]),
        Err(GraphicsError::MalformedInterchange(0))
    );
}

#[test]
fn read_tuple_reads_one_entry() {
    assert_eq!(read_tuple("L", &vec![s(1.), s(2.)]), Some(PathSegment::L(s(1.), s(2.))));
    assert_eq!(read_tuple("L", &vec![s(1.)]), None);
    assert_eq!(read_tuple("Z", &vec![]), Some(PathSegment::Z));
}

#[test]
fn error_messages() {
    assert_eq!(
        GraphicsError::MalformedInterchange(12).to_string(),
        "malformed interchange data at entry 12"
    );
    assert_eq!(
        GraphicsError::EmissionFailure("g1".to_string()).to_string(),
        "emission failure: no definition for cache tag g1"
    );
}
