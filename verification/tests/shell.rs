use graphics::prelude::{
    Blue, BuilderOptions, Cache, Ellipse, Fillstyle, FuseBuilder, GraphicBuilder, GraphicItems,
    GraphicsError, Line, NoCache, NoFill, NoStroke, Path, PathSegments, Rect, Rectangle,
    Rectangles, Scalar, SizeUnit, Strokestyle, SvgBuilder, TestBuilder, L, M, RGBA, Z,
};

fn s(v: f64) -> Scalar {
    Scalar::from_micros((v * 1e6).round() as i64)
}

fn emit(builder: &mut dyn GraphicBuilder, items: GraphicItems) -> String {
    builder.build(items, None).unwrap()
}

#[test]
fn every_emitter_builds_through_the_same_protocol() {
    let items = || GraphicItems(vec![Rect(s(3.), s(4.), s(2.), s(1.), NoStroke, Fillstyle(Blue))]);
    assert_eq!(emit(&mut TestBuilder::new(), items()), "TestBuilder");
    let svg = emit(&mut SvgBuilder::new(), items());
    assert!(svg.contains("<rect x=\"0\" y=\"0\" width=\"2\" height=\"1\" fill=\"blue\"/>"));
    let script = emit(&mut FuseBuilder::new(), items());
    assert!(script.contains("\n\tline:MoveTo(0, 0)\n\tline:LineTo(2, 0)\n\tline:LineTo(2, 1)\n\tline:LineTo(0, 1)\n\tline:Close()"));
}

#[test]
fn negative_coordinates_are_brought_to_the_origin() {
    let items = GraphicItems(vec![
        Line(s(-10.), s(-20.), s(10.), s(20.), Strokestyle(s(2.), RGBA(1, 2, 3, 4))),
        Path(PathSegments(vec![M(s(-11.), s(0.)), L(s(0.), s(-21.)), Z]), NoStroke, NoFill, NoCache),
    ]);
    let svg = SvgBuilder::new().build(items, None).unwrap();
    let expected = "<svg xmlns=\"http://www.w3.org/2000/svg\" xmlns:xlink=\"http://www.w3.org/1999/xlink\" width=\"22\" height=\"42\" viewBox=\"0 0 22 42\">
    <defs visibility=\"hidden\"/>
    <line x1=\"1\" y1=\"1\" x2=\"21\" y2=\"41\" stroke=\"rgba(1,2,3,4)\" stroke-width=\"2\"/>
    <path d=\"M 0 21 L 11 0 Z \" fill=\"none\"/>
    <rect x=\"0\" y=\"0\" width=\"22\" height=\"42\" stroke=\"transparent\" stroke-width=\"1\" fill=\"none\"/>
</svg>
";
    assert_eq!(svg, expected);
}

#[test]
fn an_empty_drawing_still_builds() {
    let svg = SvgBuilder::new().build(GraphicItems::new(), None);
    assert!(svg.is_ok());
    let options = BuilderOptions { size_unit: SizeUnit::Rem, size_scaling: s(1.) };
    let svg = SvgBuilder::new().build(GraphicItems::new(), Some(options));
    assert!(svg.is_ok());
    let script = FuseBuilder::new().build(GraphicItems::new(), None);
    assert_eq!(script, Ok("\n\n\n\n-- dynamically added items:\n\n\n\n".to_string()));
}

#[test]
fn a_cached_path_after_its_definition_is_referred_to() {
    let items = GraphicItems(vec![
        Path(PathSegments(vec![M(s(0.), s(0.)), L(s(1.), s(1.))]), NoStroke, NoFill, Cache("t".to_string(), s(0.), s(0.))),
        Ellipse(s(0.), s(0.), s(1.), s(1.), NoStroke, NoFill),
        Path(PathSegments(vec![M(s(0.), s(0.)), L(s(1.), s(1.))]), NoStroke, NoFill, Cache("t".to_string(), s(5.), s(5.))),
    ]);
    let (definitions, tags) = SvgBuilder::definitions(&items);
    assert_eq!(definitions.len(), 1);
    for item in items.0.iter() {
        assert!(SvgBuilder::element(item, &tags).is_ok());
    }
    assert_eq!(
        SvgBuilder::element(&items.0[2], &vec![]),
        Err(GraphicsError::EmissionFailure("t".to_string()))
    );
}

#[test]
fn rectangles_iterate_in_order() {
    let list = Rectangles::new(vec![
        Rectangle(s(1.), s(2.), s(3.), s(4.)),
        Rectangle(s(5.), s(6.), s(7.), s(8.)),
    ]);
    let seen: Vec<Rectangle> = list.iter().map(|r| *r).collect();
    assert_eq!(
        seen,
        vec![Rectangle(s(1.), s(2.), s(3.), s(4.)), Rectangle(s(5.), s(6.), s(7.), s(8.))]
    );
}

#[test]
fn errors_can_be_copied_and_compared() {
    let e = GraphicsError::EmissionFailure("t".to_string());
    assert_eq!(e.clone(), e);
    assert_ne!(e, GraphicsError::MalformedInterchange(0));
}
