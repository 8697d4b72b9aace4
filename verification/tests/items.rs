use graphics::builder::normalize;
use graphics::item::Color::{Blue, Lime, Purple, Red, RGBA};
use graphics::item::Fill::{Fillstyle, NoFill};
use graphics::item::GraphicItem::{Ellipse, Line, Path, Rect};
use graphics::item::PathCacheInfo::{Cache, NoCache};
use graphics::item::Stroke::{NoStroke, Strokestyle};
use graphics::item::{Color, GraphicItem, GraphicItems, Stroke};
use graphics::path::PathSegment::{C, L, M, Q, Z};
use graphics::path::PathSegments;
use graphics::rect::Rectangle;
use graphics::scalar::Scalar;

fn s(v: f64) -> Scalar {
    Scalar::from_micros((v * 1e6).round() as i64)
}

fn rect(x: f64, y: f64, w: f64, h: f64) -> Rectangle {
    Rectangle(s(x), s(y), s(w), s(h))
}

fn kinds(items: &GraphicItems) -> Vec<u8> {
    items
        .0
        .iter()
        .map(|item| match item {
            Line(..) => 0,
            Rect(..) => 1,
            Ellipse(..) => 2,
            Path(..) => 3,
        })
        .collect()
}

fn mixed() -> GraphicItems {
    GraphicItems(vec![
        Rect(s(0.), s(0.), s(50.), s(50.), Strokestyle(s(10.), Lime), Fillstyle(Blue)),
        Path(
            PathSegments(vec![M(s(1.), s(2.)), Q(s(3.), s(4.), s(5.), s(6.)), Z]),
            Strokestyle(s(2.), Red),
            NoFill,
            Cache("g".to_string(), s(7.), s(8.)),
        ),
        Line(s(0.), s(50.), s(100.), s(0.), Strokestyle(s(5.), Red)),
        Ellipse(s(50.), s(0.), s(50.), s(50.), Strokestyle(s(10.), Purple), Fillstyle(Red)),
        Path(PathSegments(vec![L(s(9.), s(9.))]), NoStroke, Fillstyle(Blue), NoCache),
    ])
}

#[test]
fn test_bbox() {
    let items = GraphicItems(vec![
        Rect(s(0.), s(0.), s(50.), s(50.), Strokestyle(s(10.), Lime), Fillstyle(Blue)),
        Ellipse(s(50.), s(0.), s(50.), s(50.), Strokestyle(s(10.), Purple), Fillstyle(Red)),
    ]);
    let bbox = items.bbox();
    println!("bbox:{:?}", bbox);
    assert_eq!(bbox, rect(-5., -5., 105., 55.));
}

#[test]
fn test_move() {
    let items = GraphicItems(vec![Rect(s(0.), s(0.), s(10.), s(10.), NoStroke, NoFill)]);
    let moved_items = items.move_items(s(100.), s(100.));
    println!("moved_items:{:?}", moved_items);
    assert_eq!(
        moved_items,
        GraphicItems(vec![Rect(s(100.), s(100.), s(10.), s(10.), NoStroke, NoFill)])
    );
}

#[test]
fn bbox_of_a_line_is_inflated_by_half_the_stroke() {
    let hairline = GraphicItems(vec![Line(s(0.), s(0.), s(10.), s(10.), Strokestyle(s(0.), Red))]);
    assert_eq!(hairline.bbox(), rect(0., 0., 10., 10.));
    let thick = GraphicItems(vec![Line(s(0.), s(0.), s(10.), s(10.), Strokestyle(s(4.), Red))]);
    assert_eq!(thick.bbox(), rect(-2., -2., 12., 12.));
    let bare = GraphicItems(vec![Line(s(10.), s(0.), s(0.), s(10.), NoStroke)]);
    assert_eq!(bare.bbox(), rect(0., 0., 10., 10.));
}

#[test]
fn bbox_of_a_path_holds_every_control_point() {
    let items = GraphicItems(vec![Path(
        PathSegments(vec![
            M(s(0.), s(0.)),
            C(s(-10.), s(0.), s(10.), s(30.), s(20.), s(10.)),
            Q(s(40.), s(-5.), s(1.), s(2.)),
            Z,
        ]),
        Strokestyle(s(2.), Lime),
        NoFill,
        NoCache,
    )]);
    assert_eq!(items.bbox(), rect(-11., -6., 41., 31.));
}

#[test]
fn bbox_of_an_ellipse_is_that_of_its_frame() {
    let items = GraphicItems(vec![Ellipse(s(5.), s(6.), s(10.), s(20.), NoStroke, NoFill)]);
    assert_eq!(items.bbox(), rect(5., 6., 15., 26.));
}

#[test]
fn bbox_of_nothing_is_the_sentinel_box() {
    let sentinel = Rectangle(
        Scalar::largest(),
        Scalar::largest(),
        Scalar::smallest(),
        Scalar::smallest(),
    );
    assert_eq!(GraphicItems::new().bbox(), sentinel);
    let closed = GraphicItems(vec![Path(PathSegments(vec![Z]), NoStroke, NoFill, NoCache)]);
    assert_eq!(closed.bbox(), sentinel);
}

#[test]
fn move_items_keeps_length_kinds_sizes_and_styles() {
    let items = mixed();
    let moved = items.move_items(s(1.), s(-2.));
    assert_eq!(moved.0.len(), items.0.len());
    assert_eq!(kinds(&moved), kinds(&items));
    assert_eq!(
        moved,
        GraphicItems(vec![
            Rect(s(1.), s(-2.), s(50.), s(50.), Strokestyle(s(10.), Lime), Fillstyle(Blue)),
            Path(
                PathSegments(vec![M(s(2.), s(0.)), Q(s(4.), s(2.), s(6.), s(4.)), Z]),
                Strokestyle(s(2.), Red),
                NoFill,
                Cache("g".to_string(), s(7.), s(8.)),
            ),
            Line(s(1.), s(48.), s(101.), s(-2.), Strokestyle(s(5.), Red)),
            Ellipse(s(51.), s(-2.), s(50.), s(50.), Strokestyle(s(10.), Purple), Fillstyle(Red)),
            Path(PathSegments(vec![L(s(10.), s(7.))]), NoStroke, Fillstyle(Blue), NoCache),
        ])
    );
}

#[test]
fn scale_items_scales_geometry_strokes_and_placement() {
    let items = mixed();
    let scaled = items.scale_items(s(2.), s(-1.), s(0.5));
    assert_eq!(scaled.0.len(), items.0.len());
    assert_eq!(kinds(&scaled), kinds(&items));
    assert_eq!(
        scaled,
        GraphicItems(vec![
            Rect(s(0.), s(0.), s(100.), s(-50.), Strokestyle(s(5.), Lime), Fillstyle(Blue)),
            Path(
                PathSegments(vec![M(s(2.), s(-2.)), Q(s(6.), s(-4.), s(10.), s(-6.)), Z]),
                Strokestyle(s(1.), Red),
                NoFill,
                Cache("g".to_string(), s(14.), s(-8.)),
            ),
            Line(s(0.), s(-50.), s(200.), s(0.), Strokestyle(s(2.5), Red)),
            Ellipse(s(100.), s(0.), s(100.), s(-50.), Strokestyle(s(5.), Purple), Fillstyle(Red)),
            Path(PathSegments(vec![L(s(18.), s(-9.))]), NoStroke, Fillstyle(Blue), NoCache),
        ])
    );
}

#[test]
fn scale_by_one_changes_nothing() {
    let items = mixed();
    assert_eq!(items.scale_items(s(1.), s(1.), s(1.)), items);
}

#[test]
fn move_items_twice_is_move_by_the_sum() {
    let items = mixed();
    assert_eq!(
        items.move_items(s(3.), s(4.)).move_items(s(-10.), s(0.5)),
        items.move_items(s(-7.), s(4.5))
    );
}

#[test]
fn normalize_brings_the_box_to_the_origin() {
    let items = mixed().move_items(s(-33.), s(12.5));
    let bbox = items.bbox();
    let (at_origin, reported) = normalize(items);
    assert_eq!(reported, bbox);
    let again = at_origin.bbox();
    assert_eq!(again.0, s(0.));
    assert_eq!(again.1, s(0.));
    assert_eq!(again.2, bbox.2.minus(bbox.0));
    assert_eq!(again.3, bbox.3.minus(bbox.1));
}

#[test]
fn normalize_leaves_a_drawing_at_the_origin_as_it_is() {
    let items = GraphicItems(vec![Rect(s(0.), s(0.), s(10.), s(10.), NoStroke, NoFill)]);
    let (at_origin, bbox) = normalize(items);
    assert_eq!(bbox, rect(0., 0., 10., 10.));
    assert_eq!(
        at_origin,
        GraphicItems(vec![Rect(s(0.), s(0.), s(10.), s(10.), NoStroke, NoFill)])
    );
}

#[test]
fn push_and_extend_append_in_order() {
    let mut items = GraphicItems::new();
    assert_eq!(items.0.len(), 0);
    items.push(Line(s(0.), s(0.), s(1.), s(1.), NoStroke));
    let more = GraphicItems(vec![
        Rect(s(0.), s(0.), s(1.), s(1.), NoStroke, NoFill),
        Ellipse(s(0.), s(0.), s(1.), s(1.), NoStroke, NoFill),
    ]);
    items.extend(more);
    assert_eq!(kinds(&items), vec![0, 1, 2]);
    let copy: Vec<GraphicItem> = items.0.iter().map(|item| item.clone()).collect();
    assert_eq!(GraphicItems(copy), items);
}

#[test]
fn stroke_scale_and_reach() {
    assert_eq!(Strokestyle(s(4.), Red).scale(s(0.5)), Strokestyle(s(2.), Red));
    assert_eq!(NoStroke.scale(s(3.)), NoStroke);
    assert_eq!(Strokestyle(s(4.), Red).reach(), s(2.));
    assert_eq!(Stroke::NoStroke.reach(), s(0.));
}

#[test]
fn color_text() {
    assert_eq!(Color::Blue.to_string(), "blue");
    assert_eq!(Color::Red.to_string(), "red");
    assert_eq!(Color::Orange.to_string(), "orange");
    assert_eq!(Color::Purple.to_string(), "purple");
    assert_eq!(Color::Lime.to_string(), "lime");
    assert_eq!(Color::Gray.to_string(), "gray");
    assert_eq!(Color::LightGray.to_string(), "lightgray");
    assert_eq!(Color::Green.to_string(), "green");
    assert_eq!(Color::Black.to_string(), "black");
    assert_eq!(Color::White.to_string(), "white");
    assert_eq!(RGBA(0, 17, 255, 128).to_string(), "rgba(0,17,255,128)");
}

#[test]
fn color_from_str_ignores_case_and_falls_back_to_black() {
    assert_eq!(Color::from_str("blue"), Color::Blue);
    assert_eq!(Color::from_str("Blue"), Color::Blue);
    assert_eq!(Color::from_str("LIGHTGRAY"), Color::LightGray);
    assert_eq!(Color::from_str("Red"), Color::Red);
    assert_eq!(Color::from_str("oRaNgE"), Color::Orange);
    assert_eq!(Color::from_str("purple"), Color::Purple);
    assert_eq!(Color::from_str("lime"), Color::Lime);
    assert_eq!(Color::from_str("GRAY"), Color::Gray);
    assert_eq!(Color::from_str("green"), Color::Green);
    assert_eq!(Color::from_str("white"), Color::White);
    assert_eq!(Color::from_str("black"), Color::Black);
    assert_eq!(Color::from_str("teal"), Color::Black);
    assert_eq!(Color::from_str(""), Color::Black);
}

#[test]
fn color_from_name_wants_the_lowercase_name() {
    assert_eq!(Color::from_name("white"), Color::White);
    assert_eq!(Color::from_name("White"), Color::Black);
    assert_eq!(Color::from_name("whit"), Color::Black);
}
