//! Drawing primitives: colours, strokes, fills, the four kinds of item and
//! the ordered collection of items with its bounding box, shifting and
//! scaling.

use crate::path::{
    lemma_move_path_twice, lemma_scale_path_by_one, moderate_path, moved_path, scaled_path,
    PathSegment, PathSegments,
};
use crate::rect::Rectangle;
use crate::scalar::{lemma_times_one, Scalar};
use crate::text::{decimal, push_decimal, same_text};
use vstd::prelude::*;

verus! {

/// The lowercase form of a text, as `str::to_lowercase` of the standard
/// library computes it.
pub uninterp spec fn lowercase(s: Seq<char>) -> Seq<char>;

/// `str::to_lowercase` of the standard library returns the lowercase form
/// of its argument, which depends on the characters of the argument alone.
pub assume_specification[ str::to_lowercase ](s: &str) -> (r: String)
    ensures
        r@ == lowercase(s@),
;

/// A colour: one of a fixed palette, or explicit red, green, blue and alpha.
#[derive(Clone, Copy, Debug, PartialEq, Eq, Structural)]
pub enum Color {
    RGBA(u8, u8, u8, u8),
    Blue,
    Red,
    Orange,
    Purple,
    Lime,
    Gray,
    LightGray,
    Green,
    Black,
    White,
}

impl Color {
    /// The canonical text of the colour: the lowercase name of a palette
    /// colour, or `rgba(r,g,b,a)` with decimal components.
    pub open spec fn text(self) -> Seq<char> {
        match self {
            Color::RGBA(r, g, b, a) => "rgba("@ + decimal(r as nat) + ","@ + decimal(g as nat)
                + ","@ + decimal(b as nat) + ","@ + decimal(a as nat) + ")"@,
            Color::Blue => "blue"@,
            Color::LightGray => "lightgray"@,
            Color::Gray => "gray"@,
            Color::Red => "red"@,
            Color::Orange => "orange"@,
            Color::Purple => "purple"@,
            Color::Lime => "lime"@,
            Color::Green => "green"@,
            Color::Black => "black"@,
            Color::White => "white"@,
        }
    }

    /// The palette colour with the given lowercase name; black where the
    /// palette has no such name.
    pub open spec fn named(name: Seq<char>) -> Color {
        if name == "blue"@ {
            Color::Blue
        } else if name == "red"@ {
            Color::Red
        } else if name == "orange"@ {
            Color::Orange
        } else if name == "purple"@ {
            Color::Purple
        } else if name == "lime"@ {
            Color::Lime
        } else if name == "gray"@ {
            Color::Gray
        } else if name == "lightgray"@ {
            Color::LightGray
        } else if name == "green"@ {
            Color::Green
        } else if name == "black"@ {
            Color::Black
        } else if name == "white"@ {
            Color::White
        } else {
            Color::Black
        }
    }

    /// The canonical text of the colour.
    pub fn to_string(&self) -> (r: String)
        ensures
            r@ == self.text(),
    {
        match *self {
            Color::RGBA(r, g, b, a) => {
                let mut out = String::from_str("rgba(");
                push_decimal(&mut out, r as u64);
                out.append(",");
                push_decimal(&mut out, g as u64);
                out.append(",");
                push_decimal(&mut out, b as u64);
                out.append(",");
                push_decimal(&mut out, a as u64);
                out.append(")");
                out
            },
            Color::Blue => String::from_str("blue"),
            Color::LightGray => String::from_str("lightgray"),
            Color::Gray => String::from_str("gray"),
            Color::Red => String::from_str("red"),
            Color::Orange => String::from_str("orange"),
            Color::Purple => String::from_str("purple"),
            Color::Lime => String::from_str("lime"),
            Color::Green => String::from_str("green"),
            Color::Black => String::from_str("black"),
            Color::White => String::from_str("white"),
        }
    }

    /// Looks a lowercase name up in the palette; an unknown name gives black.
    pub fn from_name(name: &str) -> (r: Color)
        ensures
            r == Color::named(name@),
    {
        if same_text(name, "blue") {
            Color::Blue
        } else if same_text(name, "red") {
            Color::Red
        } else if same_text(name, "orange") {
            Color::Orange
        } else if same_text(name, "purple") {
            Color::Purple
        } else if same_text(name, "lime") {
            Color::Lime
        } else if same_text(name, "gray") {
            Color::Gray
        } else if same_text(name, "lightgray") {
            Color::LightGray
        } else if same_text(name, "green") {
            Color::Green
        } else if same_text(name, "black") {
            Color::Black
        } else if same_text(name, "white") {
            Color::White
        } else {
            Color::Black
        }
    }

    /// Reads a colour name in any mixture of upper and lower case; a name
    /// that is not in the palette gives black.
    pub fn from_str(s: &str) -> (r: Color)
        ensures
            r == Color::named(lowercase(s@)),
    {
        let lower = s.to_lowercase();
        Color::from_name(lower.as_str())
    }
}

/// How the interior of a shape is painted.
#[derive(Clone, Copy, Debug, PartialEq, Eq, Structural)]
pub enum Fill {
    /// The interior is left unpainted.
    NoFill,
    /// The interior is painted in this colour.
    Fillstyle(Color),
}

/// How the outline of a shape is drawn.
#[derive(Clone, Copy, Debug, PartialEq, Eq, Structural)]
pub enum Stroke {
    /// No outline is drawn.
    NoStroke,
    /// An outline of this width and colour.
    Strokestyle(Scalar, Color),
}

impl Stroke {
    /// A stroke is well formed if its width is not negative.
    pub open spec fn wf(self) -> bool {
        self matches Stroke::Strokestyle(width, _) ==> width@ >= 0
    }

    /// Whether the width of the stroke is moderate.
    pub open spec fn moderate(self) -> bool {
        self matches Stroke::Strokestyle(width, _) ==> width.moderate()
    }

    /// The stroke with its width multiplied by `s`; no stroke stays none.
    pub open spec fn spec_scale(self, s: Scalar) -> Stroke {
        match self {
            Stroke::Strokestyle(width, color) => Stroke::Strokestyle(width.spec_times(s), color),
            Stroke::NoStroke => Stroke::NoStroke,
        }
    }

    /// How far the stroke reaches beyond the geometry it outlines: half its
    /// width, and nothing where there is no stroke.
    pub open spec fn spec_reach(self) -> Scalar {
        match self {
            Stroke::Strokestyle(width, _) => width.spec_half(),
            Stroke::NoStroke => Scalar::of(0),
        }
    }

    /// Multiplies the width by `s` and keeps the colour.
    pub fn scale(&self, s: Scalar) -> (r: Stroke)
        ensures
            r == self.spec_scale(s),
            self.wf() && s@ >= 0 ==> r.wf(),
    {
        match *self {
            Stroke::Strokestyle(width, color) => {
                proof {
                    if width@ >= 0 && s@ >= 0 {
                        assert(width@ * s@ >= 0) by (nonlinear_arith)
                            requires
                                width@ >= 0,
                                s@ >= 0,
                        ;
                    }
                }
                Stroke::Strokestyle(width.times(s), color)
            },
            Stroke::NoStroke => Stroke::NoStroke,
        }
    }

    /// Half the width of the stroke, or zero where there is none.
    pub fn reach(&self) -> (r: Scalar)
        ensures
            r == self.spec_reach(),
    {
        match *self {
            Stroke::Strokestyle(width, _) => width.half(),
            Stroke::NoStroke => Scalar::zero(),
        }
    }
}

/// Whether the geometry of a path is shared with other items.
#[derive(Debug, PartialEq, Eq)]
pub enum PathCacheInfo {
    /// The path stands for itself.
    NoCache,
    /// The geometry is shared under this tag, and this item places it at the
    /// given offset. The first item with a tag defines the geometry.
    Cache(String, Scalar, Scalar),
}

/// What a [`PathCacheInfo`] holds.
pub enum PathCacheInfoView {
    NoCache,
    Cache(Seq<char>, Scalar, Scalar),
}

impl View for PathCacheInfo {
    type V = PathCacheInfoView;

    open spec fn view(&self) -> PathCacheInfoView {
        match *self {
            PathCacheInfo::NoCache => PathCacheInfoView::NoCache,
            PathCacheInfo::Cache(tag, x, y) => PathCacheInfoView::Cache(tag@, x, y),
        }
    }
}

impl Clone for PathCacheInfo {
    /// A hint with the same tag and offset.
    fn clone(&self) -> (r: PathCacheInfo)
        ensures
            r@ == self@,
    {
        match self {
            PathCacheInfo::NoCache => PathCacheInfo::NoCache,
            PathCacheInfo::Cache(tag, x, y) => PathCacheInfo::Cache(tag.clone(), *x, *y),
        }
    }
}

impl PathCacheInfoView {
    /// The hint with its placement offset scaled by `(sx, sy)`.
    pub open spec fn scaled(self, sx: Scalar, sy: Scalar) -> PathCacheInfoView {
        match self {
            PathCacheInfoView::NoCache => PathCacheInfoView::NoCache,
            PathCacheInfoView::Cache(tag, x, y) => PathCacheInfoView::Cache(
                tag,
                x.spec_times(sx),
                y.spec_times(sy),
            ),
        }
    }
}

impl PathCacheInfo {
    /// Scales the placement offset by `(sx, sy)` and keeps the tag.
    pub fn scaled(&self, sx: Scalar, sy: Scalar) -> (r: PathCacheInfo)
        ensures
            r@ == self@.scaled(sx, sy),
    {
        match self {
            PathCacheInfo::NoCache => PathCacheInfo::NoCache,
            PathCacheInfo::Cache(tag, x, y) => PathCacheInfo::Cache(
                tag.clone(),
                x.times(sx),
                y.times(sy),
            ),
        }
    }
}

/// One drawable primitive.
#[derive(Debug, PartialEq, Eq)]
pub enum GraphicItem {
    /// A line from `(x1, y1)` to `(x2, y2)`.
    Line(Scalar, Scalar, Scalar, Scalar, Stroke),
    /// A rectangle with corner `(x, y)`, width and height.
    Rect(Scalar, Scalar, Scalar, Scalar, Stroke, Fill),
    /// The ellipse inscribed in the rectangle with corner `(x, y)`, width
    /// and height.
    Ellipse(Scalar, Scalar, Scalar, Scalar, Stroke, Fill),
    /// A path.
    Path(PathSegments, Stroke, Fill, PathCacheInfo),
}

/// What a [`GraphicItem`] holds.
pub enum GraphicItemView {
    Line(Scalar, Scalar, Scalar, Scalar, Stroke),
    Rect(Scalar, Scalar, Scalar, Scalar, Stroke, Fill),
    Ellipse(Scalar, Scalar, Scalar, Scalar, Stroke, Fill),
    Path(Seq<PathSegment>, Stroke, Fill, PathCacheInfoView),
}

impl View for GraphicItem {
    type V = GraphicItemView;

    open spec fn view(&self) -> GraphicItemView {
        match *self {
            GraphicItem::Line(x1, y1, x2, y2, stroke) => GraphicItemView::Line(
                x1,
                y1,
                x2,
                y2,
                stroke,
            ),
            GraphicItem::Rect(x, y, w, h, stroke, fill) => GraphicItemView::Rect(
                x,
                y,
                w,
                h,
                stroke,
                fill,
            ),
            GraphicItem::Ellipse(x, y, w, h, stroke, fill) => GraphicItemView::Ellipse(
                x,
                y,
                w,
                h,
                stroke,
                fill,
            ),
            GraphicItem::Path(path, stroke, fill, cache) => GraphicItemView::Path(
                path@,
                stroke,
                fill,
                cache@,
            ),
        }
    }
}

impl Clone for GraphicItem {
    /// An item that holds the same.
    fn clone(&self) -> (r: GraphicItem)
        ensures
            r@ == self@,
    {
        match self {
            GraphicItem::Line(x1, y1, x2, y2, stroke) => GraphicItem::Line(
                *x1,
                *y1,
                *x2,
                *y2,
                *stroke,
            ),
            GraphicItem::Rect(x, y, w, h, stroke, fill) => GraphicItem::Rect(
                *x,
                *y,
                *w,
                *h,
                *stroke,
                *fill,
            ),
            GraphicItem::Ellipse(x, y, w, h, stroke, fill) => GraphicItem::Ellipse(
                *x,
                *y,
                *w,
                *h,
                *stroke,
                *fill,
            ),
            GraphicItem::Path(path, stroke, fill, cache) => GraphicItem::Path(
                path.clone(),
                *stroke,
                *fill,
                cache.clone(),
            ),
        }
    }
}

impl GraphicItemView {
    /// Whether two items are of the same kind of primitive.
    pub open spec fn same_kind(self, other: GraphicItemView) -> bool {
        ||| self is Line && other is Line
        ||| self is Rect && other is Rect
        ||| self is Ellipse && other is Ellipse
        ||| self is Path && other is Path
    }

    /// The stroke of the item.
    pub open spec fn stroke(self) -> Stroke {
        match self {
            GraphicItemView::Line(_, _, _, _, stroke) => stroke,
            GraphicItemView::Rect(_, _, _, _, stroke, _) => stroke,
            GraphicItemView::Ellipse(_, _, _, _, stroke, _) => stroke,
            GraphicItemView::Path(_, stroke, _, _) => stroke,
        }
    }

    /// An item is well formed if its stroke is.
    pub open spec fn wf(self) -> bool {
        self.stroke().wf()
    }

    /// Whether every position, every size and the stroke width of the item
    /// are moderate.
    pub open spec fn moderate(self) -> bool {
        match self {
            GraphicItemView::Line(x1, y1, x2, y2, stroke) => x1.moderate() && y1.moderate()
                && x2.moderate() && y2.moderate() && stroke.moderate(),
            GraphicItemView::Rect(x, y, w, h, stroke, _) => x.moderate() && y.moderate()
                && w.moderate() && h.moderate() && stroke.moderate(),
            GraphicItemView::Ellipse(x, y, w, h, stroke, _) => x.moderate() && y.moderate()
                && w.moderate() && h.moderate() && stroke.moderate(),
            GraphicItemView::Path(path, stroke, _, _) => moderate_path(path) && stroke.moderate(),
        }
    }

    /// The item shifted by `(dx, dy)`: positions move, while sizes, strokes,
    /// fills and cache hints stay as they are.
    pub open spec fn moved(self, dx: Scalar, dy: Scalar) -> GraphicItemView {
        match self {
            GraphicItemView::Line(x1, y1, x2, y2, stroke) => GraphicItemView::Line(
                x1.spec_plus(dx),
                y1.spec_plus(dy),
                x2.spec_plus(dx),
                y2.spec_plus(dy),
                stroke,
            ),
            GraphicItemView::Rect(x, y, w, h, stroke, fill) => GraphicItemView::Rect(
                x.spec_plus(dx),
                y.spec_plus(dy),
                w,
                h,
                stroke,
                fill,
            ),
            GraphicItemView::Ellipse(x, y, w, h, stroke, fill) => GraphicItemView::Ellipse(
                x.spec_plus(dx),
                y.spec_plus(dy),
                w,
                h,
                stroke,
                fill,
            ),
            GraphicItemView::Path(path, stroke, fill, cache) => GraphicItemView::Path(
                moved_path(path, dx, dy),
                stroke,
                fill,
                cache,
            ),
        }
    }

    /// The item scaled by `(sx, sy)`, with its stroke width scaled by
    /// `stroke_scale`: positions, sizes and the placement offset of a cached
    /// path are multiplied by the scale of their axis; colours stay.
    pub open spec fn scaled(self, sx: Scalar, sy: Scalar, stroke_scale: Scalar) -> GraphicItemView {
        match self {
            GraphicItemView::Line(x1, y1, x2, y2, stroke) => GraphicItemView::Line(
                x1.spec_times(sx),
                y1.spec_times(sy),
                x2.spec_times(sx),
                y2.spec_times(sy),
                stroke.spec_scale(stroke_scale),
            ),
            GraphicItemView::Rect(x, y, w, h, stroke, fill) => GraphicItemView::Rect(
                x.spec_times(sx),
                y.spec_times(sy),
                w.spec_times(sx),
                h.spec_times(sy),
                stroke.spec_scale(stroke_scale),
                fill,
            ),
            GraphicItemView::Ellipse(x, y, w, h, stroke, fill) => GraphicItemView::Ellipse(
                x.spec_times(sx),
                y.spec_times(sy),
                w.spec_times(sx),
                h.spec_times(sy),
                stroke.spec_scale(stroke_scale),
                fill,
            ),
            GraphicItemView::Path(path, stroke, fill, cache) => GraphicItemView::Path(
                scaled_path(path, sx, sy),
                stroke.spec_scale(stroke_scale),
                fill,
                cache.scaled(sx, sy),
            ),
        }
    }
}

impl GraphicItem {
    /// Shifts the item by `(dx, dy)`.
    pub fn moved(&self, dx: Scalar, dy: Scalar) -> (r: GraphicItem)
        ensures
            r@ == self@.moved(dx, dy),
            r@.same_kind(self@),
            r@.stroke() == self@.stroke(),
    {
        match self {
            GraphicItem::Line(x1, y1, x2, y2, stroke) => GraphicItem::Line(
                x1.plus(dx),
                y1.plus(dy),
                x2.plus(dx),
                y2.plus(dy),
                *stroke,
            ),
            GraphicItem::Rect(x, y, w, h, stroke, fill) => GraphicItem::Rect(
                x.plus(dx),
                y.plus(dy),
                *w,
                *h,
                *stroke,
                *fill,
            ),
            GraphicItem::Ellipse(x, y, w, h, stroke, fill) => GraphicItem::Ellipse(
                x.plus(dx),
                y.plus(dy),
                *w,
                *h,
                *stroke,
                *fill,
            ),
            GraphicItem::Path(path, stroke, fill, cache) => GraphicItem::Path(
                path.move_path(dx, dy),
                *stroke,
                *fill,
                cache.clone(),
            ),
        }
    }

    /// Scales the item by `(sx, sy)` and its stroke width by `stroke_scale`.
    pub fn scaled(&self, sx: Scalar, sy: Scalar, stroke_scale: Scalar) -> (r: GraphicItem)
        ensures
            r@ == self@.scaled(sx, sy, stroke_scale),
            r@.same_kind(self@),
            self@.wf() && stroke_scale@ >= 0 ==> r@.wf(),
    {
        match self {
            GraphicItem::Line(x1, y1, x2, y2, stroke) => GraphicItem::Line(
                x1.times(sx),
                y1.times(sy),
                x2.times(sx),
                y2.times(sy),
                stroke.scale(stroke_scale),
            ),
            GraphicItem::Rect(x, y, w, h, stroke, fill) => GraphicItem::Rect(
                x.times(sx),
                y.times(sy),
                w.times(sx),
                h.times(sy),
                stroke.scale(stroke_scale),
                *fill,
            ),
            GraphicItem::Ellipse(x, y, w, h, stroke, fill) => GraphicItem::Ellipse(
                x.times(sx),
                y.times(sy),
                w.times(sx),
                h.times(sy),
                stroke.scale(stroke_scale),
                *fill,
            ),
            GraphicItem::Path(path, stroke, fill, cache) => GraphicItem::Path(
                path.scale_path(sx, sy),
                stroke.scale(stroke_scale),
                *fill,
                cache.scaled(sx, sy),
            ),
        }
    }
}

/// A drawing is well formed if each of its items is.
pub open spec fn wf_items(items: Seq<GraphicItemView>) -> bool {
    forall|i: int| 0 <= i < items.len() ==> (#[trigger] items[i]).wf()
}

/// Every item of `items` shifted by `(dx, dy)`, in the same order.
pub open spec fn moved_items(items: Seq<GraphicItemView>, dx: Scalar, dy: Scalar) -> Seq<
    GraphicItemView,
> {
    Seq::new(items.len(), |i: int| items[i].moved(dx, dy))
}

/// Every item of `items` scaled, in the same order.
pub open spec fn scaled_items(
    items: Seq<GraphicItemView>,
    sx: Scalar,
    sy: Scalar,
    stroke_scale: Scalar,
) -> Seq<GraphicItemView> {
    Seq::new(items.len(), |i: int| items[i].scaled(sx, sy, stroke_scale))
}

/// Whether every item of a drawing is moderate.
pub open spec fn moderate_items(items: Seq<GraphicItemView>) -> bool {
    forall|i: int| 0 <= i < items.len() ==> (#[trigger] items[i]).moderate()
}

/// Moving a drawing twice is moving it once by the sum of the shifts, as
/// long as the drawing and the shifts are moderate.
pub proof fn lemma_move_items_twice(
    items: Seq<GraphicItemView>,
    ax: Scalar,
    ay: Scalar,
    bx: Scalar,
    by: Scalar,
)
    requires
        moderate_items(items),
        ax.moderate(),
        ay.moderate(),
        bx.moderate(),
        by.moderate(),
    ensures
        moved_items(moved_items(items, ax, ay), bx, by) == moved_items(
            items,
            ax.spec_plus(bx),
            ay.spec_plus(by),
        ),
{
    assert forall|i: int| 0 <= i < items.len() implies items[i].moved(ax, ay).moved(bx, by)
        == items[i].moved(ax.spec_plus(bx), ay.spec_plus(by)) by {
        assert(items[i].moderate());
        match items[i] {
            GraphicItemView::Path(path, _, _, _) => {
                lemma_move_path_twice(path, ax, ay, bx, by);
            },
            _ => {},
        }
    }
    assert(moved_items(moved_items(items, ax, ay), bx, by) =~= moved_items(
        items,
        ax.spec_plus(bx),
        ay.spec_plus(by),
    ));
}

/// Scaling a drawing by one along both axes, with the stroke widths scaled
/// by one, changes nothing.
pub proof fn lemma_scale_items_by_one(items: Seq<GraphicItemView>)
    ensures
        scaled_items(items, Scalar::of(1_000_000), Scalar::of(1_000_000), Scalar::of(1_000_000))
            == items,
{
    let one = Scalar::of(1_000_000);
    assert forall|i: int| 0 <= i < items.len() implies items[i].scaled(one, one, one)
        == items[i] by {
        match items[i] {
            GraphicItemView::Line(x1, y1, x2, y2, stroke) => {
                lemma_times_one(x1);
                lemma_times_one(y1);
                lemma_times_one(x2);
                lemma_times_one(y2);
                lemma_stroke_scale_by_one(stroke);
            },
            GraphicItemView::Rect(x, y, w, h, stroke, _) => {
                lemma_times_one(x);
                lemma_times_one(y);
                lemma_times_one(w);
                lemma_times_one(h);
                lemma_stroke_scale_by_one(stroke);
            },
            GraphicItemView::Ellipse(x, y, w, h, stroke, _) => {
                lemma_times_one(x);
                lemma_times_one(y);
                lemma_times_one(w);
                lemma_times_one(h);
                lemma_stroke_scale_by_one(stroke);
            },
            GraphicItemView::Path(path, stroke, _, cache) => {
                lemma_scale_path_by_one(path);
                lemma_stroke_scale_by_one(stroke);
                match cache {
                    PathCacheInfoView::Cache(_, x, y) => {
                        lemma_times_one(x);
                        lemma_times_one(y);
                    },
                    PathCacheInfoView::NoCache => {},
                }
            },
        }
    }
    assert(scaled_items(items, one, one, one) =~= items);
}

/// Scaling the width of a stroke by one changes nothing.
pub proof fn lemma_stroke_scale_by_one(stroke: Stroke)
    ensures
        stroke.spec_scale(Scalar::of(1_000_000)) == stroke,
{
    match stroke {
        Stroke::Strokestyle(width, _) => {
            lemma_times_one(width);
        },
        Stroke::NoStroke => {},
    }
}

/// The bounding box of nothing: each side holds the value from which a
/// minimum or a maximum starts.
pub open spec fn no_bounds() -> Rectangle {
    Rectangle(
        Scalar::of(i64::MAX as int),
        Scalar::of(i64::MAX as int),
        Scalar::of(i64::MIN as int),
        Scalar::of(i64::MIN as int),
    )
}

/// The box `(x_min, y_min, x_max, y_max)` widened to hold the point `(x, y)`
/// together with everything within `reach` of it along either axis.
pub open spec fn with_point(b: Rectangle, x: Scalar, y: Scalar, reach: Scalar) -> Rectangle {
    Rectangle(
        b.0.spec_min(x.spec_minus(reach)),
        b.1.spec_min(y.spec_minus(reach)),
        b.2.spec_max(x.spec_plus(reach)),
        b.3.spec_max(y.spec_plus(reach)),
    )
}

/// The box widened to hold every point that a segment names, control
/// points included; `Z` names none.
pub open spec fn with_segment(b: Rectangle, segment: PathSegment, reach: Scalar) -> Rectangle {
    match segment {
        PathSegment::M(x, y) => with_point(b, x, y, reach),
        PathSegment::L(x, y) => with_point(b, x, y, reach),
        PathSegment::Q(cx, cy, x, y) => with_point(with_point(b, x, y, reach), cx, cy, reach),
        PathSegment::C(c1x, c1y, c2x, c2y, x, y) => with_point(
            with_point(with_point(b, x, y, reach), c1x, c1y, reach),
            c2x,
            c2y,
            reach,
        ),
        PathSegment::Z => b,
    }
}

/// The box widened to hold every point of a path.
pub open spec fn with_path(b: Rectangle, path: Seq<PathSegment>, reach: Scalar) -> Rectangle
    decreases path.len(),
{
    if path.len() == 0 {
        b
    } else {
        with_segment(with_path(b, path.drop_last(), reach), path.last(), reach)
    }
}

/// The box widened to hold an item and the reach of its stroke: a line by
/// its two ends, a rectangle or an ellipse by two opposite corners of its
/// frame, a path by the points of its segments.
pub open spec fn with_item(b: Rectangle, item: GraphicItemView) -> Rectangle {
    match item {
        GraphicItemView::Line(x1, y1, x2, y2, stroke) => with_point(
            with_point(b, x1, y1, stroke.spec_reach()),
            x2,
            y2,
            stroke.spec_reach(),
        ),
        GraphicItemView::Rect(x, y, w, h, stroke, _) => with_point(
            with_point(b, x, y, stroke.spec_reach()),
            x.spec_plus(w),
            y.spec_plus(h),
            stroke.spec_reach(),
        ),
        GraphicItemView::Ellipse(x, y, w, h, stroke, _) => with_point(
            with_point(b, x, y, stroke.spec_reach()),
            x.spec_plus(w),
            y.spec_plus(h),
            stroke.spec_reach(),
        ),
        GraphicItemView::Path(path, stroke, _, _) => with_path(b, path, stroke.spec_reach()),
    }
}

/// The box widened to hold every item of a collection.
pub open spec fn with_items(b: Rectangle, items: Seq<GraphicItemView>) -> Rectangle
    decreases items.len(),
{
    if items.len() == 0 {
        b
    } else {
        with_item(with_items(b, items.drop_last()), items.last())
    }
}

/// The bounding box of a collection: the least box that holds every item
/// with the reach of its stroke, and [`no_bounds`] where no item names a
/// point.
pub open spec fn bounds(items: Seq<GraphicItemView>) -> Rectangle {
    with_items(no_bounds(), items)
}

/// Whether box `a` lies inside box `b`.
pub open spec fn inside(a: Rectangle, b: Rectangle) -> bool {
    &&& b.0@ <= a.0@
    &&& b.1@ <= a.1@
    &&& a.2@ <= b.2@
    &&& a.3@ <= b.3@
}

/// The least box that holds two boxes.
pub open spec fn join(a: Rectangle, b: Rectangle) -> Rectangle {
    Rectangle(a.0.spec_min(b.0), a.1.spec_min(b.1), a.2.spec_max(b.2), a.3.spec_max(b.3))
}

/// Widening a box by a segment joins the box with the box of the segment.
proof fn lemma_segment_joins(b: Rectangle, segment: PathSegment, reach: Scalar)
    ensures
        with_segment(b, segment, reach) == join(b, with_segment(no_bounds(), segment, reach)),
{
}

/// Widening a box by a path joins the box with the box of the path.
proof fn lemma_path_joins(b: Rectangle, path: Seq<PathSegment>, reach: Scalar)
    ensures
        with_path(b, path, reach) == join(b, with_path(no_bounds(), path, reach)),
    decreases path.len(),
{
    if path.len() > 0 {
        let front = path.drop_last();
        lemma_path_joins(b, front, reach);
        lemma_segment_joins(with_path(b, front, reach), path.last(), reach);
        lemma_segment_joins(with_path(no_bounds(), front, reach), path.last(), reach);
    }
}

/// The box of a path holds every segment: the box of each segment lies
/// inside the box of the path.
pub proof fn lemma_path_box_holds_every_segment(path: Seq<PathSegment>, reach: Scalar, i: int)
    requires
        0 <= i < path.len(),
    ensures
        inside(
            with_segment(no_bounds(), path[i], reach),
            with_path(no_bounds(), path, reach),
        ),
    decreases path.len(),
{
    let front = path.drop_last();
    lemma_segment_joins(with_path(no_bounds(), front, reach), path.last(), reach);
    if i < path.len() - 1 {
        lemma_path_box_holds_every_segment(front, reach, i);
        assert(front[i] == path[i]);
    }
}

/// The box of a path is the least such box: it lies inside every box that
/// holds the box of each segment.
pub proof fn lemma_path_box_is_least(path: Seq<PathSegment>, reach: Scalar, b: Rectangle)
    requires
        forall|i: int|
            0 <= i < path.len() ==> inside(
                with_segment(no_bounds(), #[trigger] path[i], reach),
                b,
            ),
    ensures
        inside(with_path(no_bounds(), path, reach), b),
    decreases path.len(),
{
    if path.len() > 0 {
        let front = path.drop_last();
        assert forall|i: int| 0 <= i < front.len() implies inside(
            with_segment(no_bounds(), #[trigger] front[i], reach),
            b,
        ) by {
            assert(front[i] == path[i]);
        }
        lemma_path_box_is_least(front, reach, b);
        lemma_segment_joins(with_path(no_bounds(), front, reach), path.last(), reach);
        assert(inside(with_segment(no_bounds(), path[path.len() - 1], reach), b));
    }
}

/// Widening a box by an item joins the box with the box of the item.
proof fn lemma_item_joins(b: Rectangle, item: GraphicItemView)
    ensures
        with_item(b, item) == join(b, with_item(no_bounds(), item)),
{
    match item {
        GraphicItemView::Path(path, stroke, _, _) => {
            lemma_path_joins(b, path, stroke.spec_reach());
        },
        _ => {},
    }
}

/// The bounding box holds every item: the box of each item of a drawing
/// lies inside the box of the drawing.
pub proof fn lemma_bounds_hold_every_item(items: Seq<GraphicItemView>, i: int)
    requires
        0 <= i < items.len(),
    ensures
        inside(with_item(no_bounds(), items[i]), bounds(items)),
    decreases items.len(),
{
    let front = items.drop_last();
    lemma_item_joins(with_items(no_bounds(), front), items.last());
    if i < items.len() - 1 {
        lemma_bounds_hold_every_item(front, i);
        assert(front[i] == items[i]);
    }
}

/// The bounding box is the least such box: it lies inside every box that
/// holds the box of each item of the drawing.
pub proof fn lemma_bounds_are_least(items: Seq<GraphicItemView>, b: Rectangle)
    requires
        forall|i: int|
            0 <= i < items.len() ==> inside(with_item(no_bounds(), #[trigger] items[i]), b),
    ensures
        inside(bounds(items), b),
    decreases items.len(),
{
    if items.len() > 0 {
        let front = items.drop_last();
        assert forall|i: int| 0 <= i < front.len() implies inside(
            with_item(no_bounds(), #[trigger] front[i]),
            b,
        ) by {
            assert(front[i] == items[i]);
        }
        lemma_bounds_are_least(front, b);
        lemma_item_joins(with_items(no_bounds(), front), items.last());
        assert(inside(with_item(no_bounds(), items[items.len() - 1]), b));
    }
}

/// Whether an item names a point: every item does but a path without
/// segments or with none but `Z`.
pub open spec fn names_a_point(item: GraphicItemView) -> bool {
    match item {
        GraphicItemView::Path(path, _, _, _) => exists|i: int|
            0 <= i < path.len() && !(#[trigger] path[i] is Z),
        _ => true,
    }
}

/// Whether some item of a drawing names a point, so that the drawing has a
/// bounding box.
pub open spec fn has_points(items: Seq<GraphicItemView>) -> bool {
    exists|i: int| 0 <= i < items.len() && names_a_point(#[trigger] items[i])
}

/// Whether every side of a box lies within three million million units of
/// zero; such a box is the box of something, and it can be shifted as far
/// again without reaching the ends of the range.
pub open spec fn settled(b: Rectangle) -> bool {
    &&& -3_000_000_000_000_000_000 <= b.0@ <= 3_000_000_000_000_000_000
    &&& -3_000_000_000_000_000_000 <= b.1@ <= 3_000_000_000_000_000_000
    &&& -3_000_000_000_000_000_000 <= b.2@ <= 3_000_000_000_000_000_000
    &&& -3_000_000_000_000_000_000 <= b.3@ <= 3_000_000_000_000_000_000
}

/// A box shifted by `(dx, dy)`; the box of nothing stays as it is.
pub open spec fn shifted(b: Rectangle, dx: Scalar, dy: Scalar) -> Rectangle {
    if b == no_bounds() {
        b
    } else {
        Rectangle(b.0.spec_plus(dx), b.1.spec_plus(dy), b.2.spec_plus(dx), b.3.spec_plus(dy))
    }
}

/// Whether a shift is at most three million million units along each axis.
pub open spec fn small_shift(dx: Scalar, dy: Scalar) -> bool {
    &&& -3_000_000_000_000_000_000 <= dx@ <= 3_000_000_000_000_000_000
    &&& -3_000_000_000_000_000_000 <= dy@ <= 3_000_000_000_000_000_000
}

/// Widening a shifted box by a shifted point gives the shifted widening.
proof fn lemma_point_moved(
    b: Rectangle,
    x: Scalar,
    y: Scalar,
    mx: Scalar,
    my: Scalar,
    reach: Scalar,
    dx: Scalar,
    dy: Scalar,
)
    requires
        b == no_bounds() || settled(b),
        -2_000_000_000_000_000_000 <= x@ <= 2_000_000_000_000_000_000,
        -2_000_000_000_000_000_000 <= y@ <= 2_000_000_000_000_000_000,
        reach.moderate(),
        small_shift(dx, dy),
        mx@ == x@ + dx@,
        my@ == y@ + dy@,
    ensures
        settled(with_point(b, x, y, reach)),
        with_point(shifted(b, dx, dy), mx, my, reach) == shifted(
            with_point(b, x, y, reach),
            dx,
            dy,
        ),
{
}

/// Widening a shifted box by a moved segment gives the shifted widening.
proof fn lemma_segment_moved(
    b: Rectangle,
    segment: PathSegment,
    reach: Scalar,
    dx: Scalar,
    dy: Scalar,
)
    requires
        b == no_bounds() || settled(b),
        segment.moderate(),
        reach.moderate(),
        small_shift(dx, dy),
    ensures
        with_segment(b, segment, reach) == no_bounds() || settled(
            with_segment(b, segment, reach),
        ),
        settled(b) || !(segment is Z) ==> settled(with_segment(b, segment, reach)),
        with_segment(shifted(b, dx, dy), segment.spec_moved(dx, dy), reach) == shifted(
            with_segment(b, segment, reach),
            dx,
            dy,
        ),
{
    match segment {
        PathSegment::M(x, y) => {
            lemma_point_moved(b, x, y, x.spec_plus(dx), y.spec_plus(dy), reach, dx, dy);
        },
        PathSegment::L(x, y) => {
            lemma_point_moved(b, x, y, x.spec_plus(dx), y.spec_plus(dy), reach, dx, dy);
        },
        PathSegment::Q(cx, cy, x, y) => {
            lemma_point_moved(b, x, y, x.spec_plus(dx), y.spec_plus(dy), reach, dx, dy);
            lemma_point_moved(
                with_point(b, x, y, reach),
                cx,
                cy,
                cx.spec_plus(dx),
                cy.spec_plus(dy),
                reach,
                dx,
                dy,
            );
        },
        PathSegment::C(c1x, c1y, c2x, c2y, x, y) => {
            lemma_point_moved(b, x, y, x.spec_plus(dx), y.spec_plus(dy), reach, dx, dy);
            let b1 = with_point(b, x, y, reach);
            lemma_point_moved(b1, c1x, c1y, c1x.spec_plus(dx), c1y.spec_plus(dy), reach, dx, dy);
            let b2 = with_point(b1, c1x, c1y, reach);
            lemma_point_moved(b2, c2x, c2y, c2x.spec_plus(dx), c2y.spec_plus(dy), reach, dx, dy);
        },
        PathSegment::Z => {},
    }
}

/// Widening a shifted box by a moved path gives the shifted widening.
proof fn lemma_path_moved(
    b: Rectangle,
    path: Seq<PathSegment>,
    reach: Scalar,
    dx: Scalar,
    dy: Scalar,
)
    requires
        b == no_bounds() || settled(b),
        moderate_path(path),
        reach.moderate(),
        small_shift(dx, dy),
    ensures
        with_path(b, path, reach) == no_bounds() || settled(with_path(b, path, reach)),
        settled(b) || (exists|i: int| 0 <= i < path.len() && !(#[trigger] path[i] is Z))
            ==> settled(with_path(b, path, reach)),
        with_path(shifted(b, dx, dy), moved_path(path, dx, dy), reach) == shifted(
            with_path(b, path, reach),
            dx,
            dy,
        ),
    decreases path.len(),
{
    if path.len() > 0 {
        let front = path.drop_last();
        let inner = with_path(b, front, reach);
        assert(moderate_path(front)) by {
            assert forall|i: int| 0 <= i < front.len() implies (#[trigger] front[i]).moderate() by {
                assert(front[i] == path[i]);
            }
        }
        lemma_path_moved(b, front, reach, dx, dy);
        assert(path.last().moderate());
        lemma_segment_moved(inner, path.last(), reach, dx, dy);
        assert(moved_path(path, dx, dy).drop_last() =~= moved_path(front, dx, dy));
        assert(moved_path(path, dx, dy).last() == path.last().spec_moved(dx, dy));
        if exists|i: int| 0 <= i < path.len() && !(#[trigger] path[i] is Z) {
            let i = choose|i: int| 0 <= i < path.len() && !(#[trigger] path[i] is Z);
            if i < path.len() - 1 {
                assert(front[i] == path[i]);
                assert(settled(inner));
            }
        }
    }
}

/// The reach of a moderate stroke is moderate.
proof fn lemma_reach_moderate(stroke: Stroke)
    requires
        stroke.moderate(),
    ensures
        stroke.spec_reach().moderate(),
{
    match stroke {
        Stroke::Strokestyle(width, _) => {
            let w = width@;
            if w >= 0 {
                assert((2 * w + 2) / 4 <= w);
            } else {
                assert((2 * (-w) + 2) / 4 <= -w);
            }
        },
        Stroke::NoStroke => {},
    }
}

/// Widening a shifted box by a moved item gives the shifted widening.
proof fn lemma_item_moved(b: Rectangle, item: GraphicItemView, dx: Scalar, dy: Scalar)
    requires
        b == no_bounds() || settled(b),
        item.moderate(),
        small_shift(dx, dy),
    ensures
        with_item(b, item) == no_bounds() || settled(with_item(b, item)),
        settled(b) || names_a_point(item) ==> settled(with_item(b, item)),
        with_item(shifted(b, dx, dy), item.moved(dx, dy)) == shifted(with_item(b, item), dx, dy),
{
    match item {
        GraphicItemView::Line(_, _, _, _, stroke) => lemma_reach_moderate(stroke),
        GraphicItemView::Rect(_, _, _, _, stroke, _) => lemma_reach_moderate(stroke),
        GraphicItemView::Ellipse(_, _, _, _, stroke, _) => lemma_reach_moderate(stroke),
        GraphicItemView::Path(_, stroke, _, _) => lemma_reach_moderate(stroke),
    }
    match item {
        GraphicItemView::Line(x1, y1, x2, y2, stroke) => {
            let reach = stroke.spec_reach();
            lemma_point_moved(b, x1, y1, x1.spec_plus(dx), y1.spec_plus(dy), reach, dx, dy);
            lemma_point_moved(
                with_point(b, x1, y1, reach),
                x2,
                y2,
                x2.spec_plus(dx),
                y2.spec_plus(dy),
                reach,
                dx,
                dy,
            );
        },
        GraphicItemView::Rect(x, y, w, h, stroke, _) => {
            let reach = stroke.spec_reach();
            lemma_point_moved(b, x, y, x.spec_plus(dx), y.spec_plus(dy), reach, dx, dy);
            lemma_point_moved(
                with_point(b, x, y, reach),
                x.spec_plus(w),
                y.spec_plus(h),
                x.spec_plus(dx).spec_plus(w),
                y.spec_plus(dy).spec_plus(h),
                reach,
                dx,
                dy,
            );
        },
        GraphicItemView::Ellipse(x, y, w, h, stroke, _) => {
            let reach = stroke.spec_reach();
            lemma_point_moved(b, x, y, x.spec_plus(dx), y.spec_plus(dy), reach, dx, dy);
            lemma_point_moved(
                with_point(b, x, y, reach),
                x.spec_plus(w),
                y.spec_plus(h),
                x.spec_plus(dx).spec_plus(w),
                y.spec_plus(dy).spec_plus(h),
                reach,
                dx,
                dy,
            );
        },
        GraphicItemView::Path(path, stroke, _, _) => {
            lemma_path_moved(b, path, stroke.spec_reach(), dx, dy);
        },
    }
}

/// Widening a shifted box by a moved drawing gives the shifted widening.
proof fn lemma_items_moved(b: Rectangle, items: Seq<GraphicItemView>, dx: Scalar, dy: Scalar)
    requires
        b == no_bounds() || settled(b),
        moderate_items(items),
        small_shift(dx, dy),
    ensures
        with_items(b, items) == no_bounds() || settled(with_items(b, items)),
        settled(b) || has_points(items) ==> settled(with_items(b, items)),
        with_items(shifted(b, dx, dy), moved_items(items, dx, dy)) == shifted(
            with_items(b, items),
            dx,
            dy,
        ),
    decreases items.len(),
{
    if items.len() > 0 {
        let front = items.drop_last();
        let inner = with_items(b, front);
        assert(moderate_items(front)) by {
            assert forall|i: int| 0 <= i < front.len() implies (#[trigger] front[i]).moderate() by {
                assert(front[i] == items[i]);
            }
        }
        lemma_items_moved(b, front, dx, dy);
        assert(items.last().moderate());
        lemma_item_moved(inner, items.last(), dx, dy);
        assert(moved_items(items, dx, dy).drop_last() =~= moved_items(front, dx, dy));
        assert(moved_items(items, dx, dy).last() == items.last().moved(dx, dy));
        if has_points(items) {
            let i = choose|i: int| 0 <= i < items.len() && names_a_point(#[trigger] items[i]);
            if i < items.len() - 1 {
                assert(front[i] == items[i]);
                assert(has_points(front));
            }
        }
    }
}

/// The bounding box moves with the drawing: the box of a moderate drawing
/// moved by a small shift is the box of the drawing, shifted. The box of a
/// moderate drawing is either the box of nothing or settled, and it is
/// settled where the drawing has points.
pub proof fn lemma_bounds_of_moved(items: Seq<GraphicItemView>, dx: Scalar, dy: Scalar)
    requires
        moderate_items(items),
        small_shift(dx, dy),
    ensures
        bounds(moved_items(items, dx, dy)) == shifted(bounds(items), dx, dy),
        bounds(items) == no_bounds() || settled(bounds(items)),
        has_points(items) ==> settled(bounds(items)),
{
    lemma_items_moved(no_bounds(), items, dx, dy);
}

/// Widens a box to hold a point and what lies within `reach` of it.
fn include_point(b: Rectangle, x: Scalar, y: Scalar, reach: Scalar) -> (r: Rectangle)
    ensures
        r == with_point(b, x, y, reach),
{
    Rectangle(
        b.0.min(x.minus(reach)),
        b.1.min(y.minus(reach)),
        b.2.max(x.plus(reach)),
        b.3.max(y.plus(reach)),
    )
}

/// Widens a box to hold the points of a segment.
fn include_segment(b: Rectangle, segment: &PathSegment, reach: Scalar) -> (r: Rectangle)
    ensures
        r == with_segment(b, *segment, reach),
{
    match *segment {
        PathSegment::M(x, y) => include_point(b, x, y, reach),
        PathSegment::L(x, y) => include_point(b, x, y, reach),
        PathSegment::Q(cx, cy, x, y) => include_point(
            include_point(b, x, y, reach),
            cx,
            cy,
            reach,
        ),
        PathSegment::C(c1x, c1y, c2x, c2y, x, y) => include_point(
            include_point(include_point(b, x, y, reach), c1x, c1y, reach),
            c2x,
            c2y,
            reach,
        ),
        PathSegment::Z => b,
    }
}

/// Widens a box to hold the points of a path.
fn include_path(b: Rectangle, path: &PathSegments, reach: Scalar) -> (r: Rectangle)
    ensures
        r == with_path(b, path@, reach),
{
    let mut acc = b;
    let mut i: usize = 0;
    while i < path.0.len()
        invariant
            i <= path.0.len(),
            acc == with_path(b, path@.take(i as int), reach),
        decreases path.0.len() - i,
    {
        acc = include_segment(acc, &path.0[i], reach);
        proof {
            assert(path@.take(i + 1).drop_last() =~= path@.take(i as int));
        }
        i += 1;
    }
    proof {
        assert(path@.take(i as int) =~= path@);
    }
    acc
}

/// Widens a box to hold an item.
fn include_item(b: Rectangle, item: &GraphicItem) -> (r: Rectangle)
    ensures
        r == with_item(b, item@),
{
    match item {
        GraphicItem::Line(x1, y1, x2, y2, stroke) => {
            let reach = stroke.reach();
            include_point(include_point(b, *x1, *y1, reach), *x2, *y2, reach)
        },
        GraphicItem::Rect(x, y, w, h, stroke, _) => {
            let reach = stroke.reach();
            include_point(include_point(b, *x, *y, reach), x.plus(*w), y.plus(*h), reach)
        },
        GraphicItem::Ellipse(x, y, w, h, stroke, _) => {
            let reach = stroke.reach();
            include_point(include_point(b, *x, *y, reach), x.plus(*w), y.plus(*h), reach)
        },
        GraphicItem::Path(path, stroke, _, _) => include_path(b, path, stroke.reach()),
    }
}

/// An ordered collection of items; the order is the order of rendering.
#[derive(Debug, PartialEq, Eq)]
pub struct GraphicItems(pub Vec<GraphicItem>);

impl View for GraphicItems {
    type V = Seq<GraphicItemView>;

    open spec fn view(&self) -> Seq<GraphicItemView> {
        Seq::new(self.0@.len(), |i: int| self.0@[i]@)
    }
}

impl GraphicItems {
    /// The empty collection.
    pub fn new() -> (r: GraphicItems)
        ensures
            r@ == Seq::<GraphicItemView>::empty(),
    {
        let r = GraphicItems(Vec::new());
        proof {
            assert(r@ =~= Seq::<GraphicItemView>::empty());
        }
        r
    }

    /// Appends `item` as the last item.
    pub fn push(&mut self, item: GraphicItem)
        ensures
            final(self)@ == old(self)@.push(item@),
    {
        self.0.push(item);
        proof {
            assert(self@ =~= old(self)@.push(item@));
        }
    }

    /// Appends the items of `items`, in their order.
    pub fn extend(&mut self, items: GraphicItems)
        ensures
            final(self)@ == old(self)@ + items@,
    {
        let mut items = items;
        let ghost added = items@;
        self.0.append(&mut items.0);
        proof {
            assert(self@ =~= old(self)@ + added);
        }
    }

    /// The bounding box `(x_min, y_min, x_max, y_max)` of the collection.
    pub fn bbox(&self) -> (r: Rectangle)
        ensures
            r == bounds(self@),
    {
        let mut acc = Rectangle(
            Scalar::largest(),
            Scalar::largest(),
            Scalar::smallest(),
            Scalar::smallest(),
        );
        let mut i: usize = 0;
        while i < self.0.len()
            invariant
                i <= self.0.len(),
                acc == with_items(no_bounds(), self@.take(i as int)),
            decreases self.0.len() - i,
        {
            acc = include_item(acc, &self.0[i]);
            proof {
                assert(self@.take(i + 1).drop_last() =~= self@.take(i as int));
            }
            i += 1;
        }
        proof {
            assert(self@.take(i as int) =~= self@);
        }
        acc
    }

    /// Shifts every item by `(move_x, move_y)`. The result holds as many
    /// items as the collection, each of the kind of the item in its place.
    pub fn move_items(&self, move_x: Scalar, move_y: Scalar) -> (r: GraphicItems)
        ensures
            r@ == moved_items(self@, move_x, move_y),
            r@.len() == self@.len(),
            forall|i: int| 0 <= i < self@.len() ==> (#[trigger] r@[i]).same_kind(self@[i]),
            wf_items(self@) ==> wf_items(r@),
    {
        let mut ret: Vec<GraphicItem> = Vec::new();
        let mut i: usize = 0;
        while i < self.0.len()
            invariant
                i <= self.0.len(),
                ret@.len() == i,
                forall|k: int| 0 <= k < i ==> (#[trigger] ret@[k])@ == self.0@[k]@.moved(move_x, move_y),
            decreases self.0.len() - i,
        {
            ret.push(self.0[i].moved(move_x, move_y));
            i += 1;
        }
        let r = GraphicItems(ret);
        proof {
            assert(r@ =~= moved_items(self@, move_x, move_y));
        }
        r
    }

    /// Scales every item by `(scale_x, scale_y)` and every stroke width by
    /// `scale_stroke`. The result holds as many items as the collection,
    /// each of the kind of the item in its place.
    pub fn scale_items(&self, scale_x: Scalar, scale_y: Scalar, scale_stroke: Scalar) -> (r:
        GraphicItems)
        ensures
            r@ == scaled_items(self@, scale_x, scale_y, scale_stroke),
            r@.len() == self@.len(),
            forall|i: int| 0 <= i < self@.len() ==> (#[trigger] r@[i]).same_kind(self@[i]),
            wf_items(self@) && scale_stroke@ >= 0 ==> wf_items(r@),
    {
        let mut ret: Vec<GraphicItem> = Vec::new();
        let mut i: usize = 0;
        while i < self.0.len()
            invariant
                i <= self.0.len(),
                ret@.len() == i,
                forall|k: int|
                    0 <= k < i ==> (#[trigger] ret@[k])@ == self.0@[k]@.scaled(
                        scale_x,
                        scale_y,
                        scale_stroke,
                    ),
            decreases self.0.len() - i,
        {
            ret.push(self.0[i].scaled(scale_x, scale_y, scale_stroke));
            i += 1;
        }
        let r = GraphicItems(ret);
        proof {
            assert(r@ =~= scaled_items(self@, scale_x, scale_y, scale_stroke));
        }
        r
    }
}

} // verus!
