//! The script emitter.
//!
//! The output is a script for a compositing host: a fixed prologue, the
//! statements generated for the drawing, and a fixed epilogue. Each styled
//! stroke and each styled fill of an item becomes a block of its own: the
//! block builds a shape, traces the outline of the item, widens the trace
//! to an outline where the styling is a stroke, and composites the shape in
//! the colour of the styling.

use crate::builder::{normalize, BuilderOptions, GraphicBuilder};
use crate::error::GraphicsError;
use crate::item::{Color, Fill, GraphicItem, GraphicItemView, GraphicItems, Stroke};
use crate::path::{quadratic_to_cubic, PathSegment, PathSegments};
use crate::rect::Rectangle;
use crate::scalar::{decimal_text, Scalar};
use vstd::prelude::*;

verus! {

/// The colour as the host writes it: red, green, blue and alpha between
/// zero and one. Colours without an entry of their own are a middle gray.
pub open spec fn pixel_text(color: Color) -> Seq<char> {
    match color {
        Color::Blue => "{R = 0, G = 0, B = 1, A = 1}"@,
        Color::Red => "{R = 1, G = 0, B = 0, A = 1}"@,
        Color::Lime => "{R = 0, G = 1, B = 0, A = 1}"@,
        Color::Purple => "{R = .5, G = 0, B = .5, A = 1}"@,
        Color::Black => "{R = 0, G = 0, B = 0, A = 1}"@,
        Color::White => "{R = 1, G = 1, B = 1, A = 1}"@,
        _ => "{R = .5, G = .5, B = .5, A = 1}"@,
    }
}

/// The statements that composite the traced shape in a colour.
pub open spec fn composite_text(color: Color) -> Seq<char> {
    "\n\tic = ImageChannel(out, 8)"@ + "\n\tic:ShapeFill(line)\t"@ + "\n\tcs = ChannelStyle()"@
        + "\n\tcs.Color = Pixel("@ + pixel_text(color) + ")"@
        + "\n\tif self.Status == \"OK\" then"@ + "\n\t    ic:PutToImage(\"CM_Merge\", cs)"@
        + "\n\tend"@ + "\n\t"@
}

/// The statement that starts a new shape.
pub open spec fn shape_text() -> Seq<char> {
    "\n\tline = Shape()"@
}

/// The statement that moves the pen to a point.
pub open spec fn move_to_text(x: Scalar, y: Scalar) -> Seq<char> {
    "\n\tline:MoveTo("@ + decimal_text(x@) + ", "@ + decimal_text(y@) + ")"@
}

/// The statement that draws a line to a point.
pub open spec fn line_to_text(x: Scalar, y: Scalar) -> Seq<char> {
    "\n\tline:LineTo("@ + decimal_text(x@) + ", "@ + decimal_text(y@) + ")"@
}

/// A point as the host writes it.
pub open spec fn point_text(x: Scalar, y: Scalar) -> Seq<char> {
    "{X="@ + decimal_text(x@) + ", Y="@ + decimal_text(y@) + "}"@
}

/// The statement that draws a cubic curve from a start point over two
/// control points to an end point.
pub open spec fn bezier_text(
    sx: Scalar,
    sy: Scalar,
    c1x: Scalar,
    c1y: Scalar,
    c2x: Scalar,
    c2y: Scalar,
    x: Scalar,
    y: Scalar,
) -> Seq<char> {
    "\n\tline = BezierTo2(line, "@ + point_text(sx, sy) + ", "@ + point_text(c1x, c1y) + ", "@
        + point_text(c2x, c2y) + ", "@ + point_text(x, y) + ", 20)"@
}

/// The statement that widens the trace to an outline of a width.
pub open spec fn outline_text(width: Scalar) -> Seq<char> {
    "\n\tline = line:OutlineOfShape("@ + decimal_text(width@) + ",\"OLT_Solid\")"@
}

/// Where the pen stands after a segment, given where it stood before: at
/// the end point of the segment, and where it was after `Z`.
pub open spec fn pen_after(pen: (Scalar, Scalar), segment: PathSegment) -> (Scalar, Scalar) {
    match segment {
        PathSegment::M(x, y) => (x, y),
        PathSegment::L(x, y) => (x, y),
        PathSegment::Q(_, _, x, y) => (x, y),
        PathSegment::C(_, _, _, _, x, y) => (x, y),
        PathSegment::Z => pen,
    }
}

/// Where the pen stands after a path that starts at the origin.
pub open spec fn pen_after_path(path: Seq<PathSegment>) -> (Scalar, Scalar)
    decreases path.len(),
{
    if path.len() == 0 {
        (Scalar::of(0), Scalar::of(0))
    } else {
        pen_after(pen_after_path(path.drop_last()), path.last())
    }
}

/// The statement that traces a segment with the pen at `pen`. A quadratic
/// curve is raised to the cubic curve through the same points; `Z` gives
/// no statement.
pub open spec fn segment_script(pen: (Scalar, Scalar), segment: PathSegment) -> Seq<char> {
    match segment {
        PathSegment::M(x, y) => move_to_text(x, y),
        PathSegment::L(x, y) => line_to_text(x, y),
        PathSegment::Q(cx, cy, x, y) => bezier_text(
            pen.0,
            pen.1,
            pen.0.spec_toward(cx),
            pen.1.spec_toward(cy),
            x.spec_toward(cx),
            y.spec_toward(cy),
            x,
            y,
        ),
        PathSegment::C(c1x, c1y, c2x, c2y, x, y) => bezier_text(
            pen.0,
            pen.1,
            c1x,
            c1y,
            c2x,
            c2y,
            x,
            y,
        ),
        PathSegment::Z => Seq::empty(),
    }
}

/// The statements that trace the segments of a path, the pen starting at
/// the origin.
pub open spec fn segments_script(path: Seq<PathSegment>) -> Seq<char>
    decreases path.len(),
{
    if path.len() == 0 {
        Seq::empty()
    } else {
        segments_script(path.drop_last()) + segment_script(
            pen_after_path(path.drop_last()),
            path.last(),
        )
    }
}

/// The statements that trace a path as a new shape.
pub open spec fn path_script(path: Seq<PathSegment>) -> Seq<char> {
    shape_text() + segments_script(path)
}

/// The statements that trace the four sides of a rectangle as a new shape:
/// closed by the host for a fill, led back to the first corner for a stroke.
pub open spec fn rect_script(x: Scalar, y: Scalar, w: Scalar, h: Scalar, closed: bool) -> Seq<
    char,
> {
    shape_text() + move_to_text(x, y) + line_to_text(x.spec_plus(w), y) + line_to_text(
        x.spec_plus(w),
        y.spec_plus(h),
    ) + line_to_text(x, y.spec_plus(h)) + (if closed {
        "\n\tline:Close()"@
    } else {
        line_to_text(x, y)
    })
}

/// The block that composites the fill of an item; nothing where the item
/// has no fill or is not filled by this emitter.
pub open spec fn fill_script(item: GraphicItemView) -> Seq<char> {
    match item {
        GraphicItemView::Rect(x, y, w, h, _, Fill::Fillstyle(color)) => rect_script(
            x,
            y,
            w,
            h,
            true,
        ) + composite_text(color),
        GraphicItemView::Path(path, _, Fill::Fillstyle(color), _) => path_script(path)
            + composite_text(color),
        _ => Seq::empty(),
    }
}

/// The block that composites the stroke of an item; nothing where the item
/// has no stroke or is not outlined by this emitter.
pub open spec fn stroke_script(item: GraphicItemView) -> Seq<char> {
    match item {
        GraphicItemView::Line(x1, y1, x2, y2, Stroke::Strokestyle(width, color)) => shape_text()
            + move_to_text(x1, y1) + line_to_text(x2, y2) + outline_text(width) + composite_text(
            color,
        ),
        GraphicItemView::Rect(x, y, w, h, Stroke::Strokestyle(width, color), _) => rect_script(
            x,
            y,
            w,
            h,
            false,
        ) + outline_text(width) + composite_text(color),
        GraphicItemView::Path(path, Stroke::Strokestyle(width, color), _, _) => path_script(path)
            + outline_text(width) + composite_text(color),
        _ => Seq::empty(),
    }
}

/// The statements for one item: the block of its fill, then the block of
/// its stroke. An ellipse gives none.
pub open spec fn item_script(item: GraphicItemView) -> Seq<char> {
    fill_script(item) + stroke_script(item)
}

/// An item without fill gets no block for a fill: its statements are those
/// of its stroke alone, and none where it has no stroke either.
pub proof fn lemma_no_fill_no_block(item: GraphicItemView)
    requires
        match item {
            GraphicItemView::Line(..) => true,
            GraphicItemView::Rect(_, _, _, _, _, fill) => fill is NoFill,
            GraphicItemView::Ellipse(_, _, _, _, _, fill) => fill is NoFill,
            GraphicItemView::Path(_, _, fill, _) => fill is NoFill,
        },
    ensures
        fill_script(item) == Seq::<char>::empty(),
        item_script(item) == stroke_script(item),
        match item {
            GraphicItemView::Line(_, _, _, _, stroke) => stroke is NoStroke,
            GraphicItemView::Rect(_, _, _, _, stroke, _) => stroke is NoStroke,
            GraphicItemView::Ellipse(..) => true,
            GraphicItemView::Path(_, stroke, _, _) => stroke is NoStroke,
        } ==> item_script(item) == Seq::<char>::empty(),
{
    assert(item_script(item) =~= stroke_script(item));
}

/// The statements for the items of a drawing, in the order of the items.
pub open spec fn items_script(items: Seq<GraphicItemView>) -> Seq<char>
    decreases items.len(),
{
    if items.len() == 0 {
        Seq::empty()
    } else {
        items_script(items.drop_last()) + item_script(items.last())
    }
}

/// The generated part of a script: the marker comment, then the statements
/// for the items.
pub open spec fn body_script(items: Seq<GraphicItemView>) -> Seq<char> {
    "\n\n-- dynamically added items:\n\n"@ + items_script(items)
}

/// The whole script: prologue, generated part and epilogue, an empty line
/// between them.
pub open spec fn script(prologue: Seq<char>, items: Seq<GraphicItemView>, epilogue: Seq<char>) -> Seq<
    char,
> {
    prologue + "\n\n"@ + body_script(items) + "\n\n"@ + epilogue
}

/// Appends the statements that composite the traced shape in a colour.
fn write_composite(out: &mut String, color: Color)
    ensures
        final(out)@ == old(out)@ + composite_text(color),
{
    out.append("\n\tic = ImageChannel(out, 8)");
    out.append("\n\tic:ShapeFill(line)\t");
    out.append("\n\tcs = ChannelStyle()");
    out.append("\n\tcs.Color = Pixel(");
    match color {
        Color::Blue => out.append("{R = 0, G = 0, B = 1, A = 1}"),
        Color::Red => out.append("{R = 1, G = 0, B = 0, A = 1}"),
        Color::Lime => out.append("{R = 0, G = 1, B = 0, A = 1}"),
        Color::Purple => out.append("{R = .5, G = 0, B = .5, A = 1}"),
        Color::Black => out.append("{R = 0, G = 0, B = 0, A = 1}"),
        Color::White => out.append("{R = 1, G = 1, B = 1, A = 1}"),
        _ => out.append("{R = .5, G = .5, B = .5, A = 1}"),
    }
    out.append(")");
    out.append("\n\tif self.Status == \"OK\" then");
    out.append("\n\t    ic:PutToImage(\"CM_Merge\", cs)");
    out.append("\n\tend");
    out.append("\n\t");
    proof {
        assert(out@ =~= old(out)@ + composite_text(color));
    }
}

/// Appends the statement that moves the pen to a point.
fn write_move_to(out: &mut String, x: Scalar, y: Scalar)
    ensures
        final(out)@ == old(out)@ + move_to_text(x, y),
{
    out.append("\n\tline:MoveTo(");
    out.append(x.to_string().as_str());
    out.append(", ");
    out.append(y.to_string().as_str());
    out.append(")");
    proof {
        assert(out@ =~= old(out)@ + move_to_text(x, y));
    }
}

/// Appends the statement that draws a line to a point.
fn write_line_to(out: &mut String, x: Scalar, y: Scalar)
    ensures
        final(out)@ == old(out)@ + line_to_text(x, y),
{
    out.append("\n\tline:LineTo(");
    out.append(x.to_string().as_str());
    out.append(", ");
    out.append(y.to_string().as_str());
    out.append(")");
    proof {
        assert(out@ =~= old(out)@ + line_to_text(x, y));
    }
}

/// Appends a point as the host writes it.
fn write_point(out: &mut String, x: Scalar, y: Scalar)
    ensures
        final(out)@ == old(out)@ + point_text(x, y),
{
    out.append("{X=");
    out.append(x.to_string().as_str());
    out.append(", Y=");
    out.append(y.to_string().as_str());
    out.append("}");
    proof {
        assert(out@ =~= old(out)@ + point_text(x, y));
    }
}

/// Appends the statement that draws a cubic curve.
fn write_bezier(
    out: &mut String,
    sx: Scalar,
    sy: Scalar,
    c1x: Scalar,
    c1y: Scalar,
    c2x: Scalar,
    c2y: Scalar,
    x: Scalar,
    y: Scalar,
)
    ensures
        final(out)@ == old(out)@ + bezier_text(sx, sy, c1x, c1y, c2x, c2y, x, y),
{
    out.append("\n\tline = BezierTo2(line, ");
    write_point(out, sx, sy);
    out.append(", ");
    write_point(out, c1x, c1y);
    out.append(", ");
    write_point(out, c2x, c2y);
    out.append(", ");
    write_point(out, x, y);
    out.append(", 20)");
    proof {
        assert(out@ =~= old(out)@ + bezier_text(sx, sy, c1x, c1y, c2x, c2y, x, y));
    }
}

/// Appends the statement that widens the trace to an outline.
fn write_outline(out: &mut String, width: Scalar)
    ensures
        final(out)@ == old(out)@ + outline_text(width),
{
    out.append("\n\tline = line:OutlineOfShape(");
    out.append(width.to_string().as_str());
    out.append(",\"OLT_Solid\")");
    proof {
        assert(out@ =~= old(out)@ + outline_text(width));
    }
}

/// Appends the statement that traces a segment, and moves the pen.
fn write_segment(out: &mut String, pen: (Scalar, Scalar), segment: &PathSegment) -> (r: (
    Scalar,
    Scalar,
))
    ensures
        final(out)@ == old(out)@ + segment_script(pen, *segment),
        r == pen_after(pen, *segment),
{
    match *segment {
        PathSegment::M(x, y) => {
            write_move_to(out, x, y);
            (x, y)
        },
        PathSegment::L(x, y) => {
            write_line_to(out, x, y);
            (x, y)
        },
        PathSegment::Q(cx, cy, x, y) => {
            let c = quadratic_to_cubic(pen.0, pen.1, cx, cy, x, y);
            write_bezier(out, pen.0, pen.1, c.0, c.1, c.2, c.3, c.4, c.5);
            (x, y)
        },
        PathSegment::C(c1x, c1y, c2x, c2y, x, y) => {
            write_bezier(out, pen.0, pen.1, c1x, c1y, c2x, c2y, x, y);
            (x, y)
        },
        PathSegment::Z => {
            proof {
                assert(out@ =~= old(out)@ + segment_script(pen, *segment));
            }
            pen
        },
    }
}

/// Appends the statements that trace a path as a new shape.
fn write_path(out: &mut String, path: &PathSegments)
    ensures
        final(out)@ == old(out)@ + path_script(path@),
{
    out.append("\n\tline = Shape()");
    let mut pen = (Scalar::zero(), Scalar::zero());
    let mut i: usize = 0;
    proof {
        assert(out@ =~= old(out)@ + shape_text() + segments_script(path@.take(0)));
    }
    while i < path.0.len()
        invariant
            i <= path.0.len(),
            pen == pen_after_path(path@.take(i as int)),
            out@ == old(out)@ + shape_text() + segments_script(path@.take(i as int)),
        decreases path.0.len() - i,
    {
        let ghost before = out@;
        pen = write_segment(out, pen, &path.0[i]);
        proof {
            assert(path@.take(i + 1).drop_last() =~= path@.take(i as int));
            assert(out@ =~= old(out)@ + shape_text() + segments_script(path@.take(i + 1)));
        }
        i += 1;
    }
    proof {
        assert(path@.take(i as int) =~= path@);
        assert(out@ =~= old(out)@ + path_script(path@));
    }
}

/// Appends the statements that trace the sides of a rectangle.
fn write_rect(out: &mut String, x: Scalar, y: Scalar, w: Scalar, h: Scalar, closed: bool)
    ensures
        final(out)@ == old(out)@ + rect_script(x, y, w, h, closed),
{
    out.append("\n\tline = Shape()");
    write_move_to(out, x, y);
    write_line_to(out, x.plus(w), y);
    write_line_to(out, x.plus(w), y.plus(h));
    write_line_to(out, x, y.plus(h));
    if closed {
        out.append("\n\tline:Close()");
    } else {
        write_line_to(out, x, y);
    }
    proof {
        assert(out@ =~= old(out)@ + rect_script(x, y, w, h, closed));
    }
}

/// The script emitter, with the prologue and the epilogue that it puts
/// round the generated statements.
#[derive(Debug)]
pub struct FuseBuilder {
    pub prologue: String,
    pub epilogue: String,
}

impl FuseBuilder {
    /// An emitter with an empty prologue and epilogue.
    pub fn new() -> (r: FuseBuilder)
        ensures
            r.prologue@ == Seq::<char>::empty(),
            r.epilogue@ == Seq::<char>::empty(),
    {
        FuseBuilder { prologue: String::new(), epilogue: String::new() }
    }

    /// An emitter with the given prologue and epilogue, which it passes
    /// through as they are.
    pub fn with_templates(prologue: String, epilogue: String) -> (r: FuseBuilder)
        ensures
            r.prologue@ == prologue@,
            r.epilogue@ == epilogue@,
    {
        FuseBuilder { prologue, epilogue }
    }

    /// Appends the statements for one item to `out`.
    pub fn write_item(out: &mut String, item: &GraphicItem)
        ensures
            final(out)@ == old(out)@ + item_script(item@),
    {
        match item {
            GraphicItem::Line(x1, y1, x2, y2, stroke) => {
                if let Stroke::Strokestyle(width, color) = stroke {
                    out.append("\n\tline = Shape()");
                    write_move_to(out, *x1, *y1);
                    write_line_to(out, *x2, *y2);
                    write_outline(out, *width);
                    write_composite(out, *color);
                }
            },
            GraphicItem::Rect(x, y, w, h, stroke, fill) => {
                if let Fill::Fillstyle(color) = fill {
                    write_rect(out, *x, *y, *w, *h, true);
                    write_composite(out, *color);
                }
                if let Stroke::Strokestyle(width, color) = stroke {
                    write_rect(out, *x, *y, *w, *h, false);
                    write_outline(out, *width);
                    write_composite(out, *color);
                }
            },
            GraphicItem::Path(path, stroke, fill, _) => {
                if let Fill::Fillstyle(color) = fill {
                    write_path(out, path);
                    write_composite(out, *color);
                }
                if let Stroke::Strokestyle(width, color) = stroke {
                    write_path(out, path);
                    write_outline(out, *width);
                    write_composite(out, *color);
                }
            },
            GraphicItem::Ellipse(..) => {},
        }
        proof {
            assert(out@ =~= old(out)@ + item_script(item@));
        }
    }

    /// The generated part of the script for a drawing at the origin.
    pub fn body(items: &GraphicItems) -> (r: String)
        ensures
            r@ == body_script(items@),
    {
        let mut out = String::from_str("\n\n-- dynamically added items:\n\n");
        let mut i: usize = 0;
        proof {
            assert(out@ =~= "\n\n-- dynamically added items:\n\n"@ + items_script(items@.take(0)));
        }
        while i < items.0.len()
            invariant
                i <= items.0.len(),
                items@.len() == items.0@.len(),
                out@ == "\n\n-- dynamically added items:\n\n"@ + items_script(
                    items@.take(i as int),
                ),
            decreases items.0.len() - i,
        {
            FuseBuilder::write_item(&mut out, &items.0[i]);
            proof {
                assert(items@.take(i + 1).drop_last() =~= items@.take(i as int));
                assert(items@.take(i + 1).last() == items.0@[i as int]@);
                assert(out@ =~= "\n\n-- dynamically added items:\n\n"@ + items_script(
                    items@.take(i + 1),
                ));
            }
            i += 1;
        }
        proof {
            assert(items@.take(i as int) =~= items@);
        }
        out
    }
}

impl GraphicBuilder for FuseBuilder {
    /// The script of a drawing.
    open spec fn emission(
        &self,
        items: Seq<GraphicItemView>,
        bbox: Rectangle,
        options: Option<BuilderOptions>,
    ) -> Seq<char> {
        script(self.prologue@, items, self.epilogue@)
    }

    /// Emits a drawing as a script. This never fails, and the emitter keeps
    /// its prologue and epilogue.
    fn build(&mut self, items: GraphicItems, options: Option<BuilderOptions>) -> (r: Result<
        String,
        GraphicsError,
    >)
        ensures
            r is Ok,
            final(self).prologue@ == old(self).prologue@,
            final(self).epilogue@ == old(self).epilogue@,
    {
        let (items, _) = normalize(items);
        let body = FuseBuilder::body(&items);
        let mut out = self.prologue.clone();
        out.append("\n\n");
        out.append(body.as_str());
        out.append("\n\n");
        out.append(self.epilogue.as_str());
        proof {
            assert(out@ =~= script(self.prologue@, items@, self.epilogue@));
        }
        Ok(out)
    }
}

} // verus!
