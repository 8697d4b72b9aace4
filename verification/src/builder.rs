//! The emission protocol: one capability, building text from a drawing,
//! which every emitter implements after bringing the drawing to the origin.

use crate::error::GraphicsError;
use crate::item::{
    bounds, has_points, inside, lemma_bounds_hold_every_item, lemma_bounds_of_moved,
    moderate_items, moved_items, no_bounds, with_item, GraphicItemView, GraphicItems,
};
use crate::rect::Rectangle;
use crate::scalar::Scalar;
use vstd::prelude::*;

pub mod fuse;
pub mod svg;

verus! {

/// The unit in which an emitter states the size of its output.
#[derive(Clone, Copy, Debug, PartialEq, Eq, Structural)]
pub enum SizeUnit {
    Pixel,
    Rem,
}

/// How an emitter states the size of its output: the unit, and a factor
/// applied to the stated width and height only, never to the geometry.
#[derive(Clone, Copy, Debug, PartialEq, Eq, Structural)]
pub struct BuilderOptions {
    pub size_unit: SizeUnit,
    pub size_scaling: Scalar,
}

/// A drawing brought to the origin: shifted so that the top-left corner of
/// its bounding box lies at `(0, 0)`, and left as it is if it lies there
/// already.
pub open spec fn normalized(items: Seq<GraphicItemView>) -> Seq<GraphicItemView> {
    let b = bounds(items);
    if b.0@ != 0 || b.1@ != 0 {
        moved_items(items, b.0.spec_negated(), b.1.spec_negated())
    } else {
        items
    }
}

/// The width of a bounding box.
pub open spec fn extent_x(b: Rectangle) -> Scalar {
    b.2.spec_plus(b.0.spec_negated())
}

/// The height of a bounding box.
pub open spec fn extent_y(b: Rectangle) -> Scalar {
    b.3.spec_plus(b.1.spec_negated())
}

/// A drawing brought to the origin has its bounding box there: computed
/// again, the box starts at `(0, 0)` and spans the extent of the first box.
/// This holds of every moderate drawing that has points.
pub proof fn lemma_normalized_at_origin(items: Seq<GraphicItemView>)
    requires
        moderate_items(items),
        has_points(items),
    ensures
        bounds(normalized(items)).0@ == 0,
        bounds(normalized(items)).1@ == 0,
        bounds(normalized(items)).2 == extent_x(bounds(items)),
        bounds(normalized(items)).3 == extent_y(bounds(items)),
{
    let b = bounds(items);
    lemma_bounds_of_moved(items, Scalar::of(0), Scalar::of(0));
    lemma_bounds_of_moved(items, b.0.spec_negated(), b.1.spec_negated());
}

/// The frame of a drawing: the box from the origin over the extent of the
/// bounding box `b`.
pub open spec fn frame(b: Rectangle) -> Rectangle {
    Rectangle(Scalar::of(0), Scalar::of(0), extent_x(b), extent_y(b))
}

/// Every item of a drawing brought to the origin lies inside the frame of
/// the drawing, the reach of its stroke included: no part of it has a
/// negative coordinate, and none lies beyond the stated extent. This holds
/// of every moderate drawing that has points.
pub proof fn lemma_normalized_inside_frame(items: Seq<GraphicItemView>, i: int)
    requires
        moderate_items(items),
        has_points(items),
        0 <= i < items.len(),
    ensures
        normalized(items).len() == items.len(),
        inside(with_item(no_bounds(), normalized(items)[i]), frame(bounds(items))),
{
    lemma_normalized_at_origin(items);
    lemma_bounds_hold_every_item(normalized(items), i);
}

/// Computes the bounding box of a drawing and brings the drawing to the
/// origin. Returns the drawing at the origin and the box of the drawing as
/// it was given.
pub fn normalize(items: GraphicItems) -> (r: (GraphicItems, Rectangle))
    ensures
        r.0@ == normalized(items@),
        r.1 == bounds(items@),
{
    let b = items.bbox();
    if b.0.micros != 0 || b.1.micros != 0 {
        (items.move_items(b.0.negated(), b.1.negated()), b)
    } else {
        (items, b)
    }
}

/// An emitter: turns a drawing into text.
pub trait GraphicBuilder {
    /// The text that this emitter produces for a drawing at the origin
    /// whose bounding box, before it was brought there, was `bbox`.
    spec fn emission(
        &self,
        items: Seq<GraphicItemView>,
        bbox: Rectangle,
        options: Option<BuilderOptions>,
    ) -> Seq<char>;

    /// Emits a drawing. Whatever the emitter, the text is that of the
    /// drawing brought to the origin.
    fn build(&mut self, items: GraphicItems, options: Option<BuilderOptions>) -> (r: Result<
        String,
        GraphicsError,
    >)
        ensures
            r matches Ok(text) ==> text@ == old(self).emission(
                normalized(items@),
                bounds(items@),
                options,
            ),
    ;
}

/// An emitter that emits its own name, whatever the drawing.
pub struct TestBuilder;

impl TestBuilder {
    pub fn new() -> (r: TestBuilder) {
        TestBuilder
    }
}

impl GraphicBuilder for TestBuilder {
    open spec fn emission(
        &self,
        items: Seq<GraphicItemView>,
        bbox: Rectangle,
        options: Option<BuilderOptions>,
    ) -> Seq<char> {
        "TestBuilder"@
    }

    fn build(&mut self, items: GraphicItems, options: Option<BuilderOptions>) -> (r: Result<
        String,
        GraphicsError,
    >)
        ensures
            r is Ok,
    {
        Ok(String::from_str("TestBuilder"))
    }
}

} // verus!
