//! Axis-aligned rectangles.

use crate::scalar::Scalar;
use vstd::prelude::*;
use vstd::std_specs::iter::IteratorSpec;

verus! {

/// Four numbers that describe an axis-aligned rectangle.
///
/// A bounding box holds them as `(x_min, y_min, x_max, y_max)`; the overlap
/// measure of this module reads them as `(x, y, width, height)`.
#[derive(Clone, Copy, Debug, PartialEq, Eq, Structural)]
pub struct Rectangle(pub Scalar, pub Scalar, pub Scalar, pub Scalar);

impl Rectangle {
    /// How far `self` reaches into `right` along the x axis, both read as
    /// `(x, y, width, height)`: zero where the two do not share a stretch of
    /// the y axis or where `right` starts at or behind the far side of
    /// `self`, and else the left edge of `self` plus its fourth number minus
    /// the left edge of `right`.
    pub open spec fn spec_overlap_x(self, right: Rectangle) -> Scalar {
        if self.1.spec_plus(self.3)@ <= right.1@ {
            Scalar::of(0)
        } else if self.1@ >= right.1.spec_plus(right.3)@ {
            Scalar::of(0)
        } else if right.0@ >= self.0.spec_plus(self.2)@ {
            Scalar::of(0)
        } else {
            self.0.spec_plus(self.3).spec_minus(right.0)
        }
    }

    /// The rectangle shifted by `(x, y)`, its size unchanged.
    pub open spec fn spec_move_xy(self, x: Scalar, y: Scalar) -> Rectangle {
        Rectangle(self.0.spec_plus(x), self.1.spec_plus(y), self.2, self.3)
    }

    /// Measures how far `self` reaches into `right` along the x axis.
    pub fn overlap_x(&self, right: &Rectangle) -> (r: Scalar)
        ensures
            r == self.spec_overlap_x(*right),
    {
        if self.1.plus(self.3).micros <= right.1.micros {
            Scalar::zero()
        } else if self.1.micros >= right.1.plus(right.3).micros {
            Scalar::zero()
        } else if right.0.micros >= self.0.plus(self.2).micros {
            Scalar::zero()
        } else {
            self.0.plus(self.3).minus(right.0)
        }
    }
}

/// The largest overlap of `left` with any of the first `n` rectangles of
/// `rights`, or `floor` if that is larger.
pub open spec fn overlap_row(left: Rectangle, rights: Seq<Rectangle>, n: int, floor: Scalar) -> Scalar
    decreases n,
{
    if n <= 0 {
        floor
    } else {
        overlap_row(left, rights, n - 1, floor).spec_max(left.spec_overlap_x(rights[n - 1]))
    }
}

/// The largest overlap of any of the first `n` rectangles of `lefts` with
/// any rectangle of `rights`, or the smallest scalar if there is no pair.
pub open spec fn overlap_all(lefts: Seq<Rectangle>, rights: Seq<Rectangle>, n: int) -> Scalar
    decreases n,
{
    if n <= 0 {
        Scalar::of(i64::MIN as int)
    } else {
        overlap_row(lefts[n - 1], rights, rights.len() as int, overlap_all(lefts, rights, n - 1))
    }
}

/// An ordered list of rectangles.
pub struct Rectangles {
    items: Vec<Rectangle>,
}

impl View for Rectangles {
    type V = Seq<Rectangle>;

    closed spec fn view(&self) -> Seq<Rectangle> {
        self.items@
    }
}

impl Rectangles {
    /// The list that holds `items`.
    pub fn new(items: Vec<Rectangle>) -> (r: Rectangles)
        ensures
            r@ == items@,
    {
        Rectangles { items }
    }

    /// An iterator over the rectangles, in their order.
    pub fn iter(&self) -> (r: std::slice::Iter<'_, Rectangle>)
        ensures
            r.remaining().len() == self@.len(),
            forall|i: int| 0 <= i < self@.len() ==> *(#[trigger] r.remaining()[i]) == self@[i],
    {
        broadcast use vstd::std_specs::slice::axiom_spec_slice_iter;

        self.items.as_slice().iter()
    }

    /// How many rectangles the list holds.
    pub fn len(&self) -> (n: usize)
        ensures
            n == self@.len(),
    {
        self.items.len()
    }

    /// The rectangle at `index`, if there is one.
    pub fn get(&self, index: usize) -> (r: Option<Rectangle>)
        ensures
            r == if index < self@.len() {
                Some(self@[index as int])
            } else {
                None
            },
    {
        if index < self.items.len() {
            Some(self.items[index])
        } else {
            None
        }
    }

    /// The largest overlap along the x axis of a rectangle of `self` with a
    /// rectangle of `right`; the smallest scalar if either list is empty.
    pub fn overlap_x(&self, right: &Rectangles) -> (r: Scalar)
        ensures
            r == overlap_all(self@, right@, self@.len() as int),
    {
        let mut max_overlap = Scalar::smallest();
        let mut i: usize = 0;
        while i < self.items.len()
            invariant
                i <= self.items.len(),
                max_overlap == overlap_all(self@, right@, i as int),
            decreases self.items.len() - i,
        {
            let mut j: usize = 0;
            let ghost floor = max_overlap;
            while j < right.items.len()
                invariant
                    i < self.items.len(),
                    j <= right.items.len(),
                    max_overlap == overlap_row(self@[i as int], right@, j as int, floor),
                decreases right.items.len() - j,
            {
                max_overlap = max_overlap.max(self.items[i].overlap_x(&right.items[j]));
                j += 1;
            }
            i += 1;
        }
        max_overlap
    }

    /// The list with every rectangle shifted by `(x, y)`.
    pub fn move_xy(&self, x: Scalar, y: Scalar) -> (r: Rectangles)
        ensures
            r@ == Seq::new(self@.len(), |i: int| self@[i].spec_move_xy(x, y)),
    {
        let mut new_items: Vec<Rectangle> = Vec::new();
        let mut i: usize = 0;
        while i < self.items.len()
            invariant
                i <= self.items.len(),
                new_items@ == Seq::new(i as nat, |k: int| self@[k].spec_move_xy(x, y)),
            decreases self.items.len() - i,
        {
            let r = self.items[i];
            new_items.push(Rectangle(r.0.plus(x), r.1.plus(y), r.2, r.3));
            i += 1;
            proof {
                assert(new_items@ =~= Seq::new(i as nat, |k: int| self@[k].spec_move_xy(x, y)));
            }
        }
        Rectangles::new(new_items)
    }
}

} // verus!
