//! Path algebra: the segments of a drawing path, shifting, scaling,
//! serialisation to the SVG path mini-language, degree elevation of
//! quadratic curves, and construction from tagged tuples.

use crate::error::GraphicsError;
use crate::scalar::{decimal_text, lemma_times_one, Scalar};
use vstd::prelude::*;

verus! {

/// One instruction of a path.
#[derive(Clone, Copy, Debug, PartialEq, Eq, Structural)]
pub enum PathSegment {
    /// Move to `(x, y)`.
    M(Scalar, Scalar),
    /// Line to `(x, y)`.
    L(Scalar, Scalar),
    /// Quadratic curve with control point `(cx, cy)` to `(x, y)`.
    Q(Scalar, Scalar, Scalar, Scalar),
    /// Cubic curve with control points `(c1x, c1y)`, `(c2x, c2y)` to `(x, y)`.
    C(Scalar, Scalar, Scalar, Scalar, Scalar, Scalar),
    /// Close the path.
    Z,
}

/// An ordered sequence of path segments.
#[derive(Debug, PartialEq, Eq)]
pub struct PathSegments(pub Vec<PathSegment>);

impl Clone for PathSegments {
    /// A path with the same segments.
    fn clone(&self) -> (r: PathSegments)
        ensures
            r@ == self@,
    {
        let mut segments: Vec<PathSegment> = Vec::new();
        let mut i: usize = 0;
        while i < self.0.len()
            invariant
                i <= self.0.len(),
                segments@ == self@.take(i as int),
            decreases self.0.len() - i,
        {
            segments.push(self.0[i]);
            i += 1;
            proof {
                assert(segments@ =~= self@.take(i as int));
            }
        }
        proof {
            assert(self@.take(i as int) =~= self@);
        }
        PathSegments(segments)
    }
}

impl View for PathSegments {
    type V = Seq<PathSegment>;

    open spec fn view(&self) -> Seq<PathSegment> {
        self.0@
    }
}

/// How one operand of a command is written: its decimal text and one space.
pub open spec fn operand_text(v: Scalar) -> Seq<char> {
    decimal_text(v@) + seq![' ']
}

impl PathSegment {
    /// The segment with `(dx, dy)` added to every coordinate pair.
    pub open spec fn spec_moved(self, dx: Scalar, dy: Scalar) -> PathSegment {
        match self {
            PathSegment::M(x, y) => PathSegment::M(x.spec_plus(dx), y.spec_plus(dy)),
            PathSegment::L(x, y) => PathSegment::L(x.spec_plus(dx), y.spec_plus(dy)),
            PathSegment::Q(cx, cy, x, y) => PathSegment::Q(
                cx.spec_plus(dx),
                cy.spec_plus(dy),
                x.spec_plus(dx),
                y.spec_plus(dy),
            ),
            PathSegment::C(c1x, c1y, c2x, c2y, x, y) => PathSegment::C(
                c1x.spec_plus(dx),
                c1y.spec_plus(dy),
                c2x.spec_plus(dx),
                c2y.spec_plus(dy),
                x.spec_plus(dx),
                y.spec_plus(dy),
            ),
            PathSegment::Z => PathSegment::Z,
        }
    }

    /// The segment with every coordinate multiplied by the scale of its axis.
    pub open spec fn spec_scaled(self, sx: Scalar, sy: Scalar) -> PathSegment {
        match self {
            PathSegment::M(x, y) => PathSegment::M(x.spec_times(sx), y.spec_times(sy)),
            PathSegment::L(x, y) => PathSegment::L(x.spec_times(sx), y.spec_times(sy)),
            PathSegment::Q(cx, cy, x, y) => PathSegment::Q(
                cx.spec_times(sx),
                cy.spec_times(sy),
                x.spec_times(sx),
                y.spec_times(sy),
            ),
            PathSegment::C(c1x, c1y, c2x, c2y, x, y) => PathSegment::C(
                c1x.spec_times(sx),
                c1y.spec_times(sy),
                c2x.spec_times(sx),
                c2y.spec_times(sy),
                x.spec_times(sx),
                y.spec_times(sy),
            ),
            PathSegment::Z => PathSegment::Z,
        }
    }

    /// The segment in the path mini-language: its letter, then each operand,
    /// every token followed by one space.
    pub open spec fn text(self) -> Seq<char> {
        match self {
            PathSegment::M(x, y) => seq!['M', ' '] + operand_text(x) + operand_text(y),
            PathSegment::L(x, y) => seq!['L', ' '] + operand_text(x) + operand_text(y),
            PathSegment::Q(cx, cy, x, y) => seq!['Q', ' '] + operand_text(cx) + operand_text(cy)
                + operand_text(x) + operand_text(y),
            PathSegment::C(c1x, c1y, c2x, c2y, x, y) => seq!['C', ' '] + operand_text(c1x)
                + operand_text(c1y) + operand_text(c2x) + operand_text(c2y) + operand_text(x)
                + operand_text(y),
            PathSegment::Z => seq!['Z', ' '],
        }
    }

    /// Whether every coordinate of the segment is moderate.
    pub open spec fn moderate(self) -> bool {
        match self {
            PathSegment::M(x, y) => x.moderate() && y.moderate(),
            PathSegment::L(x, y) => x.moderate() && y.moderate(),
            PathSegment::Q(cx, cy, x, y) => cx.moderate() && cy.moderate() && x.moderate()
                && y.moderate(),
            PathSegment::C(c1x, c1y, c2x, c2y, x, y) => c1x.moderate() && c1y.moderate()
                && c2x.moderate() && c2y.moderate() && x.moderate() && y.moderate(),
            PathSegment::Z => true,
        }
    }

    /// Shifts the segment by `(dx, dy)`; `Z` stays as it is.
    pub fn moved(&self, dx: Scalar, dy: Scalar) -> (r: PathSegment)
        ensures
            r == self.spec_moved(dx, dy),
    {
        match *self {
            PathSegment::M(x, y) => PathSegment::M(x.plus(dx), y.plus(dy)),
            PathSegment::L(x, y) => PathSegment::L(x.plus(dx), y.plus(dy)),
            PathSegment::Q(cx, cy, x, y) => PathSegment::Q(
                cx.plus(dx),
                cy.plus(dy),
                x.plus(dx),
                y.plus(dy),
            ),
            PathSegment::C(c1x, c1y, c2x, c2y, x, y) => PathSegment::C(
                c1x.plus(dx),
                c1y.plus(dy),
                c2x.plus(dx),
                c2y.plus(dy),
                x.plus(dx),
                y.plus(dy),
            ),
            PathSegment::Z => PathSegment::Z,
        }
    }

    /// Scales the segment by `(sx, sy)`; `Z` stays as it is.
    pub fn scaled(&self, sx: Scalar, sy: Scalar) -> (r: PathSegment)
        ensures
            r == self.spec_scaled(sx, sy),
    {
        match *self {
            PathSegment::M(x, y) => PathSegment::M(x.times(sx), y.times(sy)),
            PathSegment::L(x, y) => PathSegment::L(x.times(sx), y.times(sy)),
            PathSegment::Q(cx, cy, x, y) => PathSegment::Q(
                cx.times(sx),
                cy.times(sy),
                x.times(sx),
                y.times(sy),
            ),
            PathSegment::C(c1x, c1y, c2x, c2y, x, y) => PathSegment::C(
                c1x.times(sx),
                c1y.times(sy),
                c2x.times(sx),
                c2y.times(sy),
                x.times(sx),
                y.times(sy),
            ),
            PathSegment::Z => PathSegment::Z,
        }
    }

    /// Appends the segment in the path mini-language to `out`.
    pub fn write(&self, out: &mut String)
        ensures
            final(out)@ == old(out)@ + self.text(),
    {
        let ghost before = out@;
        match *self {
            PathSegment::M(x, y) => {
                out.push('M');
                out.push(' ');
                write_operand(out, x);
                write_operand(out, y);
            },
            PathSegment::L(x, y) => {
                out.push('L');
                out.push(' ');
                write_operand(out, x);
                write_operand(out, y);
            },
            PathSegment::Q(cx, cy, x, y) => {
                out.push('Q');
                out.push(' ');
                write_operand(out, cx);
                write_operand(out, cy);
                write_operand(out, x);
                write_operand(out, y);
            },
            PathSegment::C(c1x, c1y, c2x, c2y, x, y) => {
                out.push('C');
                out.push(' ');
                write_operand(out, c1x);
                write_operand(out, c1y);
                write_operand(out, c2x);
                write_operand(out, c2y);
                write_operand(out, x);
                write_operand(out, y);
            },
            PathSegment::Z => {
                out.push('Z');
                out.push(' ');
            },
        }
        proof {
            assert(out@ =~= before + self.text());
        }
    }
}

/// Appends the decimal text of `value` and one space to `out`.
fn write_operand(out: &mut String, value: Scalar)
    ensures
        final(out)@ == old(out)@ + operand_text(value),
{
    let text = value.to_string();
    out.append(text.as_str());
    out.push(' ');
    proof {
        assert(out@ =~= old(out)@ + operand_text(value));
    }
}

/// Every segment of `path` shifted by `(dx, dy)`, in the same order.
pub open spec fn moved_path(path: Seq<PathSegment>, dx: Scalar, dy: Scalar) -> Seq<PathSegment> {
    Seq::new(path.len(), |i: int| path[i].spec_moved(dx, dy))
}

/// Every segment of `path` scaled by `(sx, sy)`, in the same order.
pub open spec fn scaled_path(path: Seq<PathSegment>, sx: Scalar, sy: Scalar) -> Seq<PathSegment> {
    Seq::new(path.len(), |i: int| path[i].spec_scaled(sx, sy))
}

/// Whether every coordinate of the path is moderate.
pub open spec fn moderate_path(path: Seq<PathSegment>) -> bool {
    forall|i: int| 0 <= i < path.len() ==> (#[trigger] path[i]).moderate()
}

/// Moving a path twice is moving it once by the sum of the shifts, as long
/// as its coordinates and the shifts are moderate.
pub proof fn lemma_move_path_twice(
    path: Seq<PathSegment>,
    ax: Scalar,
    ay: Scalar,
    bx: Scalar,
    by: Scalar,
)
    requires
        moderate_path(path),
        ax.moderate(),
        ay.moderate(),
        bx.moderate(),
        by.moderate(),
    ensures
        moved_path(moved_path(path, ax, ay), bx, by) == moved_path(
            path,
            ax.spec_plus(bx),
            ay.spec_plus(by),
        ),
{
    assert forall|i: int| 0 <= i < path.len() implies path[i].spec_moved(ax, ay).spec_moved(
        bx,
        by,
    ) == path[i].spec_moved(ax.spec_plus(bx), ay.spec_plus(by)) by {
        assert(path[i].moderate());
    }
    assert(moved_path(moved_path(path, ax, ay), bx, by) =~= moved_path(
        path,
        ax.spec_plus(bx),
        ay.spec_plus(by),
    ));
}

/// Scaling a path by one along both axes changes nothing.
pub proof fn lemma_scale_path_by_one(path: Seq<PathSegment>)
    ensures
        scaled_path(path, Scalar::of(1_000_000), Scalar::of(1_000_000)) == path,
{
    let one = Scalar::of(1_000_000);
    assert forall|i: int| 0 <= i < path.len() implies path[i].spec_scaled(one, one)
        == path[i] by {
        match path[i] {
            PathSegment::M(x, y) => {
                lemma_times_one(x);
                lemma_times_one(y);
            },
            PathSegment::L(x, y) => {
                lemma_times_one(x);
                lemma_times_one(y);
            },
            PathSegment::Q(cx, cy, x, y) => {
                lemma_times_one(cx);
                lemma_times_one(cy);
                lemma_times_one(x);
                lemma_times_one(y);
            },
            PathSegment::C(c1x, c1y, c2x, c2y, x, y) => {
                lemma_times_one(c1x);
                lemma_times_one(c1y);
                lemma_times_one(c2x);
                lemma_times_one(c2y);
                lemma_times_one(x);
                lemma_times_one(y);
            },
            PathSegment::Z => {},
        }
    }
    assert(scaled_path(path, one, one) =~= path);
}

/// The path in the path mini-language: the texts of its segments, one after
/// the other.
pub open spec fn path_text(path: Seq<PathSegment>) -> Seq<char>
    decreases path.len(),
{
    if path.len() == 0 {
        Seq::empty()
    } else {
        path_text(path.drop_last()) + path.last().text()
    }
}

impl PathSegments {
    /// Builds a path from the tagged tuples of the interchange format, in
    /// their order. The first tuple with an unknown tag or with the wrong
    /// count of numbers is reported by its position, and no path is built.
    pub fn from_tagged(tuples: &Vec<(String, Vec<Scalar>)>) -> (r: Result<
        PathSegments,
        GraphicsError,
    >)
        ensures
            match r {
                Ok(path) => {
                    &&& path@.len() == tuples@.len()
                    &&& forall|i: int|
                        0 <= i < tuples@.len() ==> segment_of_tuple(
                            (#[trigger] tuples@[i]).0@,
                            tuples@[i].1@,
                        ) == Some(path@[i])
                },
                Err(GraphicsError::MalformedInterchange(at)) => {
                    &&& at < tuples@.len()
                    &&& segment_of_tuple(tuples@[at as int].0@, tuples@[at as int].1@) is None
                    &&& forall|i: int|
                        0 <= i < at ==> segment_of_tuple(
                            (#[trigger] tuples@[i]).0@,
                            tuples@[i].1@,
                        ) is Some
                },
                Err(_) => false,
            },
    {
        let mut segments: Vec<PathSegment> = Vec::new();
        let mut i: usize = 0;
        while i < tuples.len()
            invariant
                i <= tuples.len(),
                segments@.len() == i,
                forall|k: int|
                    0 <= k < i ==> segment_of_tuple((#[trigger] tuples@[k]).0@, tuples@[k].1@)
                        == Some(segments@[k]),
            decreases tuples.len() - i,
        {
            let tuple = &tuples[i];
            match read_tuple(tuple.0.as_str(), &tuple.1) {
                Some(segment) => {
                    segments.push(segment);
                },
                None => {
                    return Err(GraphicsError::MalformedInterchange(i));
                },
            }
            i += 1;
        }
        Ok(PathSegments(segments))
    }

    /// Serialises the path to the SVG path mini-language.
    pub fn to_string(&self) -> (r: String)
        ensures
            r@ == path_text(self@),
    {
        let mut out = String::new();
        let mut i: usize = 0;
        while i < self.0.len()
            invariant
                i <= self.0.len(),
                out@ == path_text(self@.take(i as int)),
            decreases self.0.len() - i,
        {
            self.0[i].write(&mut out);
            proof {
                assert(self@.take(i + 1).drop_last() =~= self@.take(i as int));
            }
            i += 1;
        }
        proof {
            assert(self@.take(i as int) =~= self@);
        }
        out
    }

    /// Shifts every segment by `(move_x, move_y)`.
    pub fn move_path(&self, move_x: Scalar, move_y: Scalar) -> (r: PathSegments)
        ensures
            r@ == moved_path(self@, move_x, move_y),
    {
        let mut segments: Vec<PathSegment> = Vec::new();
        let mut i: usize = 0;
        while i < self.0.len()
            invariant
                i <= self.0.len(),
                segments@ == moved_path(self@.take(i as int), move_x, move_y),
            decreases self.0.len() - i,
        {
            segments.push(self.0[i].moved(move_x, move_y));
            i += 1;
            proof {
                assert(segments@ =~= moved_path(self@.take(i as int), move_x, move_y));
            }
        }
        proof {
            assert(self@.take(i as int) =~= self@);
        }
        PathSegments(segments)
    }

    /// Scales every segment by `(scale_x, scale_y)`.
    pub fn scale_path(&self, scale_x: Scalar, scale_y: Scalar) -> (r: PathSegments)
        ensures
            r@ == scaled_path(self@, scale_x, scale_y),
    {
        let mut segments: Vec<PathSegment> = Vec::new();
        let mut i: usize = 0;
        while i < self.0.len()
            invariant
                i <= self.0.len(),
                segments@ == scaled_path(self@.take(i as int), scale_x, scale_y),
            decreases self.0.len() - i,
        {
            segments.push(self.0[i].scaled(scale_x, scale_y));
            i += 1;
            proof {
                assert(segments@ =~= scaled_path(self@.take(i as int), scale_x, scale_y));
            }
        }
        proof {
            assert(self@.take(i as int) =~= self@);
        }
        PathSegments(segments)
    }
}

/// The segment that one tagged tuple of the interchange format stands for:
/// the tag is the command letter, and the numbers are its operands, as many
/// as the command takes. Any other tag or count stands for nothing.
pub open spec fn segment_of_tuple(tag: Seq<char>, numbers: Seq<Scalar>) -> Option<PathSegment> {
    if tag == seq!['M'] && numbers.len() == 2 {
        Some(PathSegment::M(numbers[0], numbers[1]))
    } else if tag == seq!['L'] && numbers.len() == 2 {
        Some(PathSegment::L(numbers[0], numbers[1]))
    } else if tag == seq!['Q'] && numbers.len() == 4 {
        Some(PathSegment::Q(numbers[0], numbers[1], numbers[2], numbers[3]))
    } else if tag == seq!['C'] && numbers.len() == 6 {
        Some(
            PathSegment::C(
                numbers[0],
                numbers[1],
                numbers[2],
                numbers[3],
                numbers[4],
                numbers[5],
            ),
        )
    } else if tag == seq!['Z'] && numbers.len() == 0 {
        Some(PathSegment::Z)
    } else {
        None
    }
}

/// Reads one tagged tuple of the interchange format.
pub fn read_tuple(tag: &str, numbers: &Vec<Scalar>) -> (r: Option<PathSegment>)
    ensures
        r == segment_of_tuple(tag@, numbers@),
{
    if tag.unicode_len() != 1 {
        return None;
    }
    let letter = tag.get_char(0);
    proof {
        assert(tag@ =~= seq![letter]);
        assert(seq![letter] == seq!['M'] ==> letter == 'M') by {
            assert(seq![letter][0] == letter);
        }
        assert(seq![letter] == seq!['L'] ==> letter == 'L') by {
            assert(seq![letter][0] == letter);
        }
        assert(seq![letter] == seq!['Q'] ==> letter == 'Q') by {
            assert(seq![letter][0] == letter);
        }
        assert(seq![letter] == seq!['C'] ==> letter == 'C') by {
            assert(seq![letter][0] == letter);
        }
        assert(seq![letter] == seq!['Z'] ==> letter == 'Z') by {
            assert(seq![letter][0] == letter);
        }
    }
    let n = numbers.len();
    if letter == 'M' && n == 2 {
        Some(PathSegment::M(numbers[0], numbers[1]))
    } else if letter == 'L' && n == 2 {
        Some(PathSegment::L(numbers[0], numbers[1]))
    } else if letter == 'Q' && n == 4 {
        Some(PathSegment::Q(numbers[0], numbers[1], numbers[2], numbers[3]))
    } else if letter == 'C' && n == 6 {
        Some(
            PathSegment::C(
                numbers[0],
                numbers[1],
                numbers[2],
                numbers[3],
                numbers[4],
                numbers[5],
            ),
        )
    } else if letter == 'Z' && n == 0 {
        Some(PathSegment::Z)
    } else {
        None
    }
}

/// Raises a quadratic curve to the cubic curve that traces the same points.
///
/// The curve starts at `(prev_x, prev_y)`, has the control point
/// `(ctrl_x, ctrl_y)` and ends at `(x, y)`. The result holds the two cubic
/// control points and the end point: each control point lies two thirds of
/// the way from an end of the curve to the quadratic control point.
pub fn quadratic_to_cubic(
    prev_x: Scalar,
    prev_y: Scalar,
    ctrl_x: Scalar,
    ctrl_y: Scalar,
    x: Scalar,
    y: Scalar,
) -> (r: (Scalar, Scalar, Scalar, Scalar, Scalar, Scalar))
    ensures
        r.0 == prev_x.spec_toward(ctrl_x),
        r.1 == prev_y.spec_toward(ctrl_y),
        r.2 == x.spec_toward(ctrl_x),
        r.3 == y.spec_toward(ctrl_y),
        r.4 == x,
        r.5 == y,
{
    (
        prev_x.toward(ctrl_x),
        prev_y.toward(ctrl_y),
        x.toward(ctrl_x),
        y.toward(ctrl_y),
        x,
        y,
    )
}

} // verus!
