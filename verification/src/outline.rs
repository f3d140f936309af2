//! What an annotation looks like: the dots and lines that show it.
use crate::editor::Annotation;
use vstd::prelude::*;

verus! {

/// The form in which an annotation is drawn, on screen and in the saved picture alike.
pub enum Shape<P> {
    /// No point was recorded: nothing is drawn.
    Empty,
    /// A single point: a dot as thick as the line would be.
    Dot(P),
    /// At least two points: the line through them.
    Path(Vec<P>),
    /// The frame between two opposite corners.
    Frame(P, P),
}

/// A dot or a straight line.
#[derive(Clone, Copy, Debug)]
pub enum Mark<P> {
    Dot(P),
    Line(P, P),
}

/// The form that a model is drawn in, with the points of a line as a sequence.
pub open spec fn shows<P, F>(shape: Shape<P>, drawing: crate::editor::Drawing<P, F>) -> bool {
    match drawing {
        crate::editor::Drawing::Freehand { points, style: _ } => if points.len() == 0 {
            shape == Shape::<P>::Empty
        } else if points.len() == 1 {
            shape == Shape::Dot(points[0])
        } else {
            shape matches Shape::Path(path) && path@ == points
        },
        crate::editor::Drawing::Rectangle { start, end, style: _ } => shape == Shape::Frame(
            start,
            end,
        ),
    }
}

/// The straight lines from each point to the next.
pub open spec fn segments<P>(points: Seq<P>) -> Seq<Mark<P>> {
    Seq::new(
        if points.len() == 0 { 0 } else { (points.len() - 1) as nat },
        |i: int| Mark::Line(points[i], points[i + 1]),
    )
}

/// The four sides of a frame, from its top left corner clockwise.
pub open spec fn sides<C>(top_left: (C, C), bottom_right: (C, C)) -> Seq<Mark<(C, C)>> {
    let top_right = (bottom_right.0, top_left.1);
    let bottom_left = (top_left.0, bottom_right.1);
    seq![
        Mark::Line(top_left, top_right),
        Mark::Line(top_right, bottom_right),
        Mark::Line(bottom_right, bottom_left),
        Mark::Line(bottom_left, top_left),
    ]
}

/// The dots and lines of a shape, in the order in which they are painted.
pub open spec fn outline<C>(shape: Shape<(C, C)>) -> Seq<Mark<(C, C)>> {
    match shape {
        Shape::Empty => Seq::empty(),
        Shape::Dot(point) => seq![Mark::Dot(point)],
        Shape::Path(points) => segments(points@),
        Shape::Frame(top_left, bottom_right) => sides(top_left, bottom_right),
    }
}

/// The form in which an annotation is drawn: a line of one point is a dot.
pub fn shape<P: Copy, F>(annotation: &Annotation<P, F>) -> (shape: Shape<P>)
    ensures
        shows(shape, annotation@),
{
    match annotation {
        Annotation::Freehand { points, style: _ } => {
            if points.len() == 0 {
                Shape::Empty
            } else if points.len() == 1 {
                Shape::Dot(points[0])
            } else {
                let mut path: Vec<P> = Vec::new();
                let mut next: usize = 0;
                while next < points.len()
                    invariant
                        next <= points.len(),
                        path@ == points@.take(next as int),
                    decreases points.len() - next,
                {
                    path.push(points[next]);
                    next = next + 1;
                    assert(path@ =~= points@.take(next as int));
                }
                assert(path@ =~= points@);
                Shape::Path(path)
            }
        },
        Annotation::Rectangle { start, end, style: _ } => Shape::Frame(*start, *end),
    }
}

/// Whether these are the corners of a frame, sorted.
pub open spec fn sorted_corners<C, L: Fn(C, C) -> C, H: Fn(C, C) -> C>(
    lesser: L,
    greater: H,
    start: (C, C),
    end: (C, C),
    top_left: (C, C),
    bottom_right: (C, C),
) -> bool {
    &&& call_ensures(lesser, (start.0, end.0), top_left.0)
    &&& call_ensures(lesser, (start.1, end.1), top_left.1)
    &&& call_ensures(greater, (start.0, end.0), bottom_right.0)
    &&& call_ensures(greater, (start.1, end.1), bottom_right.1)
}

/// The top left and the bottom right corner of a frame between two opposite corners: the lesser and
/// the greater of the two on each axis.
pub fn corners<C: Copy, L: Fn(C, C) -> C, H: Fn(C, C) -> C>(
    start: (C, C),
    end: (C, C),
    lesser: &L,
    greater: &H,
) -> (corners: ((C, C), (C, C)))
    requires
        forall|a: C, b: C| call_requires(*lesser, (a, b)),
        forall|a: C, b: C| call_requires(*greater, (a, b)),
    ensures
        call_ensures(*lesser, (start.0, end.0), corners.0.0),
        call_ensures(*lesser, (start.1, end.1), corners.0.1),
        call_ensures(*greater, (start.0, end.0), corners.1.0),
        call_ensures(*greater, (start.1, end.1), corners.1.1),
        sorted_corners(*lesser, *greater, start, end, corners.0, corners.1),
{
    (
        (lesser(start.0, end.0), lesser(start.1, end.1)),
        (greater(start.0, end.0), greater(start.1, end.1)),
    )
}

/// The dots and lines that show a shape, in the order in which they are painted. The corners of a
/// frame are its top left and its bottom right one.
pub fn marks<C: Copy>(shape: &Shape<(C, C)>) -> (marks: Vec<Mark<(C, C)>>)
    ensures
        marks@ == outline(*shape),
{
    let mut marks: Vec<Mark<(C, C)>> = Vec::new();
    match shape {
        Shape::Empty => {},
        Shape::Dot(point) => {
            marks.push(Mark::Dot(*point));
        },
        Shape::Path(points) => {
            let mut next: usize = 1;
            while next < points.len()
                invariant
                    1 <= next,
                    next <= points.len() || next == 1,
                    marks@ == segments(points@).take(next - 1),
                    points@.len() > 0 ==> segments(points@).len() == points@.len() - 1,
                    points@.len() == 0 ==> segments(points@).len() == 0,
                decreases points.len() - next,
            {
                marks.push(Mark::Line(points[next - 1], points[next]));
                assert(marks@ =~= segments(points@).take(next as int));
                next = next + 1;
            }
            assert(marks@ =~= segments(points@));
        },
        Shape::Frame(top_left, bottom_right) => {
            let top_right: (C, C) = (bottom_right.0, top_left.1);
            let bottom_left: (C, C) = (top_left.0, bottom_right.1);
            marks.push(Mark::Line(*top_left, top_right));
            marks.push(Mark::Line(top_right, *bottom_right));
            marks.push(Mark::Line(*bottom_right, bottom_left));
            marks.push(Mark::Line(bottom_left, *top_left));
        },
    }
    assert(marks@ =~= outline(*shape));
    marks
}

/// Where a line begins.
pub open spec fn line_start<P>(mark: Mark<P>) -> P {
    match mark {
        Mark::Dot(point) => point,
        Mark::Line(from, _) => from,
    }
}

/// Where a line ends.
pub open spec fn line_end<P>(mark: Mark<P>) -> P {
    match mark {
        Mark::Dot(point) => point,
        Mark::Line(_, to) => to,
    }
}

/// The lines of a path are connected: each begins where the one before it ended, the first at the
/// first point and the last at the last.
pub proof fn law_path_is_connected<P>(points: Seq<P>)
    requires
        points.len() >= 2,
    ensures
        segments(points).len() == points.len() - 1,
        line_start(segments(points).first()) == points.first(),
        line_end(segments(points).last()) == points.last(),
        forall|i: int|
            0 < i < segments(points).len() ==> line_start(#[trigger] segments(points)[i])
                == line_end(segments(points)[i - 1]),
{
}

/// The sides of a frame are four, connected and closed, and each of them keeps one coordinate.
pub proof fn law_frame_is_closed<C>(top_left: (C, C), bottom_right: (C, C))
    ensures
        ({
            let sides = sides(top_left, bottom_right);
            &&& sides.len() == 4
            &&& line_start(sides[0]) == top_left
            &&& line_end(sides[1]) == bottom_right
            &&& line_end(sides[3]) == line_start(sides[0])
            &&& forall|i: int|
                0 < i < 4 ==> line_start(#[trigger] sides[i]) == line_end(sides[i - 1])
            &&& forall|i: int|
                0 <= i < 4 ==> line_start(#[trigger] sides[i]).0 == line_end(sides[i]).0
                    || line_start(sides[i]).1 == line_end(sides[i]).1
        }),
{
}

/// Whether a mark is a straight line with an end at this point.
pub open spec fn ends_at<P>(mark: Mark<P>, point: P) -> bool {
    match mark {
        Mark::Dot(_) => false,
        Mark::Line(from, to) => from == point || to == point,
    }
}

/// A path is painted from each point to the next: of n points the marks are n - 1 straight lines,
/// the one at i from point i to point i + 1.
pub proof fn law_path_joins_neighbours<C>(points: Vec<(C, C)>)
    requires
        points@.len() >= 2,
    ensures
        outline(Shape::Path(points)).len() == points@.len() - 1,
        forall|i: int|
            0 <= i < points@.len() - 1 ==> (#[trigger] outline(Shape::Path(points))[i])
                == Mark::Line(points@[i], points@[i + 1]),
{
}

/// No point of a path is left out: each is an end of one of the painted lines.
pub proof fn law_path_goes_through_every_point<C>(points: Vec<(C, C)>, j: int)
    requires
        points@.len() >= 2,
        0 <= j < points@.len(),
    ensures
        exists|i: int|
            0 <= i < outline(Shape::Path(points)).len() && #[trigger] ends_at(
                outline(Shape::Path(points))[i],
                points@[j],
            ),
{
    law_path_joins_neighbours(points);
    let i = if j == 0 {
        0
    } else {
        j - 1
    };
    assert(outline(Shape::Path(points))[i] == Mark::Line(points@[i], points@[i + 1]));
    assert(ends_at(outline(Shape::Path(points))[i], points@[j]));
}

/// A dot is painted as that dot, nothing as nothing, and a frame as four sides: along its top from
/// left to right, down its right side, back along its bottom and up its left side.
pub proof fn law_marks_of_other_shapes<C>(
    point: (C, C),
    top_left: (C, C),
    bottom_right: (C, C),
)
    ensures
        outline(Shape::<(C, C)>::Empty).len() == 0,
        outline(Shape::Dot(point)).len() == 1,
        outline(Shape::Dot(point))[0] == Mark::Dot(point),
        outline(Shape::Frame(top_left, bottom_right)).len() == 4,
        outline(Shape::Frame(top_left, bottom_right))[0] == Mark::Line(
            (top_left.0, top_left.1),
            (bottom_right.0, top_left.1),
        ),
        outline(Shape::Frame(top_left, bottom_right))[1] == Mark::Line(
            (bottom_right.0, top_left.1),
            (bottom_right.0, bottom_right.1),
        ),
        outline(Shape::Frame(top_left, bottom_right))[2] == Mark::Line(
            (bottom_right.0, bottom_right.1),
            (top_left.0, bottom_right.1),
        ),
        outline(Shape::Frame(top_left, bottom_right))[3] == Mark::Line(
            (top_left.0, bottom_right.1),
            (top_left.0, top_left.1),
        ),
{
}

/// An annotation is drawn through every point that was recorded: two points and more make a path of
/// just these points, a single one a dot, none nothing, and a rectangle the frame between its
/// corners.
pub proof fn law_shape_has_every_point<P, F>(
    shape: Shape<P>,
    points: Seq<P>,
    start: P,
    end: P,
    style: crate::editor::Brush<F>,
)
    ensures
        shows(shape, crate::editor::Drawing::Freehand { points, style }) ==> match shape {
            Shape::Empty => points.len() == 0,
            Shape::Dot(point) => points.len() == 1 && point == points[0],
            Shape::Path(path) => {
                &&& points.len() >= 2
                &&& path@.len() == points.len()
                &&& forall|i: int| 0 <= i < points.len() ==> #[trigger] path@[i] == points[i]
            },
            Shape::Frame(_, _) => false,
        },
        shows(shape, crate::editor::Drawing::Rectangle { start, end, style }) ==> match shape {
            Shape::Frame(from, to) => from == start && to == end,
            _ => false,
        },
{
}

/// The corners of a frame hold it: where the lesser and the greater of two numbers are what they
/// are called, its top left corner lies neither right of nor below either of the given ones, and
/// its bottom right one neither left of nor above, and each takes its place from one of them.
pub proof fn law_corners_hold_the_frame<L: Fn(int, int) -> int, H: Fn(int, int) -> int>(
    lesser: L,
    greater: H,
    start: (int, int),
    end: (int, int),
    top_left: (int, int),
    bottom_right: (int, int),
)
    requires
        sorted_corners(lesser, greater, start, end, top_left, bottom_right),
        forall|a: int, b: int, c: int| #[trigger]
            call_ensures(lesser, (a, b), c) ==> c <= a && c <= b && (c == a || c == b),
        forall|a: int, b: int, c: int| #[trigger]
            call_ensures(greater, (a, b), c) ==> c >= a && c >= b && (c == a || c == b),
    ensures
        top_left.0 <= start.0 <= bottom_right.0,
        top_left.0 <= end.0 <= bottom_right.0,
        top_left.1 <= start.1 <= bottom_right.1,
        top_left.1 <= end.1 <= bottom_right.1,
        top_left.0 == start.0 || top_left.0 == end.0,
        top_left.1 == start.1 || top_left.1 == end.1,
        bottom_right.0 == start.0 || bottom_right.0 == end.0,
        bottom_right.1 == start.1 || bottom_right.1 == end.1,
{
}

} // verus!
