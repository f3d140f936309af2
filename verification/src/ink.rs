//! From annotations on the preview to ink in the picture.
//!
//! Coordinates are whatever the pointer delivers, so the arithmetic on them is handed in: how a
//! point of the preview is placed in the picture, which corners of a frame are its top left and its
//! bottom right one, at which pixels a dot or a line is sampled, and how thick and in which colour
//! a brush paints. What is made of the annotations with it is decided here.
use crate::editor::{Annotation, Brush};
use crate::outline::{marks, shape, Mark, Shape};
use crate::picture::Picture;
use crate::raster::{render_strokes, Color, Stroke};
use vstd::prelude::*;

verus! {

/// Whether a frame between two corners has these corners in the picture: the given ones, in order
/// and placed.
pub open spec fn places_frame<
    C,
    G: Fn((C, C)) -> (C, C),
    O: Fn((C, C), (C, C)) -> ((C, C), (C, C)),
>(
    grow: G,
    order: O,
    start: (C, C),
    end: (C, C),
    top_left: (C, C),
    bottom_right: (C, C),
) -> bool {
    exists|corners: ((C, C), (C, C))|
        {
            &&& #[trigger] call_ensures(order, (start, end), corners)
            &&& call_ensures(grow, (corners.0,), top_left)
            &&& call_ensures(grow, (corners.1,), bottom_right)
        }
}

/// Whether `placed` is a shape of the preview placed in the picture: each of its points, and the
/// corners of a frame once they are in order.
pub open spec fn places<C, G: Fn((C, C)) -> (C, C), O: Fn((C, C), (C, C)) -> ((C, C), (C, C))>(
    grow: G,
    order: O,
    shape: Shape<(C, C)>,
    placed: Shape<(C, C)>,
) -> bool {
    match shape {
        Shape::Empty => placed == Shape::<(C, C)>::Empty,
        Shape::Dot(point) => placed matches Shape::Dot(to) && call_ensures(grow, (point,), to),
        Shape::Path(points) => placed matches Shape::Path(to) && to@.len() == points@.len() && (
        forall|i: int|
            0 <= i < points@.len() ==> call_ensures(grow, (points@[i],), #[trigger] to@[i])),
        Shape::Frame(start, end) => placed matches Shape::Frame(top_left, bottom_right)
            && places_frame(grow, order, start, end, top_left, bottom_right),
    }
}

/// Places a shape of the preview in the picture.
pub fn place_shape<
    C: Copy,
    G: Fn((C, C)) -> (C, C),
    O: Fn((C, C), (C, C)) -> ((C, C), (C, C)),
>(shape: Shape<(C, C)>, grow: &G, order: &O) -> (placed: Shape<(C, C)>)
    requires
        forall|point: (C, C)| call_requires(*grow, (point,)),
        forall|start: (C, C), end: (C, C)| call_requires(*order, (start, end)),
    ensures
        places(*grow, *order, shape, placed),
{
    match shape {
        Shape::Empty => Shape::Empty,
        Shape::Dot(point) => Shape::Dot(grow(point)),
        Shape::Path(points) => {
            let mut to: Vec<(C, C)> = Vec::new();
            let mut next: usize = 0;
            while next < points.len()
                invariant
                    next <= points.len(),
                    to@.len() == next,
                    forall|point: (C, C)| call_requires(*grow, (point,)),
                    forall|i: int|
                        0 <= i < next ==> call_ensures(*grow, (points@[i],), #[trigger] to@[i]),
                decreases points.len() - next,
            {
                to.push(grow(points[next]));
                next = next + 1;
            }
            Shape::Path(to)
        },
        Shape::Frame(start, end) => {
            let corners: ((C, C), (C, C)) = order(start, end);
            Shape::Frame(grow(corners.0), grow(corners.1))
        },
    }
}

/// Whether these lines are the marks, each sampled at some pixels.
pub open spec fn samples<C, S: Fn(Mark<(C, C)>) -> Vec<(i32, i32)>>(
    sample: S,
    marks: Seq<Mark<(C, C)>>,
    lines: Seq<Vec<(i32, i32)>>,
) -> bool {
    &&& lines.len() == marks.len()
    &&& forall|i: int|
        0 <= i < marks.len() ==> call_ensures(sample, (marks[i],), #[trigger] lines[i])
}

/// The brush of a drawing.
pub open spec fn style<P, F>(drawing: crate::editor::Drawing<P, F>) -> Brush<F> {
    match drawing {
        crate::editor::Drawing::Freehand { points: _, style } => style,
        crate::editor::Drawing::Rectangle { start: _, end: _, style } => style,
    }
}

/// Whether a stroke is the ink of a drawing: its shape is placed in the picture, every mark of the
/// placed shape is sampled, and thickness and colour are those of its brush.
pub open spec fn inks<
    C,
    F,
    G: Fn((C, C)) -> (C, C),
    O: Fn((C, C), (C, C)) -> ((C, C), (C, C)),
    S: Fn(Mark<(C, C)>) -> Vec<(i32, i32)>,
    B: Fn(Brush<F>) -> (i32, Color),
>(
    grow: G,
    order: O,
    sample: S,
    pen: B,
    drawing: crate::editor::Drawing<(C, C), F>,
    stroke: Stroke,
) -> bool {
    &&& exists|shape: Shape<(C, C)>, placed: Shape<(C, C)>|
        {
            &&& crate::outline::shows(shape, drawing)
            &&& #[trigger] places(grow, order, shape, placed)
            &&& samples(sample, crate::outline::outline(placed), stroke.lines@)
        }
    &&& call_ensures(pen, (style(drawing),), (stroke.radius, stroke.color))
}

/// Whether these strokes are the ink of these drawings, one for each, in their order.
pub open spec fn inked<
    C,
    F,
    G: Fn((C, C)) -> (C, C),
    O: Fn((C, C), (C, C)) -> ((C, C), (C, C)),
    S: Fn(Mark<(C, C)>) -> Vec<(i32, i32)>,
    B: Fn(Brush<F>) -> (i32, Color),
>(
    grow: G,
    order: O,
    sample: S,
    pen: B,
    drawings: Seq<crate::editor::Drawing<(C, C), F>>,
    strokes: Seq<Stroke>,
) -> bool {
    &&& strokes.len() == drawings.len()
    &&& forall|i: int|
        0 <= i < drawings.len() ==> inks(
            grow,
            order,
            sample,
            pen,
            drawings[i],
            #[trigger] strokes[i],
        )
}

/// Whether these are the pixels of a line of `steps` steps.
pub open spec fn steps_along<K: Fn(i32) -> (i32, i32)>(
    center: K,
    steps: i32,
    centers: Seq<(i32, i32)>,
) -> bool {
    &&& steps >= 0 ==> centers.len() == steps + 1
    &&& steps < 0 ==> centers.len() == 0
    &&& forall|i: int|
        0 <= i < centers.len() ==> call_ensures(center, (i as i32,), #[trigger] centers[i])
}

/// The pixels around which a line of `steps` steps is painted: the one before the first step and
/// the one after each.
pub fn line_centers<K: Fn(i32) -> (i32, i32)>(steps: i32, center: &K) -> (centers: Vec<(i32, i32)>)
    requires
        forall|step: i32| call_requires(*center, (step,)),
    ensures
        centers@.len() == if steps < 0 {
            0
        } else {
            steps + 1
        },
        forall|i: int|
            0 <= i < centers@.len() ==> call_ensures(*center, (i as i32,), #[trigger] centers@[i]),
        steps_along(*center, steps, centers@),
{
    let mut centers: Vec<(i32, i32)> = Vec::new();
    if steps < 0 {
        return centers;
    }
    let mut step: i32 = 0;
    while step < steps
        invariant
            0 <= step <= steps,
            centers@.len() == step,
            forall|step: i32| call_requires(*center, (step,)),
            forall|i: int|
                0 <= i < step ==> call_ensures(*center, (i as i32,), #[trigger] centers@[i]),
        decreases steps - step,
    {
        centers.push(center(step));
        step = step + 1;
    }
    centers.push(center(steps));
    centers
}

/// The ink of one annotation.
pub fn stroke_of<
    C: Copy,
    F: Copy,
    G: Fn((C, C)) -> (C, C),
    O: Fn((C, C), (C, C)) -> ((C, C), (C, C)),
    S: Fn(Mark<(C, C)>) -> Vec<(i32, i32)>,
    B: Fn(Brush<F>) -> (i32, Color),
>(annotation: &Annotation<(C, C), F>, grow: &G, order: &O, sample: &S, pen: &B) -> (stroke: Stroke)
    requires
        forall|point: (C, C)| call_requires(*grow, (point,)),
        forall|start: (C, C), end: (C, C)| call_requires(*order, (start, end)),
        forall|mark: Mark<(C, C)>| call_requires(*sample, (mark,)),
        forall|brush: Brush<F>| call_requires(*pen, (brush,)),
    ensures
        inks(*grow, *order, *sample, *pen, annotation@, stroke),
{
    let seen: Shape<(C, C)> = shape(annotation);
    let ghost shown = seen;
    let placed: Shape<(C, C)> = place_shape(seen, grow, order);
    let marks: Vec<Mark<(C, C)>> = marks(&placed);
    let mut lines: Vec<Vec<(i32, i32)>> = Vec::new();
    let mut next: usize = 0;
    while next < marks.len()
        invariant
            next <= marks.len(),
            lines@.len() == next,
            forall|mark: Mark<(C, C)>| call_requires(*sample, (mark,)),
            forall|i: int|
                0 <= i < next ==> call_ensures(*sample, (marks@[i],), #[trigger] lines@[i]),
        decreases marks.len() - next,
    {
        lines.push(sample(marks[next]));
        next = next + 1;
    }
    let brush: Brush<F> = match annotation {
        Annotation::Freehand { points: _, style } => *style,
        Annotation::Rectangle { start: _, end: _, style } => *style,
    };
    let (radius, color): (i32, Color) = pen(brush);
    let stroke = Stroke { lines, radius, color };
    assert(places(*grow, *order, shown, placed));
    stroke
}

/// The ink of the annotations: one stroke for each, in their order.
pub fn ink<
    C: Copy,
    F: Copy,
    G: Fn((C, C)) -> (C, C),
    O: Fn((C, C), (C, C)) -> ((C, C), (C, C)),
    S: Fn(Mark<(C, C)>) -> Vec<(i32, i32)>,
    B: Fn(Brush<F>) -> (i32, Color),
>(annotations: &Vec<Annotation<(C, C), F>>, grow: &G, order: &O, sample: &S, pen: &B) -> (strokes:
    Vec<Stroke>)
    requires
        forall|point: (C, C)| call_requires(*grow, (point,)),
        forall|start: (C, C), end: (C, C)| call_requires(*order, (start, end)),
        forall|mark: Mark<(C, C)>| call_requires(*sample, (mark,)),
        forall|brush: Brush<F>| call_requires(*pen, (brush,)),
    ensures
        inked(*grow, *order, *sample, *pen, crate::editor::models(annotations@), strokes@),
{
    let mut strokes: Vec<Stroke> = Vec::new();
    let mut next: usize = 0;
    while next < annotations.len()
        invariant
            next <= annotations.len(),
            strokes@.len() == next,
            forall|point: (C, C)| call_requires(*grow, (point,)),
            forall|start: (C, C), end: (C, C)| call_requires(*order, (start, end)),
            forall|mark: Mark<(C, C)>| call_requires(*sample, (mark,)),
            forall|brush: Brush<F>| call_requires(*pen, (brush,)),
            forall|i: int|
                0 <= i < next ==> inks(
                    *grow,
                    *order,
                    *sample,
                    *pen,
                    annotations@[i]@,
                    #[trigger] strokes@[i],
                ),
        decreases annotations.len() - next,
    {
        strokes.push(stroke_of(&annotations[next], grow, order, sample, pen));
        next = next + 1;
    }
    strokes
}

/// Paints the annotations, in their order, over a copy of the source. The copy has the size of the
/// source; each of its pixels shows the ink of the last annotation that reaches it, and the source
/// where none does. Functions that compute one value for each input make one picture.
pub fn render_annotations<
    C: Copy,
    F: Copy,
    G: Fn((C, C)) -> (C, C),
    O: Fn((C, C), (C, C)) -> ((C, C), (C, C)),
    S: Fn(Mark<(C, C)>) -> Vec<(i32, i32)>,
    B: Fn(Brush<F>) -> (i32, Color),
>(
    source: &Picture,
    annotations: &Vec<Annotation<(C, C), F>>,
    grow: &G,
    order: &O,
    sample: &S,
    pen: &B,
) -> (result: Picture)
    requires
        forall|point: (C, C)| call_requires(*grow, (point,)),
        forall|start: (C, C), end: (C, C)| call_requires(*order, (start, end)),
        forall|mark: Mark<(C, C)>| call_requires(*sample, (mark,)),
        forall|brush: Brush<F>| call_requires(*pen, (brush,)),
    ensures
        result.size() == source.size(),
        exists|strokes: Seq<Stroke>|
            {
                &&& #[trigger] inked(
                    *grow,
                    *order,
                    *sample,
                    *pen,
                    crate::editor::models(annotations@),
                    strokes,
                )
                &&& result.pixels() == crate::raster::rendered(
                    source.pixels(),
                    crate::raster::models(strokes),
                )
            },
        forall|arithmetic: crate::arithmetic::Arithmetic<C, F>| #[trigger]
            crate::arithmetic::computes(*grow, *order, *sample, *pen, arithmetic)
                ==> result.pixels() == arithmetic.annotated(
                source.pixels(),
                crate::editor::models(annotations@),
            ),
{
    let strokes: Vec<Stroke> = ink(annotations, grow, order, sample, pen);
    proof {
        let drawings = crate::editor::models(annotations@);
        assert forall|arithmetic: crate::arithmetic::Arithmetic<C, F>| #[trigger]
            crate::arithmetic::computes(
                *grow,
                *order,
                *sample,
                *pen,
                arithmetic,
            ) implies crate::raster::models(strokes@) == arithmetic.inks(drawings) by {
            assert forall|i: int| 0 <= i < drawings.len() implies strokes@[i]@ == arithmetic.inks(
                drawings,
            )[i] by {
                crate::arithmetic::lemma_ink_is_computed(
                    *grow,
                    *order,
                    *sample,
                    *pen,
                    arithmetic,
                    drawings[i],
                    strokes@[i],
                );
            }
            assert(crate::raster::models(strokes@) =~= arithmetic.inks(drawings));
        }
    }
    render_strokes(source, &strokes)
}

/// The ink of two lists of drawings, one after the other, is the ink of the joined list, and
/// painting the second over what the first made is painting both at once.
pub proof fn law_ink_of_joined_drawings<
    C,
    F,
    G: Fn((C, C)) -> (C, C),
    O: Fn((C, C), (C, C)) -> ((C, C), (C, C)),
    S: Fn(Mark<(C, C)>) -> Vec<(i32, i32)>,
    B: Fn(Brush<F>) -> (i32, Color),
>(
    grow: G,
    order: O,
    sample: S,
    pen: B,
    first: Seq<crate::editor::Drawing<(C, C), F>>,
    second: Seq<crate::editor::Drawing<(C, C), F>>,
    first_strokes: Seq<Stroke>,
    second_strokes: Seq<Stroke>,
    pixels: Map<(u32, u32), (u8, u8, u8, u8)>,
)
    requires
        inked(grow, order, sample, pen, first, first_strokes),
        inked(grow, order, sample, pen, second, second_strokes),
    ensures
        inked(grow, order, sample, pen, first + second, first_strokes + second_strokes),
        crate::raster::rendered(pixels, crate::raster::models(first_strokes + second_strokes))
            == crate::raster::rendered(
            crate::raster::rendered(pixels, crate::raster::models(first_strokes)),
            crate::raster::models(second_strokes),
        ),
{
    let drawings = first + second;
    let strokes = first_strokes + second_strokes;
    assert forall|i: int| 0 <= i < drawings.len() implies inks(
        grow,
        order,
        sample,
        pen,
        drawings[i],
        #[trigger] strokes[i],
    ) by {
        if i < first.len() {
            assert(strokes[i] == first_strokes[i]);
        } else {
            assert(strokes[i] == second_strokes[i - first.len()]);
        }
    }
    let (below, above) = (
        crate::raster::models(first_strokes),
        crate::raster::models(second_strokes),
    );
    crate::raster::law_rendering_composes(pixels, below, above);
    assert(crate::raster::models(strokes) =~= below + above);
}

/// A rectangle is its corners in order: where two pairs of corners are put in order alike, the two
/// rectangles with one brush have the same ink.
pub proof fn law_rectangle_is_its_ordered_corners<
    C,
    F,
    G: Fn((C, C)) -> (C, C),
    O: Fn((C, C), (C, C)) -> ((C, C), (C, C)),
    S: Fn(Mark<(C, C)>) -> Vec<(i32, i32)>,
    B: Fn(Brush<F>) -> (i32, Color),
>(
    grow: G,
    order: O,
    sample: S,
    pen: B,
    start: (C, C),
    end: (C, C),
    start2: (C, C),
    end2: (C, C),
    style: Brush<F>,
    stroke: Stroke,
)
    requires
        forall|corners: ((C, C), (C, C))| #[trigger]
            call_ensures(order, (start, end), corners) <==> call_ensures(
                order,
                (start2, end2),
                corners,
            ),
    ensures
        inks(
            grow,
            order,
            sample,
            pen,
            crate::editor::Drawing::Rectangle { start, end, style },
            stroke,
        ) <==> inks(
            grow,
            order,
            sample,
            pen,
            crate::editor::Drawing::Rectangle { start: start2, end: end2, style },
            stroke,
        ),
{
    assert forall|top_left: (C, C), bottom_right: (C, C)| #[trigger]
        places_frame(grow, order, start, end, top_left, bottom_right) == places_frame(
            grow,
            order,
            start2,
            end2,
            top_left,
            bottom_right,
        ) by {
        assert(forall|corners: ((C, C), (C, C))| #[trigger]
            call_ensures(order, (start2, end2), corners) ==> call_ensures(
                order,
                (start, end),
                corners,
            ));
    }
    let one = Shape::Frame(start, end);
    let other = Shape::Frame(start2, end2);
    assert(forall|placed: Shape<(C, C)>| #[trigger]
        places(grow, order, one, placed) ==> places(grow, order, other, placed));
    assert(forall|placed: Shape<(C, C)>| #[trigger]
        places(grow, order, other, placed) ==> places(grow, order, one, placed));
}

/// Undo takes away the ink of the last drawing and leaves the other ink as it is: what the picture
/// showed is what it shows afterwards, with the stroke of that drawing painted over it.
pub proof fn law_undo_takes_the_last_ink_away<
    C,
    F,
    G: Fn((C, C)) -> (C, C),
    O: Fn((C, C), (C, C)) -> ((C, C), (C, C)),
    S: Fn(Mark<(C, C)>) -> Vec<(i32, i32)>,
    B: Fn(Brush<F>) -> (i32, Color),
>(
    grow: G,
    order: O,
    sample: S,
    pen: B,
    drawings: Seq<crate::editor::Drawing<(C, C), F>>,
    strokes: Seq<Stroke>,
    pixels: Map<(u32, u32), (u8, u8, u8, u8)>,
)
    requires
        drawings.len() > 0,
        inked(grow, order, sample, pen, drawings, strokes),
    ensures
        inked(grow, order, sample, pen, crate::editor::undone(drawings), strokes.drop_last()),
        inks(grow, order, sample, pen, drawings.last(), strokes.last()),
        crate::raster::rendered(pixels, crate::raster::models(strokes)) == crate::raster::rendered(
            crate::raster::rendered(pixels, crate::raster::models(strokes.drop_last())),
            seq![strokes.last()@],
        ),
{
    let kept = strokes.drop_last();
    assert forall|i: int| 0 <= i < kept.len() implies inks(
        grow,
        order,
        sample,
        pen,
        crate::editor::undone(drawings)[i],
        #[trigger] kept[i],
    ) by {
        assert(kept[i] == strokes[i]);
    }
    assert(strokes[strokes.len() - 1] == strokes.last());
    let ink = crate::raster::models(kept);
    crate::raster::law_rendering_composes(pixels, ink, seq![strokes.last()@]);
    assert(ink + seq![strokes.last()@] =~= crate::raster::models(strokes));
}

/// How many dots and lines a drawing takes: a line through several points one for each step from
/// point to point, a single point one, no point none, and a rectangle four.
pub proof fn law_ink_takes_every_line<
    C,
    F,
    G: Fn((C, C)) -> (C, C),
    O: Fn((C, C), (C, C)) -> ((C, C), (C, C)),
    S: Fn(Mark<(C, C)>) -> Vec<(i32, i32)>,
    B: Fn(Brush<F>) -> (i32, Color),
>(
    grow: G,
    order: O,
    sample: S,
    pen: B,
    drawing: crate::editor::Drawing<(C, C), F>,
    stroke: Stroke,
)
    requires
        inks(grow, order, sample, pen, drawing, stroke),
    ensures
        stroke.lines@.len() == match drawing {
            crate::editor::Drawing::Freehand { points, style: _ } => if points.len() <= 1 {
                points.len() as int
            } else {
                points.len() - 1
            },
            crate::editor::Drawing::Rectangle { .. } => 4,
        },
{
}

/// Whether these are the points, each placed in the picture.
pub open spec fn grown<C, G: Fn((C, C)) -> (C, C)>(
    grow: G,
    points: Seq<(C, C)>,
    placed: Seq<(C, C)>,
) -> bool {
    &&& placed.len() == points.len()
    &&& forall|i: int|
        0 <= i < points.len() ==> call_ensures(grow, (points[i],), #[trigger] placed[i])
}

/// A line of the pen goes through every point: with all of them placed in the picture, it is
/// sampled from each to the next, a single one as a dot, in the thickness and the colour of its
/// brush.
pub proof fn law_pen_goes_through_every_point<
    C,
    F,
    G: Fn((C, C)) -> (C, C),
    O: Fn((C, C), (C, C)) -> ((C, C), (C, C)),
    S: Fn(Mark<(C, C)>) -> Vec<(i32, i32)>,
    B: Fn(Brush<F>) -> (i32, Color),
>(
    grow: G,
    order: O,
    sample: S,
    pen: B,
    points: Seq<(C, C)>,
    style: Brush<F>,
    stroke: Stroke,
)
    requires
        inks(
            grow,
            order,
            sample,
            pen,
            crate::editor::Drawing::Freehand { points, style },
            stroke,
        ),
    ensures
        call_ensures(pen, (style,), (stroke.radius, stroke.color)),
        exists|placed: Seq<(C, C)>|
            {
                &&& #[trigger] grown(grow, points, placed)
                &&& points.len() == 0 ==> stroke.lines@.len() == 0
                &&& points.len() == 1 ==> stroke.lines@.len() == 1 && call_ensures(
                    sample,
                    (Mark::Dot(placed[0]),),
                    stroke.lines@[0],
                )
                &&& points.len() >= 2 ==> stroke.lines@.len() == points.len() - 1 && forall|i: int|
                    0 <= i < points.len() - 1 ==> call_ensures(
                        sample,
                        (Mark::Line(placed[i], placed[i + 1]),),
                        #[trigger] stroke.lines@[i],
                    )
            },
{
    let drawing = crate::editor::Drawing::Freehand { points, style };
    let (shape, placed) = choose|shape: Shape<(C, C)>, placed: Shape<(C, C)>|
        {
            &&& crate::outline::shows(shape, drawing)
            &&& #[trigger] places(grow, order, shape, placed)
            &&& samples(sample, crate::outline::outline(placed), stroke.lines@)
        };
    match placed {
        Shape::Empty => {
            assert(grown(grow, points, Seq::<(C, C)>::empty()));
        },
        Shape::Dot(to) => {
            assert(grown(grow, points, seq![to]));
        },
        Shape::Path(to) => {
            assert(grown(grow, points, to@));
        },
        Shape::Frame(_, _) => {},
    }
}

/// A rectangle has its four sides: its corners are put in order and placed in the picture, and the
/// top, the right, the bottom and the left side between them are sampled from end to end, in the
/// thickness and the colour of its brush.
pub proof fn law_rectangle_has_four_sides<
    C,
    F,
    G: Fn((C, C)) -> (C, C),
    O: Fn((C, C), (C, C)) -> ((C, C), (C, C)),
    S: Fn(Mark<(C, C)>) -> Vec<(i32, i32)>,
    B: Fn(Brush<F>) -> (i32, Color),
>(
    grow: G,
    order: O,
    sample: S,
    pen: B,
    start: (C, C),
    end: (C, C),
    style: Brush<F>,
    stroke: Stroke,
)
    requires
        inks(
            grow,
            order,
            sample,
            pen,
            crate::editor::Drawing::Rectangle { start, end, style },
            stroke,
        ),
    ensures
        call_ensures(pen, (style,), (stroke.radius, stroke.color)),
        stroke.lines@.len() == 4,
        exists|corners: ((C, C), (C, C)), from: (C, C), to: (C, C)|
            {
                &&& call_ensures(order, (start, end), corners)
                &&& #[trigger] call_ensures(grow, (corners.0,), from)
                &&& #[trigger] call_ensures(grow, (corners.1,), to)
                &&& call_ensures(
                    sample,
                    (Mark::Line((from.0, from.1), (to.0, from.1)),),
                    stroke.lines@[0],
                )
                &&& call_ensures(
                    sample,
                    (Mark::Line((to.0, from.1), (to.0, to.1)),),
                    stroke.lines@[1],
                )
                &&& call_ensures(
                    sample,
                    (Mark::Line((to.0, to.1), (from.0, to.1)),),
                    stroke.lines@[2],
                )
                &&& call_ensures(
                    sample,
                    (Mark::Line((from.0, to.1), (from.0, from.1)),),
                    stroke.lines@[3],
                )
            },
{
    let drawing = crate::editor::Drawing::Rectangle { start, end, style };
    let (shape, placed) = choose|shape: Shape<(C, C)>, placed: Shape<(C, C)>|
        {
            &&& crate::outline::shows(shape, drawing)
            &&& #[trigger] places(grow, order, shape, placed)
            &&& samples(sample, crate::outline::outline(placed), stroke.lines@)
        };
    match placed {
        Shape::Frame(from, to) => {
            crate::outline::law_marks_of_other_shapes(from, from, to);
            let corners = choose|corners: ((C, C), (C, C))|
                {
                    &&& #[trigger] call_ensures(order, (start, end), corners)
                    &&& call_ensures(grow, (corners.0,), from)
                    &&& call_ensures(grow, (corners.1,), to)
                };
            assert(call_ensures(grow, (corners.0,), from));
            assert(call_ensures(grow, (corners.1,), to));
            let marks = crate::outline::outline(placed);
            assert(call_ensures(sample, (marks[0],), stroke.lines@[0]));
            assert(call_ensures(sample, (marks[1],), stroke.lines@[1]));
            assert(call_ensures(sample, (marks[2],), stroke.lines@[2]));
            assert(call_ensures(sample, (marks[3],), stroke.lines@[3]));
        },
        _ => {},
    }
}

/// Every drawing is inked: there is a stroke for each, and the one at its place is its ink.
pub proof fn law_every_drawing_is_inked<
    C,
    F,
    G: Fn((C, C)) -> (C, C),
    O: Fn((C, C), (C, C)) -> ((C, C), (C, C)),
    S: Fn(Mark<(C, C)>) -> Vec<(i32, i32)>,
    B: Fn(Brush<F>) -> (i32, Color),
>(
    grow: G,
    order: O,
    sample: S,
    pen: B,
    drawings: Seq<crate::editor::Drawing<(C, C), F>>,
    strokes: Seq<Stroke>,
    i: int,
)
    requires
        inked(grow, order, sample, pen, drawings, strokes),
        0 <= i < drawings.len(),
    ensures
        strokes.len() == drawings.len(),
        inks(grow, order, sample, pen, drawings[i], strokes[i]),
{
    let stroke = strokes[i];
    assert(inks(grow, order, sample, pen, drawings[i], stroke));
}

/// A line is sampled at its beginning, after every step and at its end, however many steps it has.
pub proof fn law_lines_are_sampled_at_every_step<K: Fn(i32) -> (i32, i32)>(
    center: K,
    steps: i32,
    step: i32,
    centers: Seq<(i32, i32)>,
)
    requires
        steps_along(center, steps, centers),
        0 <= step <= steps,
    ensures
        centers.len() == steps + 1,
        call_ensures(center, (step,), centers[step as int]),
{
    let i = step as int;
    assert(call_ensures(center, (i as i32,), centers[i]));
}

} // verus!
