//! The annotated picture as a function of the annotations.
//!
//! Arithmetic that gives one value for each input makes rendering a function. It is written down
//! here, and what holds of it: annotations can be rendered in several rounds, the direction in
//! which a rectangle is dragged makes no difference, and a scale can be applied to the annotations
//! instead.
use crate::editor::Brush;
use crate::outline::Mark;
use crate::raster::Color;
use vstd::prelude::*;

verus! {

/// The values of the arithmetic: where a point of the preview lies in the picture, which corners of
/// a frame are its top left and its bottom right one, at which pixels a dot or a line is sampled,
/// and how thick and in which colour a brush paints.
#[verifier::reject_recursive_types(C)]
#[verifier::reject_recursive_types(F)]
pub struct Arithmetic<C, F> {
    pub grow: spec_fn((C, C)) -> (C, C),
    pub order: spec_fn((C, C), (C, C)) -> ((C, C), (C, C)),
    pub sample: spec_fn(Mark<(C, C)>) -> Seq<(i32, i32)>,
    pub pen: spec_fn(Brush<F>) -> (i32, Color),
}

/// Whether these functions return the values of the arithmetic.
pub open spec fn computes<
    C,
    F,
    G: Fn((C, C)) -> (C, C),
    O: Fn((C, C), (C, C)) -> ((C, C), (C, C)),
    S: Fn(Mark<(C, C)>) -> Vec<(i32, i32)>,
    B: Fn(Brush<F>) -> (i32, Color),
>(grow: G, order: O, sample: S, pen: B, arithmetic: Arithmetic<C, F>) -> bool {
    &&& forall|point: (C, C), to: (C, C)| #[trigger]
        call_ensures(grow, (point,), to) ==> to == (arithmetic.grow)(point)
    &&& forall|start: (C, C), end: (C, C), corners: ((C, C), (C, C))| #[trigger]
        call_ensures(order, (start, end), corners) ==> corners == (arithmetic.order)(start, end)
    &&& forall|mark: Mark<(C, C)>, line: Vec<(i32, i32)>| #[trigger]
        call_ensures(sample, (mark,), line) ==> line@ == (arithmetic.sample)(mark)
    &&& forall|brush: Brush<F>, painted: (i32, Color)| #[trigger]
        call_ensures(pen, (brush,), painted) ==> painted == (arithmetic.pen)(brush)
}

impl<C, F> Arithmetic<C, F> {
    /// The dots and lines of a drawing in the picture.
    pub open spec fn marks(self, drawing: crate::editor::Drawing<(C, C), F>) -> Seq<Mark<(C, C)>> {
        match drawing {
            crate::editor::Drawing::Freehand { points, style: _ } => if points.len() == 1 {
                seq![Mark::Dot((self.grow)(points[0]))]
            } else {
                crate::outline::segments(points.map_values(self.grow))
            },
            crate::editor::Drawing::Rectangle { start, end, style: _ } => {
                let corners = (self.order)(start, end);
                crate::outline::sides((self.grow)(corners.0), (self.grow)(corners.1))
            },
        }
    }

    /// The ink of a drawing.
    pub open spec fn ink(
        self,
        drawing: crate::editor::Drawing<(C, C), F>,
    ) -> crate::raster::Ink {
        let (radius, color) = (self.pen)(crate::ink::style(drawing));
        crate::raster::Ink { lines: self.marks(drawing).map_values(self.sample), radius, color }
    }

    /// The ink of drawings, in their order.
    pub open spec fn inks(
        self,
        drawings: Seq<crate::editor::Drawing<(C, C), F>>,
    ) -> Seq<crate::raster::Ink> {
        drawings.map_values(|drawing: crate::editor::Drawing<(C, C), F>| self.ink(drawing))
    }

    /// The pixels under the drawings.
    pub open spec fn annotated(
        self,
        pixels: Map<(u32, u32), (u8, u8, u8, u8)>,
        drawings: Seq<crate::editor::Drawing<(C, C), F>>,
    ) -> Map<(u32, u32), (u8, u8, u8, u8)> {
        crate::raster::rendered(pixels, self.inks(drawings))
    }

    /// Whether the corners of a frame come out the same whichever two opposite ones it is given by,
    /// and in either order.
    pub open spec fn sorts_corners(self) -> bool {
        forall|x1: C, y1: C, x2: C, y2: C|
            {
                &&& #[trigger] (self.order)((x1, y1), (x2, y2)) == (self.order)((x2, y1), (x1, y2))
                &&& (self.order)((x1, y1), (x2, y2)) == (self.order)((x1, y2), (x2, y1))
            }
    }

    /// Whether sorting the corners of a frame and placing them in the picture can be exchanged.
    pub open spec fn sorts_before_or_after_growing(self) -> bool {
        forall|start: (C, C), end: (C, C)|
            (self.order)((self.grow)(start), (self.grow)(end)) == (
                (self.grow)((#[trigger] (self.order)(start, end)).0),
                (self.grow)((self.order)(start, end).1),
            )
    }
}

/// Functions that return the values of the arithmetic make the ink of the arithmetic.
pub(crate) proof fn lemma_ink_is_computed<
    C,
    F,
    G: Fn((C, C)) -> (C, C),
    O: Fn((C, C), (C, C)) -> ((C, C), (C, C)),
    S: Fn(Mark<(C, C)>) -> Vec<(i32, i32)>,
    B: Fn(Brush<F>) -> (i32, Color),
>(
    grow: G,
    order: O,
    sample: S,
    pen: B,
    arithmetic: Arithmetic<C, F>,
    drawing: crate::editor::Drawing<(C, C), F>,
    stroke: crate::raster::Stroke,
)
    requires
        computes(grow, order, sample, pen, arithmetic),
        crate::ink::inks(grow, order, sample, pen, drawing, stroke),
    ensures
        stroke@ == arithmetic.ink(drawing),
{
    let (shape, placed) = choose|
        shape: crate::outline::Shape<(C, C)>,
        placed: crate::outline::Shape<(C, C)>,
    |
        {
            &&& crate::outline::shows(shape, drawing)
            &&& #[trigger] crate::ink::places(grow, order, shape, placed)
            &&& crate::ink::samples(sample, crate::outline::outline(placed), stroke.lines@)
        };
    match drawing {
        crate::editor::Drawing::Freehand { points, style: _ } => {
            if points.len() > 1 {
                match placed {
                    crate::outline::Shape::Path(to) => {
                        assert(to@ =~= points.map_values(arithmetic.grow));
                    },
                    _ => {},
                }
            }
        },
        _ => {},
    }
    let marks = crate::outline::outline(placed);
    assert(marks =~= arithmetic.marks(drawing));
    assert forall|i: int| 0 <= i < marks.len() implies stroke@.lines[i] == (arithmetic.sample)(
        marks[i],
    ) by {
        assert(call_ensures(sample, (marks[i],), stroke.lines@[i]));
    }
    assert(stroke@ =~= arithmetic.ink(drawing));
}

/// Annotations are rendered in their order: rendering some of them, and then more over the result,
/// is rendering them all at once.
pub proof fn law_annotations_in_two_rounds<C, F>(
    arithmetic: Arithmetic<C, F>,
    pixels: Map<(u32, u32), (u8, u8, u8, u8)>,
    first: Seq<crate::editor::Drawing<(C, C), F>>,
    second: Seq<crate::editor::Drawing<(C, C), F>>,
)
    ensures
        arithmetic.annotated(pixels, first + second) == arithmetic.annotated(
            arithmetic.annotated(pixels, first),
            second,
        ),
{
    crate::raster::law_rendering_composes(
        pixels,
        arithmetic.inks(first),
        arithmetic.inks(second),
    );
    assert(arithmetic.inks(first + second) =~= arithmetic.inks(first) + arithmetic.inks(second));
}

/// The direction in which a rectangle is dragged makes no difference: it may be given by any two
/// opposite corners, in either order, among whatever else is drawn.
pub proof fn law_drag_direction_makes_no_difference<C, F>(
    arithmetic: Arithmetic<C, F>,
    pixels: Map<(u32, u32), (u8, u8, u8, u8)>,
    before: Seq<crate::editor::Drawing<(C, C), F>>,
    after: Seq<crate::editor::Drawing<(C, C), F>>,
    x1: C,
    y1: C,
    x2: C,
    y2: C,
    style: Brush<F>,
)
    requires
        arithmetic.sorts_corners(),
    ensures
        ({
            let shown = |start: (C, C), end: (C, C)|
                arithmetic.annotated(
                    pixels,
                    before.push(crate::editor::Drawing::Rectangle { start, end, style }) + after,
                );
            &&& shown((x2, y2), (x1, y1)) == shown((x1, y1), (x2, y2))
            &&& shown((x1, y2), (x2, y1)) == shown((x1, y1), (x2, y2))
            &&& shown((x2, y1), (x1, y2)) == shown((x1, y1), (x2, y2))
        }),
{
    let drawn = |start: (C, C), end: (C, C)|
        before.push(crate::editor::Drawing::Rectangle { start, end, style }) + after;
    let one = arithmetic.inks(drawn((x1, y1), (x2, y2)));
    assert((arithmetic.order)((x2, y1), (x1, y2)) == (arithmetic.order)((x1, y1), (x2, y2)));
    assert((arithmetic.order)((x1, y2), (x2, y1)) == (arithmetic.order)((x1, y1), (x2, y2)));
    assert((arithmetic.order)((x2, y2), (x1, y1)) == (arithmetic.order)((x1, y1), (x2, y2)));
    assert(arithmetic.inks(drawn((x2, y2), (x1, y1))) =~= one);
    assert(arithmetic.inks(drawn((x1, y2), (x2, y1))) =~= one);
    assert(arithmetic.inks(drawn((x2, y1), (x1, y2))) =~= one);
}

/// The drawing whose points are moved and whose brush is changed.
pub open spec fn redrawn<C, F>(
    drawing: crate::editor::Drawing<(C, C), F>,
    grow: spec_fn((C, C)) -> (C, C),
    thicken: spec_fn(Brush<F>) -> Brush<F>,
) -> crate::editor::Drawing<(C, C), F> {
    match drawing {
        crate::editor::Drawing::Freehand { points, style } => crate::editor::Drawing::Freehand {
            points: points.map_values(grow),
            style: thicken(style),
        },
        crate::editor::Drawing::Rectangle { start, end, style } => {
            crate::editor::Drawing::Rectangle {
                start: grow(start),
                end: grow(end),
                style: thicken(style),
            }
        },
    }
}

/// Whether `plain` is the arithmetic of a picture that is not scaled, and `scaled` differs from it
/// only in where it places points and in that its brushes are thicker.
pub open spec fn is_scaled<C, F>(
    scaled: Arithmetic<C, F>,
    plain: Arithmetic<C, F>,
    thicken: spec_fn(Brush<F>) -> Brush<F>,
) -> bool {
    &&& forall|point: (C, C)| #[trigger] (plain.grow)(point) == point
    &&& plain.order == scaled.order
    &&& plain.sample == scaled.sample
    &&& forall|brush: Brush<F>| #[trigger] (scaled.pen)(brush) == (plain.pen)(thicken(brush))
}

/// A scale can be applied to the annotations instead: rendering them at a scale gives what the
/// annotations give without it, once their points and their thickness are scaled.
pub proof fn law_scale_can_be_applied_to_the_annotations<C, F>(
    scaled: Arithmetic<C, F>,
    plain: Arithmetic<C, F>,
    thicken: spec_fn(Brush<F>) -> Brush<F>,
    pixels: Map<(u32, u32), (u8, u8, u8, u8)>,
    drawings: Seq<crate::editor::Drawing<(C, C), F>>,
)
    requires
        is_scaled(scaled, plain, thicken),
        scaled.sorts_before_or_after_growing(),
    ensures
        scaled.annotated(pixels, drawings) == plain.annotated(
            pixels,
            drawings.map_values(
                |drawing: crate::editor::Drawing<(C, C), F>| redrawn(drawing, scaled.grow, thicken),
            ),
        ),
{
    let moved = drawings.map_values(
        |drawing: crate::editor::Drawing<(C, C), F>| redrawn(drawing, scaled.grow, thicken),
    );
    assert forall|i: int| 0 <= i < drawings.len() implies scaled.inks(drawings)[i] == plain.inks(
        moved,
    )[i] by {
        let drawing = drawings[i];
        match drawing {
            crate::editor::Drawing::Freehand { points, style: _ } => {
                assert(points.map_values(scaled.grow).map_values(plain.grow) =~= points.map_values(
                    scaled.grow,
                ));
            },
            crate::editor::Drawing::Rectangle { start, end, style: _ } => {
                let corners = (scaled.order)(start, end);
                assert((scaled.order)((scaled.grow)(start), (scaled.grow)(end)) == (
                    (scaled.grow)(corners.0),
                    (scaled.grow)(corners.1),
                ));
            },
        }
        assert(scaled.marks(drawing) =~= plain.marks(moved[i]));
    }
    assert(scaled.inks(drawings) =~= plain.inks(moved));
}

/// Whether of two different coordinates one is less than the other, and not both.
pub open spec fn compares<C>(less: spec_fn(C, C) -> bool) -> bool {
    &&& forall|a: C, b: C| #[trigger] less(a, b) ==> !less(b, a)
    &&& forall|a: C, b: C| #[trigger] less(a, b) || less(b, a) || a == b
}

/// The lesser of two coordinates.
pub open spec fn lesser<C>(less: spec_fn(C, C) -> bool, a: C, b: C) -> C {
    if less(b, a) {
        b
    } else {
        a
    }
}

/// The greater of two coordinates.
pub open spec fn greater<C>(less: spec_fn(C, C) -> bool, a: C, b: C) -> C {
    if less(a, b) {
        b
    } else {
        a
    }
}

impl<C, F> Arithmetic<C, F> {
    /// Whether the corners of a frame are the lesser and the greater coordinates on each axis.
    pub open spec fn orders_by(self, less: spec_fn(C, C) -> bool) -> bool {
        forall|start: (C, C), end: (C, C)| #[trigger]
            (self.order)(start, end) == (
                (lesser(less, start.0, end.0), lesser(less, start.1, end.1)),
                (greater(less, start.0, end.0), greater(less, start.1, end.1)),
            )
    }

    /// Whether points are placed in the picture one axis at a time, and what lies before something
    /// on the preview does not lie beyond it in the picture.
    pub open spec fn grows_along(
        self,
        less: spec_fn(C, C) -> bool,
        across: spec_fn(C) -> C,
        down: spec_fn(C) -> C,
    ) -> bool {
        &&& forall|point: (C, C)| #[trigger]
            (self.grow)(point) == (across(point.0), down(point.1))
        &&& forall|a: C, b: C| #[trigger] less(a, b) ==> !less(across(b), across(a))
        &&& forall|a: C, b: C| #[trigger] less(a, b) ==> !less(down(b), down(a))
    }
}

/// Coordinates that compare sort the corners of a frame, whichever two opposite ones it is given
/// by.
pub proof fn law_comparing_sorts_corners<C, F>(
    arithmetic: Arithmetic<C, F>,
    less: spec_fn(C, C) -> bool,
)
    requires
        compares(less),
        arithmetic.orders_by(less),
    ensures
        arithmetic.sorts_corners(),
{
    assert forall|a: C, b: C| #[trigger] lesser(less, a, b) == lesser(less, b, a) by {
        assert(less(a, b) || less(b, a) || a == b);
    }
    assert forall|a: C, b: C| #[trigger] greater(less, a, b) == greater(less, b, a) by {
        assert(less(a, b) || less(b, a) || a == b);
    }
    assert forall|x1: C, y1: C, x2: C, y2: C|
        {
            &&& #[trigger] (arithmetic.order)((x1, y1), (x2, y2)) == (arithmetic.order)(
                (x2, y1),
                (x1, y2),
            )
            &&& (arithmetic.order)((x1, y1), (x2, y2)) == (arithmetic.order)((x1, y2), (x2, y1))
        } by {
        assert(lesser(less, x1, x2) == lesser(less, x2, x1));
        assert(lesser(less, y1, y2) == lesser(less, y2, y1));
        assert(greater(less, x1, x2) == greater(less, x2, x1));
        assert(greater(less, y1, y2) == greater(less, y2, y1));
    }
}

/// Where placing keeps the order of the coordinates, the corners of a frame may be sorted before or
/// after they are placed.
pub proof fn law_growing_keeps_corners_sorted<C, F>(
    arithmetic: Arithmetic<C, F>,
    less: spec_fn(C, C) -> bool,
    across: spec_fn(C) -> C,
    down: spec_fn(C) -> C,
)
    requires
        compares(less),
        arithmetic.orders_by(less),
        arithmetic.grows_along(less, across, down),
    ensures
        arithmetic.sorts_before_or_after_growing(),
{
    assert forall|start: (C, C), end: (C, C)|
        (arithmetic.order)((arithmetic.grow)(start), (arithmetic.grow)(end)) == (
            (arithmetic.grow)((#[trigger] (arithmetic.order)(start, end)).0),
            (arithmetic.grow)((arithmetic.order)(start, end).1),
        ) by {
        lemma_growing_keeps_the_lesser(less, across, start.0, end.0);
        lemma_growing_keeps_the_lesser(less, down, start.1, end.1);
    }
}

/// What grows without changing its order has the grown lesser and the grown greater.
proof fn lemma_growing_keeps_the_lesser<C>(
    less: spec_fn(C, C) -> bool,
    grow: spec_fn(C) -> C,
    a: C,
    b: C,
)
    requires
        compares(less),
        forall|a: C, b: C| #[trigger] less(a, b) ==> !less(grow(b), grow(a)),
    ensures
        grow(lesser(less, a, b)) == lesser(less, grow(a), grow(b)),
        grow(greater(less, a, b)) == greater(less, grow(a), grow(b)),
{
    assert(less(a, b) || less(b, a) || a == b);
    assert(less(grow(a), grow(b)) || less(grow(b), grow(a)) || grow(a) == grow(b));
}

/// Functions that return the value of the arithmetic for each input compute it: nothing more is
/// asked of them.
pub proof fn law_returning_the_values_is_computing<
    C,
    F,
    G: Fn((C, C)) -> (C, C),
    O: Fn((C, C), (C, C)) -> ((C, C), (C, C)),
    S: Fn(Mark<(C, C)>) -> Vec<(i32, i32)>,
    B: Fn(Brush<F>) -> (i32, Color),
>(grow: G, order: O, sample: S, pen: B, arithmetic: Arithmetic<C, F>)
    requires
        forall|point: (C, C), to: (C, C)| #[trigger]
            call_ensures(grow, (point,), to) ==> to == (arithmetic.grow)(point),
        forall|start: (C, C), end: (C, C), corners: ((C, C), (C, C))| #[trigger]
            call_ensures(order, (start, end), corners) ==> corners == (arithmetic.order)(
                start,
                end,
            ),
        forall|mark: Mark<(C, C)>, line: Vec<(i32, i32)>| #[trigger]
            call_ensures(sample, (mark,), line) ==> line@ == (arithmetic.sample)(mark),
        forall|brush: Brush<F>, painted: (i32, Color)| #[trigger]
            call_ensures(pen, (brush,), painted) ==> painted == (arithmetic.pen)(brush),
    ensures
        computes(grow, order, sample, pen, arithmetic),
{
}

/// The ink of a line of the pen: every point is placed in the picture, and the line is sampled from
/// each to the next, a single point as a dot, in the thickness and the colour of the brush.
pub proof fn law_ink_of_the_pen<C, F>(
    arithmetic: Arithmetic<C, F>,
    points: Seq<(C, C)>,
    style: Brush<F>,
)
    ensures
        ({
            let ink = arithmetic.ink(crate::editor::Drawing::Freehand { points, style });
            &&& (ink.radius, ink.color) == (arithmetic.pen)(style)
            &&& points.len() == 0 ==> ink.lines.len() == 0
            &&& points.len() == 1 ==> ink.lines.len() == 1 && ink.lines[0] == (arithmetic.sample)(
                Mark::Dot((arithmetic.grow)(points[0])),
            )
            &&& points.len() >= 2 ==> ink.lines.len() == points.len() - 1 && forall|i: int|
                0 <= i < points.len() - 1 ==> #[trigger] ink.lines[i] == (arithmetic.sample)(
                    Mark::Line((arithmetic.grow)(points[i]), (arithmetic.grow)(points[i + 1])),
                )
        }),
{
}

/// The ink of a rectangle: its corners are put in order and placed in the picture, and its four
/// sides are sampled, in the thickness and the colour of the brush.
pub proof fn law_ink_of_a_rectangle<C, F>(
    arithmetic: Arithmetic<C, F>,
    start: (C, C),
    end: (C, C),
    style: Brush<F>,
)
    ensures
        ({
            let ink = arithmetic.ink(crate::editor::Drawing::Rectangle { start, end, style });
            let from = (arithmetic.grow)((arithmetic.order)(start, end).0);
            let to = (arithmetic.grow)((arithmetic.order)(start, end).1);
            &&& (ink.radius, ink.color) == (arithmetic.pen)(style)
            &&& ink.lines.len() == 4
            &&& ink.lines[0] == (arithmetic.sample)(Mark::Line(from, (to.0, from.1)))
            &&& ink.lines[1] == (arithmetic.sample)(Mark::Line((to.0, from.1), to))
            &&& ink.lines[2] == (arithmetic.sample)(Mark::Line(to, (from.0, to.1)))
            &&& ink.lines[3] == (arithmetic.sample)(Mark::Line((from.0, to.1), from))
        }),
{
}

/// The picture shows every drawing: a pixel within the radius of any centre of any line of a
/// drawing has the colour of its brush, opaque, unless a later drawing comes as near to it.
pub proof fn law_picture_shows_every_drawing<C, F>(
    arithmetic: Arithmetic<C, F>,
    pixels: Map<(u32, u32), (u8, u8, u8, u8)>,
    drawings: Seq<crate::editor::Drawing<(C, C), F>>,
    n: int,
    l: int,
    c: int,
    at: (u32, u32),
)
    requires
        pixels.contains_key(at),
        0 <= n < drawings.len(),
        0 <= l < arithmetic.ink(drawings[n]).lines.len(),
        0 <= c < arithmetic.ink(drawings[n]).lines[l].len(),
        ({
            let ink = arithmetic.ink(drawings[n]);
            let (dx, dy) = (at.0 - ink.lines[l][c].0, at.1 - ink.lines[l][c].1);
            ink.radius >= 0 && dx * dx + dy * dy <= ink.radius * ink.radius
        }),
        forall|t: int|
            n < t < drawings.len() ==> !arithmetic.ink(#[trigger] drawings[t]).reaches(at),
    ensures
        arithmetic.annotated(pixels, drawings).dom() == pixels.dom(),
        ({
            let color = arithmetic.ink(drawings[n]).color;
            arithmetic.annotated(pixels, drawings)[at] == (
                color.red,
                color.green,
                color.blue,
                255u8,
            )
        }),
{
    let strokes = arithmetic.inks(drawings);
    let ink = arithmetic.ink(drawings[n]);
    assert(strokes.len() == drawings.len());
    assert(strokes[n] == ink);
    assert(crate::raster::covers(ink.lines[l][c], ink.radius, at));
    assert(crate::raster::line_covers(ink.lines[l], ink.radius, at));
    assert(strokes[n].reaches(at));
    assert forall|t: int| n < t < strokes.len() implies !(#[trigger] strokes[t]).reaches(at) by {
        assert(strokes[t] == arithmetic.ink(drawings[t]));
    }
    crate::raster::law_later_strokes_cover_earlier_ones(pixels, strokes, n, at);
    assert(arithmetic.annotated(pixels, drawings).dom() =~= pixels.dom());
}

/// A pixel that no drawing reaches keeps its colour.
pub proof fn law_picture_shows_nothing_else<C, F>(
    arithmetic: Arithmetic<C, F>,
    pixels: Map<(u32, u32), (u8, u8, u8, u8)>,
    drawings: Seq<crate::editor::Drawing<(C, C), F>>,
    at: (u32, u32),
)
    requires
        pixels.contains_key(at),
        forall|t: int|
            0 <= t < drawings.len() ==> !arithmetic.ink(#[trigger] drawings[t]).reaches(at),
    ensures
        arithmetic.annotated(pixels, drawings)[at] == pixels[at],
{
    let strokes = arithmetic.inks(drawings);
    assert forall|t: int| 0 <= t < strokes.len() implies !(#[trigger] strokes[t]).reaches(at) by {
        assert(strokes[t] == arithmetic.ink(drawings[t]));
    }
    crate::raster::law_only_strokes_change_pixels(pixels, strokes, at);
}

} // verus!
