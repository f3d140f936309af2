//! Painting strokes into a picture.
use crate::picture::{image_clone, image_dimensions, image_put_pixel, Picture};
use vstd::prelude::*;

verus! {

/// The colour of a stroke. What is painted in it is opaque.
#[derive(Clone, Copy, PartialEq, Eq, Structural, Debug)]
pub struct Color {
    pub red: u8,
    pub green: u8,
    pub blue: u8,
}

/// The pixel that a colour paints.
pub open spec fn opaque(color: Color) -> (u8, u8, u8, u8) {
    (color.red, color.green, color.blue, 255)
}

/// Whether a disc reaches a pixel: its centre is no farther away than the radius.
pub open spec fn covers(center: (i32, i32), radius: i32, at: (u32, u32)) -> bool {
    let dx = at.0 - center.0;
    let dy = at.1 - center.1;
    radius >= 0 && dx * dx + dy * dy <= radius * radius
}

/// The pixels after a disc was painted over them.
pub open spec fn with_disc(
    pixels: Map<(u32, u32), (u8, u8, u8, u8)>,
    center: (i32, i32),
    radius: i32,
    color: Color,
) -> Map<(u32, u32), (u8, u8, u8, u8)> {
    Map::new(
        |at: (u32, u32)| pixels.contains_key(at),
        |at: (u32, u32)|
            if covers(center, radius, at) {
                opaque(color)
            } else {
                pixels[at]
            },
    )
}

/// Whether any of the discs of one radius around these centres reaches a pixel.
pub open spec fn line_covers(centers: Seq<(i32, i32)>, radius: i32, at: (u32, u32)) -> bool {
    exists|i: int| 0 <= i < centers.len() && covers(#[trigger] centers[i], radius, at)
}

/// The pixels after a line of discs was painted over them.
pub open spec fn with_line(
    pixels: Map<(u32, u32), (u8, u8, u8, u8)>,
    centers: Seq<(i32, i32)>,
    radius: i32,
    color: Color,
) -> Map<(u32, u32), (u8, u8, u8, u8)> {
    Map::new(
        |at: (u32, u32)| pixels.contains_key(at),
        |at: (u32, u32)|
            if line_covers(centers, radius, at) {
                opaque(color)
            } else {
                pixels[at]
            },
    )
}

/// The ink of one annotation: lines, each given by the centres of its discs, in one thickness
/// and one colour.
pub struct Stroke {
    pub lines: Vec<Vec<(i32, i32)>>,
    pub radius: i32,
    pub color: Color,
}

/// The model of a stroke.
#[verifier::ext_equal]
pub struct Ink {
    pub lines: Seq<Seq<(i32, i32)>>,
    pub radius: i32,
    pub color: Color,
}

impl View for Stroke {
    type V = Ink;

    open spec fn view(&self) -> Ink {
        Ink {
            lines: self.lines@.map_values(|line: Vec<(i32, i32)>| line@),
            radius: self.radius,
            color: self.color,
        }
    }
}

/// The models of strokes.
pub open spec fn models(strokes: Seq<Stroke>) -> Seq<Ink> {
    strokes.map_values(|stroke: Stroke| stroke@)
}

impl Ink {
    /// Whether one of the first `count` lines reaches a pixel.
    pub open spec fn reaches_within(self, count: int, at: (u32, u32)) -> bool {
        exists|i: int| 0 <= i < count && line_covers(#[trigger] self.lines[i], self.radius, at)
    }

    /// Whether the stroke reaches a pixel.
    pub open spec fn reaches(self, at: (u32, u32)) -> bool {
        self.reaches_within(self.lines.len() as int, at)
    }
}

/// The colour of the last stroke that reaches a pixel.
pub open spec fn topmost(strokes: Seq<Ink>, at: (u32, u32)) -> Option<Color>
    decreases strokes.len(),
{
    if strokes.len() == 0 {
        None
    } else if strokes.last().reaches(at) {
        Some(strokes.last().color)
    } else {
        topmost(strokes.drop_last(), at)
    }
}

/// The pixels under these strokes: each shows the last stroke that reaches it, or what was there.
pub open spec fn rendered(
    pixels: Map<(u32, u32), (u8, u8, u8, u8)>,
    strokes: Seq<Ink>,
) -> Map<(u32, u32), (u8, u8, u8, u8)> {
    Map::new(
        |at: (u32, u32)| pixels.contains_key(at),
        |at: (u32, u32)|
            match topmost(strokes, at) {
                Some(color) => opaque(color),
                None => pixels[at],
            },
    )
}

/// A pixel that a disc covers lies in the square around the disc.
proof fn lemma_disc_in_square(dx: int, dy: int, radius: int)
    requires
        radius >= 0,
        dx * dx + dy * dy <= radius * radius,
    ensures
        -radius <= dx <= radius,
        -radius <= dy <= radius,
{
    assert(-radius <= dx <= radius && -radius <= dy <= radius) by (nonlinear_arith)
        requires
            radius >= 0,
            dx * dx + dy * dy <= radius * radius,
    ;
}

/// The squares of two coordinates inside the square around a disc can be added.
proof fn lemma_squares_fit(dx: int, dy: int, radius: int)
    requires
        0 <= radius <= i32::MAX,
        -radius <= dx <= radius,
        -radius <= dy <= radius,
    ensures
        0 <= dx * dx <= 0x3fff_ffff_0000_0001,
        0 <= dy * dy <= 0x3fff_ffff_0000_0001,
        0 <= radius * radius <= 0x3fff_ffff_0000_0001,
{
    assert(0 <= dx * dx <= radius * radius && 0 <= dy * dy <= radius * radius) by (nonlinear_arith)
        requires
            0 <= radius,
            -radius <= dx <= radius,
            -radius <= dy <= radius,
    ;
    assert(radius * radius <= 0x7fff_ffff * 0x7fff_ffff) by (nonlinear_arith)
        requires
            0 <= radius <= 0x7fff_ffff,
    ;
}

/// Paints the disc of the given centre and radius: every pixel of the picture within `radius` of
/// the centre takes the colour, and no other changes. A negative radius paints nothing. Distances
/// are taken in 64 bits, where those of no centre and radius overflow.
pub fn paint_circle(
    picture: &mut Picture,
    center_x: i32,
    center_y: i32,
    radius: i32,
    color: Color,
)
    ensures
        final(picture).size() == old(picture).size(),
        final(picture).pixels() == with_disc(
            old(picture).pixels(),
            (center_x, center_y),
            radius,
            color,
        ),
{
    let (width, height): (u32, u32) = image_dimensions(picture);
    let reach: i64 = radius as i64;
    let top: i64 = center_y as i64 - reach;
    let bottom: i64 = center_y as i64 + reach;
    let left: i64 = center_x as i64 - reach;
    let right: i64 = center_x as i64 + reach;
    let mut y: i64 = if top > 0 { top } else { 0 };
    let ghost before = picture.pixels();
    let ghost center = (center_x, center_y);
    proof {
        assert forall|at: (u32, u32)| #[trigger]
            before.contains_key(at) && covers(center, radius, at) implies y <= at.1 by {
            lemma_disc_in_square(at.0 - center_x, at.1 - center_y, radius as int);
        }
    }
    while y <= bottom && y < height as i64
        invariant
            0 <= y,
            reach == radius,
            top == center_y - reach,
            bottom == center_y + reach,
            left == center_x - reach,
            right == center_x + reach,
            top <= y,
            center == (center_x, center_y),
            picture.size() == (width, height),
            forall|at: (u32, u32)| #[trigger]
                before.contains_key(at) <==> at.0 < width && at.1 < height,
            picture.pixels().dom() == before.dom(),
            forall|at: (u32, u32)| #[trigger]
                before.contains_key(at) ==> picture.pixels()[at] == if covers(center, radius, at)
                    && at.1 < y {
                    opaque(color)
                } else {
                    before[at]
                },
        decreases bottom + 1 - y,
    {
        let mut x: i64 = if left > 0 { left } else { 0 };
        proof {
            assert forall|at: (u32, u32)| #[trigger]
                before.contains_key(at) && covers(center, radius, at) implies x <= at.0 by {
                lemma_disc_in_square(at.0 - center_x, at.1 - center_y, radius as int);
            }
        }
        while x <= right && x < width as i64
            invariant
                0 <= x,
                0 <= y < height,
                y <= bottom,
                reach == radius,
                top == center_y - reach,
                bottom == center_y + reach,
                left == center_x - reach,
                right == center_x + reach,
                top <= y,
                left <= x,
                center == (center_x, center_y),
                picture.size() == (width, height),
                forall|at: (u32, u32)| #[trigger]
                    before.contains_key(at) <==> at.0 < width && at.1 < height,
                picture.pixels().dom() == before.dom(),
                forall|at: (u32, u32)| #[trigger]
                    before.contains_key(at) ==> picture.pixels()[at] == if covers(
                        center,
                        radius,
                        at,
                    ) && (at.1 < y || at.1 == y && at.0 < x) {
                        opaque(color)
                    } else {
                        before[at]
                    },
            decreases right + 1 - x,
        {
            let dx: i64 = x - center_x as i64;
            let dy: i64 = y - center_y as i64;
            proof {
                lemma_squares_fit(dx as int, dy as int, reach as int);
            }
            if dx * dx + dy * dy <= reach * reach {
                image_put_pixel(
                    picture,
                    x as u32,
                    y as u32,
                    (color.red, color.green, color.blue, 255),
                );
            }
            x = x + 1;
        }
        proof {
            assert forall|at: (u32, u32)| #[trigger]
                before.contains_key(at) && covers(center, radius, at) implies at.0 < x by {
                lemma_disc_in_square(at.0 - center_x, at.1 - center_y, radius as int);
            }
        }
        y = y + 1;
    }
    proof {
        assert forall|at: (u32, u32)| #[trigger]
            before.contains_key(at) && covers(center, radius, at) implies at.1 < y by {
            lemma_disc_in_square(at.0 - center_x, at.1 - center_y, radius as int);
        }
        assert(picture.pixels() =~= with_disc(before, center, radius, color));
    }
}

/// Paints a disc around each of the centres that sample a line. A pixel takes the colour exactly
/// when one of the discs reaches it.
pub fn draw_line(picture: &mut Picture, centers: &Vec<(i32, i32)>, radius: i32, color: Color)
    ensures
        final(picture).size() == old(picture).size(),
        final(picture).pixels() == with_line(old(picture).pixels(), centers@, radius, color),
{
    let ghost before = picture.pixels();
    let ghost size = picture.size();
    let mut step: usize = 0;
    assert(with_line(before, centers@.take(0), radius, color) =~= before);
    while step < centers.len()
        invariant
            step <= centers.len(),
            picture.size() == size,
            picture.pixels() == with_line(before, centers@.take(step as int), radius, color),
        decreases centers.len() - step,
    {
        let center: (i32, i32) = centers[step];
        let ghost painted = picture.pixels();
        paint_circle(picture, center.0, center.1, radius, color);
        proof {
            let done = centers@.take(step as int);
            let next = centers@.take(step + 1);
            assert forall|at: (u32, u32)| true implies line_covers(next, radius, at) == (
            line_covers(done, radius, at) || covers(center, radius, at)) by {
                assert(next[step as int] == center);
                assert(forall|i: int| 0 <= i < step ==> #[trigger] done[i] == next[i]);
                assert(forall|i: int| 0 <= i < step ==> done[i] == #[trigger] next[i]);
            }
            assert(picture.pixels() =~= with_line(before, next, radius, color));
        }
        step = step + 1;
    }
    assert(centers@.take(step as int) =~= centers@);
}

/// Paints the lines of one annotation.
fn draw_stroke(picture: &mut Picture, stroke: &Stroke)
    ensures
        final(picture).size() == old(picture).size(),
        final(picture).pixels() == Map::new(
            |at: (u32, u32)| old(picture).pixels().contains_key(at),
            |at: (u32, u32)|
                if stroke@.reaches(at) {
                    opaque(stroke.color)
                } else {
                    old(picture).pixels()[at]
                },
        ),
{
    let ghost before = picture.pixels();
    let ghost size = picture.size();
    let mut done: usize = 0;
    while done < stroke.lines.len()
        invariant
            done <= stroke.lines.len(),
            picture.size() == size,
            picture.pixels().dom() == before.dom(),
            forall|at: (u32, u32)| #[trigger]
                before.contains_key(at) ==> picture.pixels()[at] == if stroke@.reaches_within(
                    done as int,
                    at,
                ) {
                    opaque(stroke.color)
                } else {
                    before[at]
                },
        decreases stroke.lines.len() - done,
    {
        draw_line(picture, &stroke.lines[done], stroke.radius, stroke.color);
        proof {
            assert forall|at: (u32, u32)| true implies stroke@.reaches_within(done + 1, at) == (
            stroke@.reaches_within(done as int, at) || line_covers(
                stroke.lines@[done as int]@,
                stroke.radius,
                at,
            )) by {
                assert(stroke@.lines[done as int] == stroke.lines@[done as int]@);
            }
            assert(picture.pixels().dom() =~= before.dom());
        }
        done = done + 1;
    }
    assert(picture.pixels() =~= Map::new(
        |at: (u32, u32)| before.contains_key(at),
        |at: (u32, u32)|
            if stroke@.reaches(at) {
                opaque(stroke.color)
            } else {
                before[at]
            },
    ));
}

/// Paints the strokes, in order, over a copy of the source. The copy has the size of the source;
/// each of its pixels shows the last stroke that reaches it, and the source where none does.
pub fn render_strokes(source: &Picture, strokes: &Vec<Stroke>) -> (result: Picture)
    ensures
        result.size() == source.size(),
        result.pixels() == rendered(source.pixels(), models(strokes@)),
{
    let mut result: Picture = image_clone(source);
    let mut done: usize = 0;
    assert(rendered(source.pixels(), models(strokes@).take(0)) =~= source.pixels());
    while done < strokes.len()
        invariant
            done <= strokes.len(),
            result.size() == source.size(),
            result.pixels() == rendered(source.pixels(), models(strokes@).take(done as int)),
        decreases strokes.len() - done,
    {
        draw_stroke(&mut result, &strokes[done]);
        proof {
            let next = models(strokes@).take(done + 1);
            assert(next.drop_last() =~= models(strokes@).take(done as int));
            assert(next.last() == strokes@[done as int]@);
            assert(result.pixels() =~= rendered(source.pixels(), next));
        }
        done = done + 1;
    }
    assert(models(strokes@).take(done as int) =~= models(strokes@));
    result
}

/// Nothing drawn changes nothing.
pub proof fn law_no_strokes_no_change(pixels: Map<(u32, u32), (u8, u8, u8, u8)>)
    ensures
        rendered(pixels, Seq::empty()) == pixels,
{
    assert(rendered(pixels, Seq::empty()) =~= pixels);
}

/// Rendering adds and removes no pixel; one that no stroke reaches keeps its colour, and one that
/// some stroke reaches is opaque in the colour of a stroke that reaches it.
pub proof fn law_only_strokes_change_pixels(
    pixels: Map<(u32, u32), (u8, u8, u8, u8)>,
    strokes: Seq<Ink>,
    at: (u32, u32),
)
    ensures
        rendered(pixels, strokes).dom() == pixels.dom(),
        pixels.contains_key(at) && (forall|i: int|
            0 <= i < strokes.len() ==> !(#[trigger] strokes[i]).reaches(at)) ==> rendered(
            pixels,
            strokes,
        )[at] == pixels[at],
        pixels.contains_key(at) && (exists|i: int|
            0 <= i < strokes.len() && (#[trigger] strokes[i]).reaches(at)) ==> (exists|i: int|
            0 <= i < strokes.len() && (#[trigger] strokes[i]).reaches(at) && rendered(
                pixels,
                strokes,
            )[at] == opaque(strokes[i].color)),
{
    assert(rendered(pixels, strokes).dom() =~= pixels.dom());
    lemma_topmost(strokes, at);
}

/// The topmost colour is that of the last stroke that reaches the pixel.
proof fn lemma_topmost(strokes: Seq<Ink>, at: (u32, u32))
    ensures
        match topmost(strokes, at) {
            Some(color) => exists|i: int|
                {
                    &&& 0 <= i < strokes.len()
                    &&& (#[trigger] strokes[i]).reaches(at)
                    &&& strokes[i].color == color
                    &&& forall|j: int|
                        i < j < strokes.len() ==> !(#[trigger] strokes[j]).reaches(at)
                },
            None => forall|i: int| 0 <= i < strokes.len() ==> !(#[trigger] strokes[i]).reaches(at),
        },
    decreases strokes.len(),
{
    if strokes.len() > 0 {
        let before = strokes.drop_last();
        lemma_topmost(before, at);
        assert(forall|i: int| 0 <= i < before.len() ==> #[trigger] before[i] == strokes[i]);
        assert(strokes[strokes.len() - 1] == strokes.last());
        if !strokes.last().reaches(at) {
            if topmost(before, at) is Some {
                let i = choose|i: int|
                    {
                        &&& 0 <= i < before.len()
                        &&& (#[trigger] before[i]).reaches(at)
                        &&& Some(before[i].color) == topmost(before, at)
                        &&& forall|j: int|
                            i < j < before.len() ==> !(#[trigger] before[j]).reaches(at)
                    };
                assert(strokes[i].reaches(at));
                assert forall|j: int| i < j < strokes.len() implies !(
                #[trigger] strokes[j]).reaches(at) by {
                    if j < before.len() {
                        assert(before[j] == strokes[j]);
                    }
                }
            } else {
                assert forall|i: int| 0 <= i < strokes.len() implies !(
                #[trigger] strokes[i]).reaches(at) by {
                    if i < before.len() {
                        assert(before[i] == strokes[i]);
                    }
                }
            }
        }
    }
}

/// Later strokes are painted over earlier ones: where two strokes reach a pixel and none after the
/// second does, the pixel shows the second.
pub proof fn law_later_strokes_cover_earlier_ones(
    pixels: Map<(u32, u32), (u8, u8, u8, u8)>,
    strokes: Seq<Ink>,
    last: int,
    at: (u32, u32),
)
    requires
        pixels.contains_key(at),
        0 <= last < strokes.len(),
        strokes[last].reaches(at),
        forall|j: int| last < j < strokes.len() ==> !(#[trigger] strokes[j]).reaches(at),
    ensures
        rendered(pixels, strokes)[at] == opaque(strokes[last].color),
{
    lemma_topmost(strokes, at);
}

/// Rendering strokes in two rounds, the second over the result of the first, is the same as
/// rendering them all at once. In particular the last stroke is painted over the picture without
/// it.
pub proof fn law_rendering_composes(
    pixels: Map<(u32, u32), (u8, u8, u8, u8)>,
    first: Seq<Ink>,
    second: Seq<Ink>,
)
    ensures
        rendered(rendered(pixels, first), second) == rendered(pixels, first + second),
{
    assert forall|at: (u32, u32)| true implies topmost(first + second, at) == (match topmost(
        second,
        at,
    ) {
        Some(color) => Some(color),
        None => topmost(first, at),
    }) by {
        lemma_topmost_of_sum(first, second, at);
    }
    assert(rendered(rendered(pixels, first), second) =~= rendered(pixels, first + second));
}

proof fn lemma_topmost_of_sum(first: Seq<Ink>, second: Seq<Ink>, at: (u32, u32))
    ensures
        topmost(first + second, at) == (match topmost(second, at) {
            Some(color) => Some(color),
            None => topmost(first, at),
        }),
    decreases second.len(),
{
    if second.len() == 0 {
        assert(first + second =~= first);
    } else {
        lemma_topmost_of_sum(first, second.drop_last(), at);
        assert((first + second).drop_last() =~= first + second.drop_last());
        assert((first + second).last() == second.last());
    }
}

/// Painting the same disc again changes nothing more, and a disc of radius zero is a single pixel.
pub proof fn law_disc(
    pixels: Map<(u32, u32), (u8, u8, u8, u8)>,
    center: (i32, i32),
    radius: i32,
    color: Color,
    at: (u32, u32),
)
    ensures
        with_disc(with_disc(pixels, center, radius, color), center, radius, color) == with_disc(
            pixels,
            center,
            radius,
            color,
        ),
        covers(center, 0, at) <==> at.0 == center.0 && at.1 == center.1,
        radius < 0 ==> with_disc(pixels, center, radius, color) == pixels,
{
    assert(with_disc(with_disc(pixels, center, radius, color), center, radius, color)
        =~= with_disc(pixels, center, radius, color));
    let dx = at.0 - center.0;
    let dy = at.1 - center.1;
    assert(dx * dx + dy * dy <= 0 <==> dx == 0 && dy == 0) by (nonlinear_arith);
    if radius < 0 {
        assert(with_disc(pixels, center, radius, color) =~= pixels);
    }
}

/// A disc is what lies within its radius: a pixel whose squared distance from the centre is at most
/// the square of the radius takes the colour, opaque, and any other stays as it is.
pub proof fn law_disc_is_what_lies_within_its_radius(
    pixels: Map<(u32, u32), (u8, u8, u8, u8)>,
    center: (i32, i32),
    radius: i32,
    color: Color,
    at: (u32, u32),
)
    ensures
        with_disc(pixels, center, radius, color).dom() == pixels.dom(),
        pixels.contains_key(at) && radius >= 0 && (at.0 - center.0) * (at.0 - center.0) + (at.1
            - center.1) * (at.1 - center.1) <= radius * radius ==> with_disc(
            pixels,
            center,
            radius,
            color,
        )[at] == (color.red, color.green, color.blue, 255u8),
        pixels.contains_key(at) && (radius < 0 || (at.0 - center.0) * (at.0 - center.0) + (at.1
            - center.1) * (at.1 - center.1) > radius * radius) ==> with_disc(
            pixels,
            center,
            radius,
            color,
        )[at] == pixels[at],
{
    assert(with_disc(pixels, center, radius, color).dom() =~= pixels.dom());
}

/// A disc ends at its radius: in the row and in the column of its centre it reaches the pixels that
/// are the radius away, and nowhere a pixel that is farther away on either axis.
pub proof fn law_disc_ends_at_its_radius(center: (i32, i32), radius: i32, at: (u32, u32))
    requires
        radius >= 0,
    ensures
        at.1 == center.1 && -radius <= at.0 - center.0 <= radius ==> covers(center, radius, at),
        at.0 == center.0 && -radius <= at.1 - center.1 <= radius ==> covers(center, radius, at),
        at.0 - center.0 > radius || center.0 - at.0 > radius ==> !covers(center, radius, at),
        at.1 - center.1 > radius || center.1 - at.1 > radius ==> !covers(center, radius, at),
{
    let (dx, dy, r) = (at.0 - center.0, at.1 - center.1, radius as int);
    assert(dy == 0 && -r <= dx <= r ==> dx * dx + dy * dy <= r * r) by (nonlinear_arith)
        requires
            r >= 0,
    ;
    assert(dx == 0 && -r <= dy <= r ==> dx * dx + dy * dy <= r * r) by (nonlinear_arith)
        requires
            r >= 0,
    ;
    assert(dx > r || -dx > r || dy > r || -dy > r ==> dx * dx + dy * dy > r * r)
        by (nonlinear_arith)
        requires
            r >= 0,
    ;
}

/// A wider disc contains a narrower one with the same centre, and more: the pixels that are its
/// radius away in the row of the centre.
pub proof fn law_wider_disc_contains_narrower(
    center: (i32, i32),
    narrow: i32,
    wide: i32,
    at: (u32, u32),
)
    requires
        0 <= narrow < wide,
    ensures
        covers(center, narrow, at) ==> covers(center, wide, at),
        at.1 == center.1 && (at.0 - center.0 == wide || center.0 - at.0 == wide) ==> covers(
            center,
            wide,
            at,
        ) && !covers(center, narrow, at),
{
    law_disc_ends_at_its_radius(center, narrow, at);
    law_disc_ends_at_its_radius(center, wide, at);
    assert(narrow * narrow <= wide * wide) by (nonlinear_arith)
        requires
            0 <= narrow < wide,
    ;
}

/// A disc is round: it reaches every pixel that is no farther from its centre than one that it
/// reaches, wherever it lies.
pub proof fn law_disc_is_round(
    center: (i32, i32),
    at: (u32, u32),
    center2: (i32, i32),
    at2: (u32, u32),
    radius: i32,
)
    requires
        covers(center, radius, at),
        (at2.0 - center2.0) * (at2.0 - center2.0) + (at2.1 - center2.1) * (at2.1 - center2.1) <= (
        at.0 - center.0) * (at.0 - center.0) + (at.1 - center.1) * (at.1 - center.1),
    ensures
        covers(center2, radius, at2),
{
}

/// A line reaches all that the disc around any of its centres reaches, however many there are, and
/// nothing else.
pub proof fn law_line_is_all_its_discs(
    pixels: Map<(u32, u32), (u8, u8, u8, u8)>,
    centers: Seq<(i32, i32)>,
    radius: i32,
    color: Color,
    at: (u32, u32),
)
    requires
        pixels.contains_key(at),
    ensures
        with_line(pixels, centers, radius, color).dom() == pixels.dom(),
        forall|i: int|
            0 <= i < centers.len() && radius >= 0 && (at.0 - (#[trigger] centers[i]).0) * (at.0
                - centers[i].0) + (at.1 - centers[i].1) * (at.1 - centers[i].1) <= radius * radius
                ==> line_covers(centers, radius, at) && with_line(
                pixels,
                centers,
                radius,
                color,
            )[at] == (color.red, color.green, color.blue, 255u8),
        (forall|i: int|
            0 <= i < centers.len() ==> radius < 0 || (at.0 - (#[trigger] centers[i]).0) * (at.0
                - centers[i].0) + (at.1 - centers[i].1) * (at.1 - centers[i].1) > radius * radius)
            ==> !line_covers(centers, radius, at) && with_line(pixels, centers, radius, color)[at]
            == pixels[at],
{
    assert(with_line(pixels, centers, radius, color).dom() =~= pixels.dom());
    assert forall|i: int|
        0 <= i < centers.len() && radius >= 0 && (at.0 - (#[trigger] centers[i]).0) * (at.0
            - centers[i].0) + (at.1 - centers[i].1) * (at.1 - centers[i].1) <= radius
            * radius implies line_covers(centers, radius, at) by {
        assert(covers(centers[i], radius, at));
    }
}

/// A line through two lists of centres, one after the other, reaches what either of them reaches.
pub proof fn law_joined_lines_reach_what_either_reaches(
    first: Seq<(i32, i32)>,
    second: Seq<(i32, i32)>,
    radius: i32,
    at: (u32, u32),
)
    ensures
        line_covers(first + second, radius, at) <==> line_covers(first, radius, at) || line_covers(
            second,
            radius,
            at,
        ),
{
    let both = first + second;
    if line_covers(first, radius, at) {
        let i = choose|i: int| 0 <= i < first.len() && covers(#[trigger] first[i], radius, at);
        assert(both[i] == first[i]);
    }
    if line_covers(second, radius, at) {
        let i = choose|i: int| 0 <= i < second.len() && covers(#[trigger] second[i], radius, at);
        assert(both[first.len() + i] == second[i]);
    }
    if line_covers(both, radius, at) {
        let i = choose|i: int| 0 <= i < both.len() && covers(#[trigger] both[i], radius, at);
        if i < first.len() {
            assert(both[i] == first[i]);
        } else {
            assert(both[i] == second[i - first.len()]);
        }
    }
}

/// The model of a stroke has every centre of every line, and its thickness and colour; there is one
/// for each stroke, in their order.
pub proof fn law_models_keep_every_centre(strokes: Seq<Stroke>)
    ensures
        models(strokes).len() == strokes.len(),
        forall|s: int|
            0 <= s < strokes.len() ==> {
                &&& (#[trigger] models(strokes)[s]).radius == strokes[s].radius
                &&& models(strokes)[s].color == strokes[s].color
                &&& models(strokes)[s].lines.len() == strokes[s].lines@.len()
            },
        forall|s: int, l: int|
            0 <= s < strokes.len() && 0 <= l < strokes[s].lines@.len() ==> #[trigger] models(
                strokes,
            )[s].lines[l] == strokes[s].lines@[l]@,
{
}

/// Every disc of a stroke is painted: a pixel within the radius of any centre of any of its lines
/// takes the colour of the stroke, opaque, unless a later stroke is painted over it.
pub proof fn law_every_disc_is_painted(
    pixels: Map<(u32, u32), (u8, u8, u8, u8)>,
    strokes: Seq<Ink>,
    s: int,
    l: int,
    c: int,
    at: (u32, u32),
)
    requires
        pixels.contains_key(at),
        0 <= s < strokes.len(),
        0 <= l < strokes[s].lines.len(),
        0 <= c < strokes[s].lines[l].len(),
        strokes[s].radius >= 0,
        (at.0 - strokes[s].lines[l][c].0) * (at.0 - strokes[s].lines[l][c].0) + (at.1
            - strokes[s].lines[l][c].1) * (at.1 - strokes[s].lines[l][c].1) <= strokes[s].radius
            * strokes[s].radius,
        forall|t: int, m: int, d: int|
            s < t < strokes.len() && 0 <= m < strokes[t].lines.len() && 0 <= d
                < strokes[t].lines[m].len() ==> strokes[t].radius < 0 || (at.0 - (
            #[trigger] strokes[t].lines[m][d]).0) * (at.0 - strokes[t].lines[m][d].0) + (at.1
                - strokes[t].lines[m][d].1) * (at.1 - strokes[t].lines[m][d].1) > strokes[t].radius
                * strokes[t].radius,
    ensures
        rendered(pixels, strokes)[at] == (
            strokes[s].color.red,
            strokes[s].color.green,
            strokes[s].color.blue,
            255u8,
        ),
{
    assert(covers(strokes[s].lines[l][c], strokes[s].radius, at));
    assert(line_covers(strokes[s].lines[l], strokes[s].radius, at));
    assert(strokes[s].reaches(at));
    assert forall|t: int| s < t < strokes.len() implies !(#[trigger] strokes[t]).reaches(at) by {
        lemma_far_stroke(strokes[t], at);
    }
    lemma_topmost(strokes, at);
}

/// A stroke none of whose discs comes near a pixel does not reach it.
proof fn lemma_far_stroke(stroke: Ink, at: (u32, u32))
    requires
        forall|m: int, d: int|
            0 <= m < stroke.lines.len() && 0 <= d < stroke.lines[m].len() ==> stroke.radius < 0 || (
            at.0 - (#[trigger] stroke.lines[m][d]).0) * (at.0 - stroke.lines[m][d].0) + (at.1
                - stroke.lines[m][d].1) * (at.1 - stroke.lines[m][d].1) > stroke.radius
                * stroke.radius,
    ensures
        !stroke.reaches(at),
{
    assert forall|m: int| 0 <= m < stroke.lines.len() implies !line_covers(
        #[trigger] stroke.lines[m],
        stroke.radius,
        at,
    ) by {
        assert forall|d: int| 0 <= d < stroke.lines[m].len() implies !covers(
            #[trigger] stroke.lines[m][d],
            stroke.radius,
            at,
        ) by {}
    }
}

/// A pixel that lies farther than the radius from every centre of every line of every stroke keeps
/// its colour, and no pixel is added or lost.
pub proof fn law_far_pixels_stay(
    pixels: Map<(u32, u32), (u8, u8, u8, u8)>,
    strokes: Seq<Ink>,
    at: (u32, u32),
)
    requires
        pixels.contains_key(at),
        forall|t: int, m: int, d: int|
            0 <= t < strokes.len() && 0 <= m < strokes[t].lines.len() && 0 <= d
                < strokes[t].lines[m].len() ==> strokes[t].radius < 0 || (at.0 - (
            #[trigger] strokes[t].lines[m][d]).0) * (at.0 - strokes[t].lines[m][d].0) + (at.1
                - strokes[t].lines[m][d].1) * (at.1 - strokes[t].lines[m][d].1) > strokes[t].radius
                * strokes[t].radius,
    ensures
        rendered(pixels, strokes).dom() == pixels.dom(),
        rendered(pixels, strokes)[at] == pixels[at],
{
    assert(rendered(pixels, strokes).dom() =~= pixels.dom());
    assert forall|t: int| 0 <= t < strokes.len() implies !(#[trigger] strokes[t]).reaches(at) by {
        lemma_far_stroke(strokes[t], at);
    }
    lemma_topmost(strokes, at);
}

} // verus!
