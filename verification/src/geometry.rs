//! The size of the editor window.
use vstd::prelude::*;

verus! {

/// The scale that a monitor's scale factor stands for.
pub open spec fn sensible_scale(scale_factor: Option<i32>) -> int {
    match scale_factor {
        Some(factor) => if factor < 1 {
            1
        } else {
            factor as int
        },
        None => 1,
    }
}

/// The size of a window with the preview above the toolbar.
pub open spec fn content_area(
    preview: (i32, i32),
    toolbar_min_width: i32,
    toolbar_height: i32,
) -> (int, int) {
    let width = if preview.0 < toolbar_min_width {
        toolbar_min_width
    } else {
        preview.0
    };
    let height = preview.1 + toolbar_height;
    (
        width as int,
        if height < i32::MIN {
            i32::MIN as int
        } else if height > i32::MAX {
            i32::MAX as int
        } else {
            height
        },
    )
}

/// How many pixels of the screen one point of the preview takes: the scale factor of the monitor,
/// and one if that is unknown or makes no sense.
pub fn preview_scale(scale_factor: Option<i32>) -> (scale: i32)
    ensures
        scale == match scale_factor {
            Some(factor) => if factor > 1 {
                factor
            } else {
                1
            },
            None => 1,
        },
        scale == sensible_scale(scale_factor),
{
    match scale_factor {
        Some(factor) => if factor > 1 {
            factor
        } else {
            1
        },
        None => 1,
    }
}

/// The quotient rounded to the nearest integer, halves up.
pub open spec fn rounded_quotient(dividend: int, divisor: int) -> int {
    (2 * dividend + divisor) / (2 * divisor)
}

/// The length of one side of the preview: the side of the picture in points, at least one, and no
/// longer than a window can be.
pub open spec fn preview_length(length: u32, scale: i32) -> int {
    let points = rounded_quotient(length as int, scale as int);
    if points < 1 {
        1
    } else if points > i32::MAX {
        i32::MAX as int
    } else {
        points
    }
}

fn preview_side(length: u32, scale: i32) -> (side: i32)
    requires
        scale >= 1,
    ensures
        side == preview_length(length, scale),
{
    let points: i64 = (2 * (length as i64) + scale as i64) / (2 * (scale as i64));
    if points < 1 {
        1
    } else if points > i32::MAX as i64 {
        i32::MAX
    } else {
        points as i32
    }
}

/// The size of the preview of a picture on a monitor with this scale.
pub fn preview_size(size: (u32, u32), scale: i32) -> (preview: (i32, i32))
    requires
        scale >= 1,
    ensures
        preview.0 == preview_length(size.0, scale),
        preview.1 == preview_length(size.1, scale),
{
    (preview_side(size.0, scale), preview_side(size.1, scale))
}

/// The size of the window: wide enough for the preview and the toolbar, and high enough for the
/// one above the other.
pub fn content_size(
    preview: (i32, i32),
    toolbar_min_width: i32,
    toolbar_height: i32,
) -> (content: (i32, i32))
    ensures
        content.0 == if toolbar_min_width > preview.0 {
            toolbar_min_width
        } else {
            preview.0
        },
        content.1 == if preview.1 + toolbar_height > i32::MAX {
            i32::MAX as int
        } else if preview.1 + toolbar_height < i32::MIN {
            i32::MIN as int
        } else {
            preview.1 + toolbar_height
        },
        (content.0 as int, content.1 as int) == content_area(
            preview,
            toolbar_min_width,
            toolbar_height,
        ),
{
    let width: i32 = if toolbar_min_width > preview.0 {
        toolbar_min_width
    } else {
        preview.0
    };
    let height: i64 = preview.1 as i64 + toolbar_height as i64;
    let height: i32 = if height > i32::MAX as i64 {
        i32::MAX
    } else if height < i32::MIN as i64 {
        i32::MIN
    } else {
        height as i32
    };
    (width, height)
}

/// On a monitor that is not scaled the preview has the size of the picture, as long as a window
/// can be that large.
pub proof fn law_unscaled_preview(length: u32)
    requires
        1 <= length <= i32::MAX,
    ensures
        preview_length(length, 1) == length,
{
    let n = length as int;
    assert((2 * n + 1) / (2 * 1int) == n) by (nonlinear_arith);
}

/// A side of the preview, scaled up again, misses the side of the picture by at most half the
/// scale, unless a limit of the window size was met.
pub proof fn law_preview_is_to_scale(length: u32, scale: i32)
    requires
        scale >= 1,
        1 < preview_length(length, scale) < i32::MAX,
    ensures
        -scale <= 2 * (preview_length(length, scale) * scale - length) <= scale,
{
    let points = preview_length(length, scale);
    assert(-scale <= 2 * (points * scale - length) <= scale) by (nonlinear_arith)
        requires
            points == (2 * length + scale) / (2 * scale),
            scale >= 1,
            length >= 0,
    ;
}

/// A longer side never has a shorter preview.
pub proof fn law_preview_is_monotonic(shorter: u32, longer: u32, scale: i32)
    requires
        scale >= 1,
        shorter <= longer,
    ensures
        preview_length(shorter, scale) <= preview_length(longer, scale),
{
    let (a, b, d) = (2 * shorter + scale, 2 * longer + scale, 2 * scale);
    assert(a / d <= b / d) by (nonlinear_arith)
        requires
            0 <= a <= b,
            d >= 2,
    ;
}

/// A side of the preview is the nearest whole number of points, halves up, for every side and
/// scale: one point less would be too short, unless it is the least that there is, and one point
/// more too long, unless it is the most.
pub proof fn law_preview_is_nearest(length: u32, scale: i32)
    requires
        scale >= 1,
    ensures
        1 <= preview_length(length, scale) <= i32::MAX,
        preview_length(length, scale) > 1 ==> (2 * preview_length(length, scale) - 1) * scale <= 2
            * length,
        preview_length(length, scale) < i32::MAX ==> 2 * length < (2 * preview_length(length, scale)
            + 1) * scale,
{
    let (n, d) = (length as int, scale as int);
    let q = rounded_quotient(n, d);
    assert((2 * q - 1) * d <= 2 * n < (2 * q + 1) * d) by (nonlinear_arith)
        requires
            q == (2 * n + d) / (2 * d),
            d >= 1,
            n >= 0,
    ;
    let p = preview_length(length, scale);
    if q < p {
        assert((2 * q + 1) * d <= (2 * p + 1) * d) by (nonlinear_arith)
            requires
                q < p,
                d >= 1,
        ;
    }
    if p < q {
        assert((2 * p - 1) * d <= (2 * q - 1) * d) by (nonlinear_arith)
            requires
                p < q,
                d >= 1,
        ;
    }
}

/// The scale is that of the monitor wherever that is a scale, and one otherwise.
pub proof fn law_scale_is_that_of_the_monitor(factor: i32)
    ensures
        factor >= 1 ==> sensible_scale(Some(factor)) == factor,
        factor < 1 ==> sensible_scale(Some(factor)) == 1,
        sensible_scale(None) == 1,
{
}

/// The window has just the room that the preview and the toolbar need: it is as wide as the wider
/// of them, and as high as both together, as far as a window can be.
pub proof fn law_window_has_just_the_room(
    preview: (i32, i32),
    toolbar_min_width: i32,
    toolbar_height: i32,
)
    ensures
        ({
            let (width, height) = content_area(preview, toolbar_min_width, toolbar_height);
            &&& width >= preview.0 && width >= toolbar_min_width
            &&& width == preview.0 || width == toolbar_min_width
            &&& i32::MIN <= height <= i32::MAX
            &&& height < preview.1 + toolbar_height ==> height == i32::MAX
            &&& height > preview.1 + toolbar_height ==> height == i32::MIN
        }),
{
}

} // verus!
