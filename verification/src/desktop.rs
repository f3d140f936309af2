//! Taking a screenshot from an X11 server: decoding its pixels and cutting out monitors.
use crate::failure::Failure;
use crate::picture::{image_blank, image_crop, image_dimensions, image_put_pixel, Picture};
use vstd::prelude::*;

verus! {

/// How an X11 server lays out the colours of a pixel.
#[derive(Clone, Copy, PartialEq, Eq, Structural, Debug)]
pub struct Visual {
    pub id: u32,
    pub red_mask: u32,
    pub green_mask: u32,
    pub blue_mask: u32,
}

/// How many bits an X11 server stores for a pixel of a depth.
#[derive(Clone, Copy, PartialEq, Eq, Structural, Debug)]
pub struct PixmapFormat {
    pub depth: u8,
    pub bits_per_pixel: u8,
}

/// Finds the first of the server's visuals that has this number.
pub fn find_visual(visuals: &Vec<Visual>, id: u32) -> (found: Result<Visual, Failure>)
    ensures
        match found {
            Ok(visual) => first_visual(visuals@, id, visual),
            Err(failure) => failure == Failure::X11Visual && no_visual(visuals@, id),
        },
{
    let mut next: usize = 0;
    while next < visuals.len()
        invariant
            next <= visuals.len(),
            forall|j: int| 0 <= j < next ==> (#[trigger] visuals@[j]).id != id,
        decreases visuals.len() - next,
    {
        if visuals[next].id == id {
            return Ok(visuals[next]);
        }
        next = next + 1;
    }
    Err(Failure::X11Visual)
}

/// The number of bits that the server stores for a pixel of this depth, by the first of its
/// formats that has the depth.
pub fn find_bits_per_pixel(formats: &Vec<PixmapFormat>, depth: u8) -> (found: Result<u8, Failure>)
    ensures
        match found {
            Ok(bits) => first_format(formats@, depth, bits),
            Err(failure) => failure == Failure::X11PixelFormat && no_format(formats@, depth),
        },
{
    let mut next: usize = 0;
    while next < formats.len()
        invariant
            next <= formats.len(),
            forall|j: int| 0 <= j < next ==> (#[trigger] formats@[j]).depth != depth,
        decreases formats.len() - next,
    {
        if formats[next].depth == depth {
            return Ok(formats[next].bits_per_pixel);
        }
        next = next + 1;
    }
    Err(Failure::X11PixelFormat)
}

/// What a capture from an X11 server does next.
#[derive(Debug)]
pub enum ScreenStep {
    /// Ask for the image of the screen, whose pixels are laid out like this.
    RequestImage { visual: Visual },
    /// Wait for the image.
    ReceiveImage,
    /// Decode the image, which has this many bits for a pixel, and save the picture.
    SaveImage { bits_per_pixel: u8 },
    /// The picture is saved at this path.
    Done { path: Vec<u8> },
    /// The capture has ended without success.
    Failed(Failure),
}

/// Whether this is the first of the visuals that has the number.
pub open spec fn first_visual(visuals: Seq<Visual>, id: u32, visual: Visual) -> bool {
    exists|i: int|
        {
            &&& 0 <= i < visuals.len()
            &&& #[trigger] visuals[i] == visual
            &&& visual.id == id
            &&& forall|j: int| 0 <= j < i ==> (#[trigger] visuals[j]).id != id
        }
}

/// Whether none of the visuals has the number.
pub open spec fn no_visual(visuals: Seq<Visual>, id: u32) -> bool {
    forall|j: int| 0 <= j < visuals.len() ==> (#[trigger] visuals[j]).id != id
}

/// Whether the first of the formats that has the depth has this many bits.
pub open spec fn first_format(formats: Seq<PixmapFormat>, depth: u8, bits: u8) -> bool {
    exists|i: int|
        {
            &&& 0 <= i < formats.len()
            &&& (#[trigger] formats[i]).depth == depth
            &&& formats[i].bits_per_pixel == bits
            &&& forall|j: int| 0 <= j < i ==> (#[trigger] formats[j]).depth != depth
        }
}

/// Whether none of the formats has the depth.
pub open spec fn no_format(formats: Seq<PixmapFormat>, depth: u8) -> bool {
    forall|j: int| 0 <= j < formats.len() ==> (#[trigger] formats[j]).depth != depth
}

/// The server was reached and told of its visuals, or could not be. The image is asked for once the
/// visual of the screen is known.
pub fn server_reached(reached: Result<Vec<Visual>, String>, root_visual: u32) -> (step: ScreenStep)
    ensures
        match reached {
            Err(error) => step == ScreenStep::Failed(Failure::X11Connection(error)),
            Ok(visuals) => match step {
                ScreenStep::RequestImage { visual } => first_visual(visuals@, root_visual, visual),
                _ => step == ScreenStep::Failed(Failure::X11Visual) && no_visual(
                    visuals@,
                    root_visual,
                ),
            },
        },
{
    match reached {
        Err(error) => ScreenStep::Failed(Failure::X11Connection(error)),
        Ok(visuals) => match find_visual(&visuals, root_visual) {
            Ok(visual) => ScreenStep::RequestImage { visual },
            Err(failure) => ScreenStep::Failed(failure),
        },
    }
}

/// The image was asked for, or could not be.
pub fn image_requested(requested: Result<(), String>) -> (step: ScreenStep)
    ensures
        step == match requested {
            Ok(_) => ScreenStep::ReceiveImage,
            Err(error) => ScreenStep::Failed(Failure::X11Request(error)),
        },
{
    match requested {
        Ok(()) => ScreenStep::ReceiveImage,
        Err(error) => ScreenStep::Failed(Failure::X11Request(error)),
    }
}

/// An image of this depth has arrived, or none has. It can be decoded once the server's format for
/// the depth is known.
pub fn image_received(received: Result<u8, String>, formats: &Vec<PixmapFormat>) -> (step:
    ScreenStep)
    ensures
        match received {
            Err(error) => step == ScreenStep::Failed(Failure::X11Reply(error)),
            Ok(depth) => match step {
                ScreenStep::SaveImage { bits_per_pixel } => first_format(
                    formats@,
                    depth,
                    bits_per_pixel,
                ),
                _ => step == ScreenStep::Failed(Failure::X11PixelFormat) && no_format(
                    formats@,
                    depth,
                ),
            },
        },
{
    match received {
        Err(error) => ScreenStep::Failed(Failure::X11Reply(error)),
        Ok(depth) => match find_bits_per_pixel(formats, depth) {
            Ok(bits_per_pixel) => ScreenStep::SaveImage { bits_per_pixel },
            Err(failure) => ScreenStep::Failed(failure),
        },
    }
}

/// The decoded picture was saved at a path, or could not be.
pub fn image_saved(saved: Result<(), String>, path: Vec<u8>) -> (step: ScreenStep)
    ensures
        step == match saved {
            Ok(_) => ScreenStep::Done { path },
            Err(error) => ScreenStep::Failed(Failure::X11Saving(error)),
        },
{
    match saved {
        Ok(()) => ScreenStep::Done { path },
        Err(error) => ScreenStep::Failed(Failure::X11Saving(error)),
    }
}

/// The bits of a pixel under a mask, moved down to the lowest place.
pub open spec fn field(pixel: u32, mask: u32) -> u32 {
    (pixel & mask) >> mask.trailing_zeros()
}

/// Whether a channel can be scaled to eight bits in 32-bit arithmetic.
pub open spec fn channel_fits(pixel: u32, mask: u32) -> bool {
    mask != 0 && field(pixel, mask) * 255 <= u32::MAX
}

/// A channel of a pixel, scaled to eight bits.
pub open spec fn channel(pixel: u32, mask: u32) -> int {
    field(pixel, mask) * 255 / field(mask, mask) as int
}

/// A field is no greater than the field of a pixel that has every bit of the mask set, and that
/// one is not zero.
proof fn lemma_field(pixel: u32, mask: u32)
    requires
        mask != 0,
    ensures
        field(mask, mask) == mask >> mask.trailing_zeros(),
        mask.trailing_zeros() < 32,
        field(pixel, mask) <= field(mask, mask),
        field(mask, mask) > 0,
{
    vstd::std_specs::bits::axiom_u32_trailing_zeros(mask);
    let shift = mask.trailing_zeros();
    assert((mask & mask) == mask) by (bit_vector);
    assert((pixel & mask) >> shift <= mask >> shift) by (bit_vector)
        requires
            shift < 32,
    ;
    assert(mask >> shift != 0) by (bit_vector)
        requires
            (mask >> shift) & 1u32 == 1u32,
    ;
}

/// A scaled channel fits in eight bits.
proof fn lemma_channel(pixel: u32, mask: u32)
    requires
        mask != 0,
    ensures
        0 <= channel(pixel, mask) <= 255,
{
    lemma_field(pixel, mask);
    let part = field(pixel, mask) as int;
    let whole = field(mask, mask) as int;
    assert(0 <= part * 255 / whole <= 255) by (nonlinear_arith)
        requires
            0 <= part <= whole,
            whole > 0,
    ;
}

/// A channel of a pixel, scaled to eight bits: the bits under the mask as a share of all the bits
/// of the mask.
pub fn x11_channel(pixel: u32, mask: u32) -> (value: u8)
    requires
        channel_fits(pixel, mask),
    ensures
        value == channel(pixel, mask),
{
    proof {
        lemma_field(pixel, mask);
        lemma_channel(pixel, mask);
    }
    let shift: u32 = mask.trailing_zeros();
    let maximum: u32 = mask >> shift;
    (((pixel & mask) >> shift) * 255 / maximum) as u8
}

/// A pixel without any bit of a mask has none of that colour, and one with all of them has all of
/// it.
pub proof fn law_channel_ends(pixel: u32, mask: u32)
    requires
        mask != 0,
    ensures
        pixel & mask == 0 ==> channel(pixel, mask) == 0,
        pixel & mask == mask ==> channel(pixel, mask) == 255,
        0 <= channel(pixel, mask) <= 255,
{
    lemma_field(pixel, mask);
    lemma_channel(pixel, mask);
    let shift = mask.trailing_zeros();
    assert(0u32 >> shift == 0) by (bit_vector);
    assert((mask & mask) == mask) by (bit_vector);
    let whole = field(mask, mask) as int;
    assert(whole * 255 / whole == 255) by (nonlinear_arith)
        requires
            whole > 0,
    ;
    assert(0int * 255 / whole == 0) by (nonlinear_arith)
        requires
            whole > 0,
    ;
}

/// A screen image as an X11 server sends it: rows of equal length, with the bytes of a pixel in
/// ascending significance.
pub struct ScreenImage {
    pub data: Vec<u8>,
    pub width: u16,
    pub height: u16,
    pub bits_per_pixel: u8,
    pub visual: Visual,
}

/// The number that bytes in ascending significance stand for.
pub open spec fn little_endian(bytes: Seq<u8>) -> int
    decreases bytes.len(),
{
    if bytes.len() == 0 {
        0
    } else {
        bytes.first() + 256 * little_endian(bytes.drop_first())
    }
}

impl ScreenImage {
    /// The number of bytes of a pixel.
    pub open spec fn bytes_per_pixel(self) -> int {
        (self.bits_per_pixel + 7) / 8
    }

    /// The number of bytes of a row.
    pub open spec fn stride(self) -> int {
        self.data@.len() as int / self.height as int
    }

    /// Where the bytes of a pixel begin.
    pub open spec fn offset(self, at: (u32, u32)) -> int {
        at.1 * self.stride() + at.0 * self.bytes_per_pixel()
    }

    /// The number that the server sent for a pixel.
    pub open spec fn pixel(self, at: (u32, u32)) -> int {
        little_endian(
            self.data@.subrange(self.offset(at), self.offset(at) + self.bytes_per_pixel()),
        )
    }

    /// Whether the picture has this pixel.
    pub open spec fn has(self, at: (u32, u32)) -> bool {
        at.0 < self.width && at.1 < self.height
    }

    /// Whether the image can be decoded: there are rows, the picture fits in memory, each pixel
    /// lies inside the data and has at most 32 bits, and each of its colours can be scaled.
    pub open spec fn decodable(self) -> bool {
        &&& self.height > 0
        &&& crate::picture::byte_count((self.width as u32, self.height as u32)) <= isize::MAX
        &&& forall|at: (u32, u32)| #[trigger]
            self.has(at) ==> {
                &&& self.bits_per_pixel <= 32
                &&& self.offset(at) + self.bytes_per_pixel() <= self.data@.len()
                &&& channel_fits(self.pixel(at) as u32, self.visual.red_mask)
                &&& channel_fits(self.pixel(at) as u32, self.visual.green_mask)
                &&& channel_fits(self.pixel(at) as u32, self.visual.blue_mask)
            }
    }

    /// The pixels of the picture.
    pub open spec fn decoded(self) -> Map<(u32, u32), (u8, u8, u8, u8)> {
        Map::new(
            |at: (u32, u32)| at.0 < self.width && at.1 < self.height,
            |at: (u32, u32)| self.color(at),
        )
    }

    /// The opaque colour of a pixel.
    pub open spec fn color(self, at: (u32, u32)) -> (u8, u8, u8, u8) {
        (
            channel(self.pixel(at) as u32, self.visual.red_mask) as u8,
            channel(self.pixel(at) as u32, self.visual.green_mask) as u8,
            channel(self.pixel(at) as u32, self.visual.blue_mask) as u8,
            255,
        )
    }
}

/// The place value after a number of bytes.
pub open spec fn place(count: int) -> int
    decreases count,
{
    if count <= 0 {
        1
    } else {
        256 * place(count - 1)
    }
}

/// A number of four bytes at most fits in 32 bits.
proof fn lemma_little_endian_range(bytes: Seq<u8>)
    ensures
        0 <= little_endian(bytes) < place(bytes.len() as int),
    decreases bytes.len(),
{
    if bytes.len() > 0 {
        lemma_little_endian_range(bytes.drop_first());
    }
}

/// Four places and fewer fit in 32 bits.
proof fn lemma_places(count: int)
    requires
        0 <= count <= 4,
    ensures
        place(count) <= 0x1_0000_0000,
        0 <= count <= 3 ==> place(count) <= 0x100_0000,
{
    reveal_with_fuel(place, 6);
}

/// The number that up to four bytes of the data stand for.
fn read_pixel(data: &Vec<u8>, start: usize, count: usize) -> (pixel: u32)
    requires
        count <= 4,
        start + count <= data@.len(),
    ensures
        pixel == little_endian(data@.subrange(start as int, start + count)),
{
    let length: usize = data.len();
    let mut pixel: u32 = 0;
    let mut left: usize = count;
    assert(data@.subrange(start + count, start + count) =~= Seq::<u8>::empty());
    while left > 0
        invariant
            left <= count <= 4,
            start + count <= data@.len(),
            data@.len() == length,
            pixel == little_endian(data@.subrange(start + left, start + count)),
        decreases left,
    {
        let ghost rest = data@.subrange(start + left, start + count);
        left = left - 1;
        proof {
            let whole = data@.subrange(start + left, start + count);
            assert(whole.drop_first() =~= rest);
            lemma_little_endian_range(rest);
            lemma_places(rest.len() as int);
        }
        pixel = data[start + left] as u32 + 256 * pixel;
    }
    pixel
}

/// Decodes a screen image. The picture has its size, and every pixel is opaque and has its three
/// channels scaled to eight bits.
pub fn decode_screen(screen: &ScreenImage) -> (picture: Picture)
    requires
        screen.decodable(),
    ensures
        picture.size() == (screen.width as u32, screen.height as u32),
        picture.pixels() == Map::new(
            |at: (u32, u32)| screen.has(at),
            |at: (u32, u32)| screen.color(at),
        ),
        picture.pixels() == screen.decoded(),
{
    let width: u32 = screen.width as u32;
    let height: u32 = screen.height as u32;
    let bytes_per_pixel: usize = (screen.bits_per_pixel as usize + 7) / 8;
    let length: usize = screen.data.len();
    let stride: usize = length / (screen.height as usize);
    let mut picture: Picture = image_blank(width, height);
    let ghost places = picture.pixels().dom();
    let mut y: u32 = 0;
    while y < height
        invariant
            screen.decodable(),
            width == screen.width,
            height == screen.height,
            bytes_per_pixel == screen.bytes_per_pixel(),
            stride == screen.stride(),
            screen.data@.len() == length,
            y <= height,
            picture.size() == (width, height),
            picture.pixels().dom() == places,
            forall|at: (u32, u32)| places.contains(at) <==> #[trigger] screen.has(at),
            forall|at: (u32, u32)| #[trigger]
                screen.has(at) && at.1 < y ==> picture.pixels()[at] == screen.color(at),
        decreases height - y,
    {
        let mut x: u32 = 0;
        while x < width
            invariant
                screen.decodable(),
                width == screen.width,
                height == screen.height,
                bytes_per_pixel == screen.bytes_per_pixel(),
                stride == screen.stride(),
                screen.data@.len() == length,
                x <= width,
                y < height,
                picture.size() == (width, height),
                picture.pixels().dom() == places,
                forall|at: (u32, u32)| places.contains(at) <==> #[trigger] screen.has(at),
                forall|at: (u32, u32)| #[trigger]
                    screen.has(at) && (at.1 < y || at.1 == y && at.0 < x)
                        ==> picture.pixels()[at] == screen.color(at),
            decreases width - x,
        {
            proof {
                let at = (x, y);
                assert(screen.has(at));
                let (row, column) = (y * stride, x * bytes_per_pixel);
                assert(row >= 0 && column >= 0) by (nonlinear_arith)
                    requires
                        row == y * stride,
                        column == x * bytes_per_pixel,
                        y >= 0,
                        stride >= 0,
                        x >= 0,
                        bytes_per_pixel >= 0,
                ;
                assert(screen.offset(at) == row + column);
            }
            let offset: usize = y as usize * stride + x as usize * bytes_per_pixel;
            let pixel: u32 = read_pixel(&screen.data, offset, bytes_per_pixel);
            let red: u8 = x11_channel(pixel, screen.visual.red_mask);
            let green: u8 = x11_channel(pixel, screen.visual.green_mask);
            let blue: u8 = x11_channel(pixel, screen.visual.blue_mask);
            image_put_pixel(&mut picture, x, y, (red, green, blue, 255));
            assert(picture.pixels().dom() =~= places);
            assert(picture.pixels()[(x, y)] == screen.color((x, y)));
            x = x + 1;
        }
        y = y + 1;
    }
    assert(picture.pixels() =~= Map::new(
        |at: (u32, u32)| screen.has(at),
        |at: (u32, u32)| screen.color(at),
    ));
    assert(picture.pixels() =~= screen.decoded());
    picture
}

/// The place and the size of a monitor on the desktop.
#[derive(Clone, Copy, PartialEq, Eq, Structural, Debug)]
pub struct MonitorGeometry {
    pub x: i32,
    pub y: i32,
    pub width: u32,
    pub height: u32,
}

impl MonitorGeometry {
    /// A single monitor that shows the whole desktop.
    pub fn fallback(width: u32, height: u32) -> (monitor: MonitorGeometry)
        ensures
            monitor == (MonitorGeometry { x: 0, y: 0, width, height }),
    {
        MonitorGeometry { x: 0, y: 0, width, height }
    }
}

/// Whether a monitor shows anything.
pub open spec fn visible(monitor: MonitorGeometry) -> bool {
    monitor.width > 0 && monitor.height > 0
}

/// The monitors that show anything, in the order in which the server reports them. If there is
/// none, a single monitor shows the whole screenshot.
pub open spec fn shown_monitors(
    reported: Seq<MonitorGeometry>,
    source_width: u32,
    source_height: u32,
) -> Seq<MonitorGeometry> {
    let shown = reported.filter(|monitor: MonitorGeometry| visible(monitor));
    if shown.len() == 0 {
        seq![MonitorGeometry { x: 0, y: 0, width: source_width, height: source_height }]
    } else {
        shown
    }
}

/// The monitors that show anything, in the order in which the server reports them. If there is
/// none, or no report, a single monitor shows the whole screenshot.
pub fn connected_monitors(
    reported: Option<Vec<MonitorGeometry>>,
    source_width: u32,
    source_height: u32,
) -> (monitors: Vec<MonitorGeometry>)
    ensures
        monitors@ == shown_monitors(
            match reported {
                Some(reported) => reported@,
                None => Seq::empty(),
            },
            source_width,
            source_height,
        ),
{
    let mut monitors: Vec<MonitorGeometry> = Vec::new();
    if let Some(reported) = reported {
        let ghost keep = |monitor: MonitorGeometry| visible(monitor);
        let mut next: usize = 0;
        assert(reported@.take(0).filter(keep) =~= Seq::empty()) by {
            reveal(Seq::filter);
        }
        while next < reported.len()
            invariant
                next <= reported.len(),
                keep == (|monitor: MonitorGeometry| visible(monitor)),
                monitors@ == reported@.take(next as int).filter(keep),
            decreases reported.len() - next,
        {
            let monitor: MonitorGeometry = reported[next];
            proof {
                let more = reported@.take(next + 1);
                assert(more.drop_last() =~= reported@.take(next as int));
                assert(more.last() == monitor);
                reveal(Seq::filter);
            }
            if monitor.width > 0 && monitor.height > 0 {
                monitors.push(monitor);
            }
            next = next + 1;
        }
        assert(reported@.take(next as int) =~= reported@);
    }
    if monitors.len() == 0 {
        monitors.push(MonitorGeometry::fallback(source_width, source_height));
    }
    assert(monitors@ =~= shown_monitors(
        match reported {
            Some(reported) => reported@,
            None => Seq::empty(),
        },
        source_width,
        source_height,
    ));
    monitors
}

/// There is always a monitor to select on, and on a screenshot that is not empty each of them shows
/// something. Every reported monitor that shows something is among them.
pub proof fn law_some_monitor_is_shown(
    reported: Seq<MonitorGeometry>,
    source_width: u32,
    source_height: u32,
)
    ensures
        shown_monitors(reported, source_width, source_height).len() >= 1,
        source_width > 0 && source_height > 0 ==> forall|i: int|
            0 <= i < shown_monitors(reported, source_width, source_height).len() ==> visible(
                #[trigger] shown_monitors(reported, source_width, source_height)[i],
            ),
        forall|i: int|
            0 <= i < reported.len() && visible(#[trigger] reported[i]) ==> shown_monitors(
                reported,
                source_width,
                source_height,
            ).contains(reported[i]),
{
    let keep = |monitor: MonitorGeometry| visible(monitor);
    let shown = reported.filter(keep);
    assert forall|i: int| 0 <= i < shown.len() implies visible(#[trigger] shown[i]) by {
        reported.lemma_filter_pred(keep, i);
    }
    assert forall|i: int| 0 <= i < reported.len() && visible(#[trigger] reported[i]) implies
        shown.contains(reported[i]) by {
        reported.lemma_filter_contains(keep, i);
    }
}

/// Where the part of a screenshot that a monitor shows begins on one axis: at the monitor, or at
/// the edge of the screenshot that is nearest to it.
pub open spec fn crop_start(position: int, length: int) -> int {
    if position < 0 || length == 0 {
        0
    } else if position > length - 1 {
        length - 1
    } else {
        position
    }
}

/// How much of a screenshot a monitor shows on one axis: at least one pixel, if there is any, and
/// no more than there is.
pub open spec fn crop_length(start: int, wanted: int, length: int) -> int {
    let rest = length - start;
    if rest < wanted {
        rest
    } else if wanted < 1 {
        if rest < 1 {
            rest
        } else {
            1
        }
    } else {
        wanted
    }
}

fn crop_axis(position: i32, wanted: u32, length: u32) -> (part: (u32, u32))
    requires
        length <= 0x8000_0000,
    ensures
        part.0 == crop_start(position as int, length as int),
        part.1 >= 1,
        crate::picture::lesser(part.1 as int, length - part.0) == crop_length(
            part.0 as int,
            wanted as int,
            length as int,
        ),
{
    let last: i32 = if length > 0 {
        (length - 1) as i32
    } else {
        0
    };
    let start: u32 = if position < 0 {
        0
    } else if position > last {
        last as u32
    } else {
        position as u32
    };
    let rest: u32 = length - start;
    let shown: u32 = if wanted < rest {
        wanted
    } else {
        rest
    };
    let shown: u32 = if shown < 1 {
        1
    } else {
        shown
    };
    (start, shown)
}

/// Whether a picture is the part of a screenshot that a monitor shows.
pub open spec fn shows_part(
    size: (u32, u32),
    pixels: Map<(u32, u32), (u8, u8, u8, u8)>,
    monitor: MonitorGeometry,
    part_size: (u32, u32),
    part: Map<(u32, u32), (u8, u8, u8, u8)>,
) -> bool {
    let x = crop_start(monitor.x as int, size.0 as int);
    let y = crop_start(monitor.y as int, size.1 as int);
    &&& part_size.0 == crop_length(x, monitor.width as int, size.0 as int)
    &&& part_size.1 == crop_length(y, monitor.height as int, size.1 as int)
    &&& forall|at: (u32, u32)| #[trigger]
        part.contains_key(at) <==> at.0 < part_size.0 && at.1 < part_size.1
    &&& forall|at: (u32, u32)| #[trigger]
        part.contains_key(at) ==> part[at] == pixels[((x + at.0) as u32, (y + at.1) as u32)]
}

/// Cuts out the part of a screenshot that a monitor shows. A monitor outside the screenshot shows
/// the pixels nearest to it.
pub fn crop_monitor_image(source: &Picture, monitor: MonitorGeometry) -> (part: Picture)
    requires
        source.size().0 <= 0x8000_0000,
        source.size().1 <= 0x8000_0000,
    ensures
        ({
            let x = crop_start(monitor.x as int, source.size().0 as int);
            let y = crop_start(monitor.y as int, source.size().1 as int);
            &&& part.size().0 == crop_length(x, monitor.width as int, source.size().0 as int)
            &&& part.size().1 == crop_length(y, monitor.height as int, source.size().1 as int)
            &&& part.pixels() == Map::new(
                |at: (u32, u32)| crate::picture::in_bounds(part.size(), at),
                |at: (u32, u32)| source.pixels()[((x + at.0) as u32, (y + at.1) as u32)],
            )
        }),
        shows_part(source.size(), source.pixels(), monitor, part.size(), part.pixels()),
{
    let (width, height): (u32, u32) = image_dimensions(source);
    let (x, shown_width): (u32, u32) = crop_axis(monitor.x, monitor.width, width);
    let (y, shown_height): (u32, u32) = crop_axis(monitor.y, monitor.height, height);
    let part: Picture = image_crop(source, x, y, shown_width, shown_height);
    assert(shows_part(source.size(), source.pixels(), monitor, part.size(), part.pixels()));
    part
}

/// The part of a screenshot that a monitor shows lies inside the screenshot, and is empty only if
/// the screenshot is.
pub proof fn law_crop_is_inside(position: i32, wanted: u32, length: u32)
    ensures
        ({
            let start = crop_start(position as int, length as int);
            let shown = crop_length(start, wanted as int, length as int);
            &&& 0 <= start
            &&& 0 <= shown
            &&& start + shown <= length
            &&& length > 0 ==> shown >= 1
        }),
{
}

/// A monitor that lies inside the screenshot shows exactly its own part of it.
pub proof fn law_crop_of_a_monitor_inside(position: i32, wanted: u32, length: u32)
    requires
        0 <= position,
        1 <= wanted,
        position + wanted <= length,
    ensures
        crop_start(position as int, length as int) == position,
        crop_length(position as int, wanted as int, length as int) == wanted,
{
}

/// A field is the bits under the mask, moved down: moved up again they are the bits of the pixel
/// under the mask.
pub proof fn law_field_is_the_bits_under_the_mask(pixel: u32, mask: u32)
    requires
        mask != 0,
    ensures
        field(pixel, mask) << mask.trailing_zeros() == pixel & mask,
        field(mask, mask) & 1 == 1,
{
    vstd::std_specs::bits::axiom_u32_trailing_zeros(mask);
    let shift = mask.trailing_zeros();
    lemma_field(pixel, mask);
    assert(((pixel & mask) >> shift) << shift == pixel & mask) by (bit_vector)
        requires
            shift < 32,
            shift == 0 || mask << ((32 - shift) as u32) == 0,
    ;
}

/// A channel is the field as a share of the full field, in 255 parts, rounded down.
pub proof fn law_channel_is_the_share_of_the_field(pixel: u32, mask: u32)
    requires
        mask != 0,
    ensures
        channel(pixel, mask) * field(mask, mask) <= field(pixel, mask) * 255,
        field(pixel, mask) * 255 < (channel(pixel, mask) + 1) * field(mask, mask),
        channel_fits(pixel, mask) <==> field(pixel, mask) * 255 <= u32::MAX,
{
    lemma_field(pixel, mask);
    let part = field(pixel, mask) * 255;
    let whole = field(mask, mask) as int;
    let share = channel(pixel, mask);
    assert(share * whole <= part < (share + 1) * whole) by (nonlinear_arith)
        requires
            share == part / whole,
            whole > 0,
            part >= 0,
    ;
}

/// Bytes in ascending significance: each counts 256 times as much as the one before it.
pub proof fn law_bytes_in_ascending_significance(a: u8, b: u8, c: u8, d: u8)
    ensures
        little_endian(Seq::empty()) == 0,
        little_endian(seq![a]) == a,
        little_endian(seq![a, b]) == a + 256 * b,
        little_endian(seq![a, b, c]) == a + 256 * b + 65536 * c,
        little_endian(seq![a, b, c, d]) == a + 256 * b + 65536 * c + 16777216 * d,
{
    reveal_with_fuel(little_endian, 6);
    assert(seq![a].drop_first() =~= Seq::<u8>::empty());
    assert(seq![b].drop_first() =~= Seq::<u8>::empty());
    assert(seq![c].drop_first() =~= Seq::<u8>::empty());
    assert(seq![d].drop_first() =~= Seq::<u8>::empty());
    assert(seq![a, b].drop_first() =~= seq![b]);
    assert(seq![b, c].drop_first() =~= seq![c]);
    assert(seq![c, d].drop_first() =~= seq![d]);
    assert(seq![a, b, c].drop_first() =~= seq![b, c]);
    assert(seq![b, c, d].drop_first() =~= seq![c, d]);
    assert(seq![a, b, c, d].drop_first() =~= seq![b, c, d]);
}

/// Where the pixels of a screen image lie: the first at the beginning, each after the one to its
/// left by as many whole bytes as its bits need, and each after the one above it by the length of a
/// row, which is what each row has of the data.
pub proof fn law_where_pixels_lie(screen: ScreenImage, x: u32, y: u32)
    requires
        screen.height > 0,
        x < u32::MAX,
        y < u32::MAX,
    ensures
        8 * screen.bytes_per_pixel() >= screen.bits_per_pixel > 8 * (screen.bytes_per_pixel() - 1),
        screen.stride() * screen.height <= screen.data@.len() < (screen.stride() + 1)
            * screen.height,
        screen.offset((0, 0)) == 0,
        screen.offset(((x + 1) as u32, y)) == screen.offset((x, y)) + screen.bytes_per_pixel(),
        screen.offset((x, (y + 1) as u32)) == screen.offset((x, y)) + screen.stride(),
        screen.has((x, y)) <==> x < screen.width && y < screen.height,
        screen.pixel((x, y)) == little_endian(
            Seq::new(
                screen.bytes_per_pixel() as nat,
                |i: int| screen.data@[screen.offset((x, y)) + i],
            ),
        ) || !(0 <= screen.offset((x, y)) && screen.offset((x, y)) + screen.bytes_per_pixel()
            <= screen.data@.len()),
{
    let (n, h) = (screen.data@.len() as int, screen.height as int);
    let (stride, bytes) = (screen.stride(), screen.bytes_per_pixel());
    assert(stride * h <= n < (stride + 1) * h) by (nonlinear_arith)
        requires
            stride == n / h,
            h > 0,
            n >= 0,
    ;
    assert(0 * stride + 0 * bytes == 0) by (nonlinear_arith);
    assert((x + 1) * bytes == x * bytes + bytes) by (nonlinear_arith);
    assert((y + 1) * stride == y * stride + stride) by (nonlinear_arith);
    let start = screen.offset((x, y));
    if 0 <= start && start + bytes <= screen.data@.len() {
        assert(screen.data@.subrange(start, start + bytes) =~= Seq::new(
            bytes as nat,
            |i: int| screen.data@[start + i],
        ));
    }
}

/// A pixel has its red, its green and its blue by their masks, and is opaque.
pub proof fn law_colours_by_their_masks(screen: ScreenImage, at: (u32, u32))
    requires
        screen.visual.red_mask != 0,
        screen.visual.green_mask != 0,
        screen.visual.blue_mask != 0,
    ensures
        screen.color(at).0 == channel(screen.pixel(at) as u32, screen.visual.red_mask),
        screen.color(at).1 == channel(screen.pixel(at) as u32, screen.visual.green_mask),
        screen.color(at).2 == channel(screen.pixel(at) as u32, screen.visual.blue_mask),
        screen.color(at).3 == 255,
{
    lemma_channel(screen.pixel(at) as u32, screen.visual.red_mask);
    lemma_channel(screen.pixel(at) as u32, screen.visual.green_mask);
    lemma_channel(screen.pixel(at) as u32, screen.visual.blue_mask);
}

/// An image can be decoded whose rows hold their pixels, of 32 bits at most, and whose masks have
/// fields that 255 times still fit in 32 bits.
pub proof fn law_whole_images_can_be_decoded(screen: ScreenImage)
    requires
        screen.height > 0,
        4 * (screen.width * screen.height) <= isize::MAX,
        screen.bits_per_pixel <= 32,
        screen.width * screen.bytes_per_pixel() <= screen.stride(),
        screen.visual.red_mask != 0,
        screen.visual.green_mask != 0,
        screen.visual.blue_mask != 0,
        field(screen.visual.red_mask, screen.visual.red_mask) * 255 <= u32::MAX,
        field(screen.visual.green_mask, screen.visual.green_mask) * 255 <= u32::MAX,
        field(screen.visual.blue_mask, screen.visual.blue_mask) * 255 <= u32::MAX,
    ensures
        screen.decodable(),
{
    let (n, h, w) = (screen.data@.len() as int, screen.height as int, screen.width as int);
    let (stride, bytes) = (screen.stride(), screen.bytes_per_pixel());
    assert(stride * h <= n && stride >= 0) by (nonlinear_arith)
        requires
            stride == n / h,
            h > 0,
            n >= 0,
    ;
    assert forall|at: (u32, u32)| #[trigger] screen.has(at) implies {
        &&& screen.offset(at) + screen.bytes_per_pixel() <= screen.data@.len()
        &&& channel_fits(screen.pixel(at) as u32, screen.visual.red_mask)
        &&& channel_fits(screen.pixel(at) as u32, screen.visual.green_mask)
        &&& channel_fits(screen.pixel(at) as u32, screen.visual.blue_mask)
    } by {
        lemma_field(screen.pixel(at) as u32, screen.visual.red_mask);
        lemma_field(screen.pixel(at) as u32, screen.visual.green_mask);
        lemma_field(screen.pixel(at) as u32, screen.visual.blue_mask);
        let (x, y) = (at.0 as int, at.1 as int);
        assert(y * stride + x * bytes + bytes <= n) by (nonlinear_arith)
            requires
                0 <= x < w,
                0 <= y < h,
                0 <= bytes,
                w * bytes <= stride,
                stride * h <= n,
        ;
    }
}

/// The first visual with a number, and the first format with a depth, are the ones before which no
/// other has it; there is none exactly when no place has it.
pub proof fn law_first_ones_are_found(
    visuals: Seq<Visual>,
    id: u32,
    visual: Visual,
    formats: Seq<PixmapFormat>,
    depth: u8,
    bits: u8,
    i: int,
)
    ensures
        0 <= i < visuals.len() && visuals[i].id == id && (forall|j: int|
            0 <= j < i ==> (#[trigger] visuals[j]).id != id) ==> (first_visual(visuals, id, visual)
            <==> visual == visuals[i]) && !no_visual(visuals, id),
        0 <= i < formats.len() && formats[i].depth == depth && (forall|j: int|
            0 <= j < i ==> (#[trigger] formats[j]).depth != depth) ==> (first_format(
            formats,
            depth,
            bits,
        ) <==> bits == formats[i].bits_per_pixel) && !no_format(formats, depth),
        no_visual(visuals, id) && 0 <= i < visuals.len() ==> visuals[i].id != id,
        no_format(formats, depth) && 0 <= i < formats.len() ==> formats[i].depth != depth,
        no_visual(visuals, id) ==> !first_visual(visuals, id, visual),
        no_format(formats, depth) ==> !first_format(formats, depth, bits),
{
    if first_visual(visuals, id, visual) && 0 <= i < visuals.len() && visuals[i].id == id && (
    forall|j: int| 0 <= j < i ==> (#[trigger] visuals[j]).id != id) {
        let k = choose|k: int|
            {
                &&& 0 <= k < visuals.len()
                &&& #[trigger] visuals[k] == visual
                &&& visual.id == id
                &&& forall|j: int| 0 <= j < k ==> (#[trigger] visuals[j]).id != id
            };
        assert(k == i);
    }
    if first_format(formats, depth, bits) && 0 <= i < formats.len() && formats[i].depth == depth
        && (forall|j: int| 0 <= j < i ==> (#[trigger] formats[j]).depth != depth) {
        let k = choose|k: int|
            {
                &&& 0 <= k < formats.len()
                &&& (#[trigger] formats[k]).depth == depth
                &&& formats[k].bits_per_pixel == bits
                &&& forall|j: int| 0 <= j < k ==> (#[trigger] formats[j]).depth != depth
            };
        assert(k == i);
    }
}

/// Monitors are shown in the order of the report, without those that show nothing: one more in the
/// report is one more at the end, if it shows something, and changes nothing otherwise. Where none
/// shows anything, one of the size of the screenshot does.
pub proof fn law_monitors_in_the_order_of_the_report(
    reported: Seq<MonitorGeometry>,
    monitor: MonitorGeometry,
    source_width: u32,
    source_height: u32,
)
    ensures
        ({
            let shown = |reported: Seq<MonitorGeometry>|
                shown_monitors(reported, source_width, source_height);
            let shows = monitor.width > 0 && monitor.height > 0;
            let any = exists|i: int|
                0 <= i < reported.len() && (#[trigger] reported[i]).width > 0 && reported[i].height
                    > 0;
            &&& !shows ==> shown(reported.push(monitor)) == shown(reported)
            &&& shows && any ==> shown(reported.push(monitor)) == shown(reported).push(monitor)
            &&& shows && !any ==> shown(reported.push(monitor)) == seq![monitor]
            &&& !any ==> shown(reported) == seq![
                MonitorGeometry { x: 0, y: 0, width: source_width, height: source_height },
            ]
        }),
{
    let keep = |monitor: MonitorGeometry| visible(monitor);
    let kept = reported.filter(keep);
    let more = reported.push(monitor);
    assert(more.drop_last() =~= reported);
    assert(more.filter(keep) =~= if visible(monitor) {
        kept.push(monitor)
    } else {
        kept
    }) by {
        reveal(Seq::filter);
    }
    if exists|i: int|
        0 <= i < reported.len() && (#[trigger] reported[i]).width > 0 && reported[i].height > 0 {
        let i = choose|i: int|
            0 <= i < reported.len() && (#[trigger] reported[i]).width > 0 && reported[i].height > 0;
        reported.lemma_filter_contains(keep, i);
        assert(kept.len() > 0);
    } else if kept.len() > 0 {
        reported.lemma_filter_pred(keep, 0);
        assert(reported.contains(kept[0])) by {
            lemma_kept_is_reported(reported, keep);
        }
    }
    assert(seq![monitor] =~= Seq::<MonitorGeometry>::empty().push(monitor));
}

/// What a filter keeps was there before.
proof fn lemma_kept_is_reported(
    reported: Seq<MonitorGeometry>,
    keep: spec_fn(MonitorGeometry) -> bool,
)
    ensures
        forall|i: int|
            0 <= i < reported.filter(keep).len() ==> reported.contains(
                #[trigger] reported.filter(keep)[i],
            ),
    decreases reported.len(),
{
    reveal(Seq::filter);
    if reported.len() > 0 {
        let earlier = reported.drop_last();
        lemma_kept_is_reported(earlier, keep);
        assert forall|i: int| 0 <= i < reported.filter(keep).len() implies reported.contains(
            #[trigger] reported.filter(keep)[i],
        ) by {
            if i < earlier.filter(keep).len() {
                let m = earlier.filter(keep)[i];
                assert(earlier.contains(m));
                let k = choose|k: int| 0 <= k < earlier.len() && earlier[k] == m;
                assert(reported[k] == m);
            } else {
                assert(reported[reported.len() - 1] == reported.last());
            }
        }
    }
}

/// A crop begins where the monitor does, or at the nearest pixel of the screenshot, and shows what
/// the monitor wants, at least one pixel, as far as the screenshot goes.
pub proof fn law_crop_is_nearest(position: int, wanted: int, length: int)
    requires
        0 <= length,
        0 <= wanted,
    ensures
        ({
            let start = crop_start(position, length);
            let shown = crop_length(start, wanted, length);
            &&& 0 <= position < length ==> start == position
            &&& position < 0 ==> start == 0
            &&& position >= length > 0 ==> start == length - 1
            &&& length == 0 ==> start == 0 && shown == 0
            &&& shown <= length - start
            &&& shown < length - start ==> shown == wanted || (wanted == 0 && shown == 1)
            &&& wanted >= 1 ==> shown <= wanted
            &&& wanted == 0 ==> shown <= 1
        }),
{
}

/// A decoded image has every pixel of the screen, and no other, in its own colour.
pub proof fn law_decoding_keeps_every_pixel(screen: ScreenImage, x: u32, y: u32)
    ensures
        screen.decoded().contains_key((x, y)) <==> x < screen.width && y < screen.height,
        x < screen.width && y < screen.height ==> screen.decoded()[(x, y)] == screen.color((x, y)),
{
}

/// A monitor inside the screenshot shows its own part of it, pixel by pixel: it has the size of the
/// monitor, and at each place what the screenshot has there, counted from the monitor's corner.
pub proof fn law_monitor_inside_shows_its_own_part(
    size: (u32, u32),
    pixels: Map<(u32, u32), (u8, u8, u8, u8)>,
    monitor: MonitorGeometry,
    part_size: (u32, u32),
    part: Map<(u32, u32), (u8, u8, u8, u8)>,
    x: u32,
    y: u32,
)
    requires
        shows_part(size, pixels, monitor, part_size, part),
        monitor.x >= 0,
        monitor.y >= 0,
        monitor.width >= 1,
        monitor.height >= 1,
        monitor.x + monitor.width <= size.0,
        monitor.y + monitor.height <= size.1,
        x < monitor.width,
        y < monitor.height,
    ensures
        part_size == (monitor.width, monitor.height),
        part.contains_key((x, y)),
        part[(x, y)] == pixels[((monitor.x + x) as u32, (monitor.y + y) as u32)],
{
    assert(part.contains_key((x, y)));
}

} // verus!
