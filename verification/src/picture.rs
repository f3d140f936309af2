//! The pixels of a screenshot.
//!
//! A [`Picture`] is an eight-bit RGBA image held by the `image` crate. Its model is a size and a
//! map from coordinates to `(red, green, blue, alpha)`; the functions below are the only ones
//! that touch the image itself.
use vstd::prelude::*;

verus! {

/// An RGBA image with eight bits per channel.
#[verifier::external_body]
pub struct Picture {
    image: image::RgbaImage,
}

/// The pixels that a picture holds, by column and row.
pub uninterp spec fn picture_pixels(picture: Picture) -> Map<(u32, u32), (u8, u8, u8, u8)>;

/// The width and the height that a picture was made with.
pub uninterp spec fn picture_size(picture: Picture) -> (u32, u32);

/// The PNG file, or the text of the error, that encoding these pixels at this size gives.
pub uninterp spec fn png_encoding(
    size: (u32, u32),
    pixels: Map<(u32, u32), (u8, u8, u8, u8)>,
) -> Result<Seq<u8>, Seq<char>>;

/// The file or the error text that a result holds.
pub open spec fn contents(written: Result<Vec<u8>, String>) -> Result<Seq<u8>, Seq<char>> {
    match written {
        Ok(bytes) => Ok(bytes@),
        Err(error) => Err(error@),
    }
}

/// Whether the coordinates lie inside an image of the given size.
pub open spec fn in_bounds(size: (u32, u32), at: (u32, u32)) -> bool {
    at.0 < size.0 && at.1 < size.1
}

/// The number of bytes of an image of the given size.
pub open spec fn byte_count(size: (u32, u32)) -> int {
    4 * (size.0 * size.1)
}

/// Where the four bytes of a pixel begin in the row-major layout.
pub open spec fn byte_offset(size: (u32, u32), at: (u32, u32)) -> int {
    4 * (at.1 * size.0 + at.0)
}

/// The pixel whose four bytes begin at `offset`.
pub open spec fn pixel_at(bytes: Seq<u8>, offset: int) -> (u8, u8, u8, u8) {
    (bytes[offset], bytes[offset + 1], bytes[offset + 2], bytes[offset + 3])
}

/// The pixels that row-major bytes stand for.
pub open spec fn unpacked(size: (u32, u32), bytes: Seq<u8>) -> Map<
    (u32, u32),
    (u8, u8, u8, u8),
> {
    Map::new(
        |at: (u32, u32)| in_bounds(size, at),
        |at: (u32, u32)| pixel_at(bytes, byte_offset(size, at)),
    )
}

/// `image::ImageBuffer::from_raw`: makes an image of row-major bytes. There is one exactly when
/// the length of a row can be counted in a `usize` and the bytes suffice for the size; bytes beyond
/// it belong to no pixel.
#[verifier::external_body]
pub(crate) fn image_from_raw(width: u32, height: u32, bytes: Vec<u8>) -> (made: Option<Picture>)
    ensures
        made is Some <==> (4 * width <= usize::MAX && byte_count((width, height)) <= bytes@.len()),
        made matches Some(picture) ==> {
            &&& picture_size(picture) == (width, height)
            &&& picture_pixels(picture) == unpacked((width, height), bytes@)
        },
{
    image::RgbaImage::from_raw(width, height, bytes).map(|image| Picture { image })
}

/// `image::ImageBuffer::into_raw`: gives up the bytes of the image. They are row-major and at
/// least as many as the size asks for.
#[verifier::external_body]
pub(crate) fn image_into_raw(picture: Picture) -> (bytes: Vec<u8>)
    ensures
        byte_count(picture_size(picture)) <= bytes@.len(),
        picture_pixels(picture) == unpacked(picture_size(picture), bytes@),
{
    picture.image.into_raw()
}

/// `image::ImageBuffer::new`: an image whose bytes are all zero. It panics where the length of a
/// row cannot be counted in a `usize`, and where the bytes do not fit in a vector.
#[verifier::external_body]
pub(crate) fn image_blank(width: u32, height: u32) -> (picture: Picture)
    requires
        4 * width <= usize::MAX,
        byte_count((width, height)) <= isize::MAX,
    ensures
        picture_size(picture) == (width, height),
        picture_pixels(picture) == Map::new(
            |at: (u32, u32)| in_bounds((width, height), at),
            |at: (u32, u32)| (0u8, 0u8, 0u8, 0u8),
        ),
{
    Picture { image: image::RgbaImage::new(width, height) }
}

/// `image::ImageBuffer::dimensions`: the width and the height. Every image has a pixel at each
/// coordinate inside these bounds and at no other, and its bytes are held in one vector.
#[verifier::external_body]
pub(crate) fn image_dimensions(picture: &Picture) -> (size: (u32, u32))
    ensures
        size == picture_size(*picture),
        picture_pixels(*picture).dom() =~= Set::new(|at: (u32, u32)| in_bounds(size, at)),
        byte_count(size) <= isize::MAX,
{
    picture.image.dimensions()
}

/// `image::ImageBuffer::put_pixel`: sets one pixel and leaves the others and the size as they
/// are. It panics outside the bounds.
#[verifier::external_body]
pub(crate) fn image_put_pixel(picture: &mut Picture, x: u32, y: u32, color: (u8, u8, u8, u8))
    requires
        in_bounds(picture_size(*old(picture)), (x, y)),
    ensures
        picture_size(*final(picture)) == picture_size(*old(picture)),
        picture_pixels(*final(picture)) == picture_pixels(*old(picture)).insert((x, y), color),
{
    picture.image.put_pixel(x, y, image::Rgba([color.0, color.1, color.2, color.3]));
}

/// `Clone::clone` of `image::ImageBuffer`: an image of the same size with the same pixels.
#[verifier::external_body]
pub(crate) fn image_clone(picture: &Picture) -> (copy: Picture)
    ensures
        picture_size(copy) == picture_size(*picture),
        picture_pixels(copy) == picture_pixels(*picture),
{
    Picture { image: picture.image.clone() }
}

/// The lesser of two numbers.
pub open spec fn lesser(a: int, b: int) -> int {
    if a < b {
        a
    } else {
        b
    }
}

/// `image::imageops::crop_imm` with `to_image`: a copy of the part of an image that begins at
/// `(x, y)` and has at most the given size. What lies outside the image is cut off.
#[verifier::external_body]
pub(crate) fn image_crop(picture: &Picture, x: u32, y: u32, width: u32, height: u32) -> (part:
    Picture)
    ensures
        picture_size(part).0 == lesser(
            width as int,
            picture_size(*picture).0 - lesser(x as int, picture_size(*picture).0 as int),
        ),
        picture_size(part).1 == lesser(
            height as int,
            picture_size(*picture).1 - lesser(y as int, picture_size(*picture).1 as int),
        ),
        picture_pixels(part) == Map::new(
            |at: (u32, u32)| in_bounds(picture_size(part), at),
            |at: (u32, u32)|
                picture_pixels(*picture)[((x + at.0) as u32, (y + at.1) as u32)],
        ),
{
    Picture { image: image::imageops::crop_imm(&picture.image, x, y, width, height).to_image() }
}

/// `image::ImageBuffer::write_to` with the PNG format, into memory: the encoded file or the text
/// of the error, either of which the size and the pixels determine.
#[verifier::external_body]
pub(crate) fn image_write_png(picture: &Picture) -> (written: Result<Vec<u8>, String>)
    ensures
        contents(written) == png_encoding(picture_size(*picture), picture_pixels(*picture)),
{
    let mut bytes: Vec<u8> = Vec::new();
    let mut cursor = std::io::Cursor::new(&mut bytes);
    match picture.image.write_to(&mut cursor, image::ImageFormat::Png) {
        Ok(()) => Ok(bytes),
        Err(error) => Err(error.to_string()),
    }
}

impl Picture {
    /// The width and the height.
    pub open spec fn size(self) -> (u32, u32) {
        picture_size(self)
    }

    /// The pixels by column and row.
    pub open spec fn pixels(self) -> Map<(u32, u32), (u8, u8, u8, u8)> {
        picture_pixels(self)
    }

    /// The width and the height.
    pub fn dimensions(&self) -> (size: (u32, u32))
        ensures
            size == self.size(),
            forall|at: (u32, u32)|
                #[trigger] self.pixels().contains_key(at) <==> in_bounds(self.size(), at),
    {
        image_dimensions(self)
    }

    /// Makes a picture of row-major bytes, four to a pixel. There is one exactly when a row is not
    /// too long for the machine and the bytes suffice for the size; any bytes beyond it are left
    /// unused.
    pub fn from_rgba8(width: u32, height: u32, bytes: Vec<u8>) -> (made: Option<Picture>)
        ensures
            made is Some <==> (4 * width <= usize::MAX && byte_count((width, height))
                <= bytes@.len()),
            made matches Some(picture) ==> {
                &&& picture.size() == (width, height)
                &&& picture.pixels() == unpacked((width, height), bytes@)
            },
    {
        image_from_raw(width, height, bytes)
    }

    /// Takes the picture apart into its row-major bytes, four to a pixel and no more.
    pub fn into_rgba8(self) -> (bytes: Vec<u8>)
        ensures
            bytes@.len() == byte_count(self.size()),
            self.pixels() == unpacked(self.size(), bytes@),
    {
        let (width, height): (u32, u32) = image_dimensions(&self);
        proof {
            lemma_area(width as int, height as int);
        }
        let area: u64 = width as u64 * height as u64;
        let count: usize = 4 * area as usize;
        let ghost size = self.size();
        let ghost pixels = self.pixels();
        let mut bytes: Vec<u8> = image_into_raw(self);
        let ghost all = bytes@;
        bytes.truncate(count);
        proof {
            assert forall|at: (u32, u32)| in_bounds(size, at) implies pixel_at(
                bytes@,
                byte_offset(size, at),
            ) == pixel_at(all, byte_offset(size, at)) by {
                lemma_offset_in_range(size, at);
            }
            assert(unpacked(size, bytes@) =~= unpacked(size, all));
        }
        bytes
    }

    /// The PNG file of the picture, or the text of the error if it cannot be encoded.
    pub fn to_png(&self) -> (written: Result<Vec<u8>, String>)
        ensures
            contents(written) == png_encoding(self.size(), self.pixels()),
    {
        image_write_png(self)
    }
}

/// The area of an image fits in 64 bits.
proof fn lemma_area(width: int, height: int)
    requires
        0 <= width <= u32::MAX,
        0 <= height <= u32::MAX,
    ensures
        0 <= width * height <= u64::MAX,
{
    assert(0 <= width * height <= 0xffff_ffff * 0xffff_ffff) by (nonlinear_arith)
        requires
            0 <= width <= 0xffff_ffff,
            0 <= height <= 0xffff_ffff,
    ;
}

/// The bytes of a pixel inside the bounds lie inside the bytes of the image.
proof fn lemma_offset_in_range(size: (u32, u32), at: (u32, u32))
    requires
        in_bounds(size, at),
    ensures
        0 <= byte_offset(size, at),
        byte_offset(size, at) + 4 <= byte_count(size),
{
    let (w, h, x, y) = (size.0 as int, size.1 as int, at.0 as int, at.1 as int);
    assert(0 <= y * w + x && y * w + x + 1 <= w * h) by (nonlinear_arith)
        requires
            0 <= x < w,
            0 <= y < h,
    ;
}

/// Pixels determine bytes: two row-major byte sequences of the length that a size asks for, which
/// stand for the same pixels, are the same. So a picture made of such bytes and taken apart again
/// gives back these bytes.
pub proof fn law_bytes_round_trip(size: (u32, u32), given: Seq<u8>, taken: Seq<u8>)
    requires
        given.len() == byte_count(size),
        taken.len() == byte_count(size),
        unpacked(size, given) == unpacked(size, taken),
    ensures
        given == taken,
{
    assert forall|i: int| 0 <= i < given.len() implies given[i] == taken[i] by {
        let (w, h) = (size.0 as int, size.1 as int);
        let p = i / 4;
        assert(0 <= p < w * h);
        assert(w > 0) by (nonlinear_arith)
            requires
                0 <= p < w * h,
                w >= 0,
        ;
        let x = p % w;
        let y = p / w;
        assert(p == y * w + x && 0 <= x < w && 0 <= y) by (nonlinear_arith)
            requires
                w > 0,
                p >= 0,
                x == p % w,
                y == p / w,
        ;
        assert(y < h) by (nonlinear_arith)
            requires
                p == y * w + x,
                p < w * h,
                0 <= x,
                w > 0,
        ;
        let at = (x as u32, y as u32);
        assert(in_bounds(size, at));
        assert(unpacked(size, given)[at] == unpacked(size, taken)[at]);
        assert(byte_offset(size, at) == 4 * p);
    }
    assert(given =~= taken);
}

/// Row-major bytes stand for their pixels: inside the size, and only there, is a pixel, and it has
/// the four bytes at four times the number of pixels before it, which are those of the rows above
/// it and those to its left.
pub proof fn law_pixels_are_in_row_order(size: (u32, u32), bytes: Seq<u8>, at: (u32, u32))
    ensures
        byte_count(size) == size.0 * size.1 * 4,
        unpacked(size, bytes).contains_key(at) <==> at.0 < size.0 && at.1 < size.1,
        at.0 < size.0 && at.1 < size.1 ==> {
            let first = (at.1 * size.0 + at.0) * 4;
            unpacked(size, bytes)[at] == (
                bytes[first],
                bytes[first + 1],
                bytes[first + 2],
                bytes[first + 3],
            )
        },
{
}

/// What encoding gave is told whole: the bytes of the file, or the text of the error.
pub proof fn law_contents_are_told_whole(bytes: Vec<u8>, error: String)
    ensures
        contents(Ok(bytes)) == Ok::<Seq<u8>, Seq<char>>(bytes@),
        contents(Err(error)) == Err::<Seq<u8>, Seq<char>>(error@),
{
}

} // verus!
