//! Images: their sizes, their pixels, and the previews made of them. The work on the pixels is
//! that of the `image` crate.

use std::io::Cursor;
use std::sync::Arc;

use image::codecs::jpeg::JpegEncoder;
use image::imageops::FilterType;
use image::{ExtendedColorType, ImageEncoder, ImageReader, RgbImage};

use vstd::prelude::*;

use crate::number;

verus! {

/// Another handle on the same image. `Arc::clone` gives a pointer to the same allocation, so both
/// hold the same bytes.
#[verifier::external_body]
pub(crate) fn share(image: &Arc<Vec<u8>>) -> (r: Arc<Vec<u8>>)
    ensures
        r == *image,
{
    Arc::clone(image)
}

/// The width and height that `image` reads in the header of an encoded image, or the text of its
/// error.
pub uninterp spec fn header_size(bytes: Seq<u8>) -> Result<(u32, u32), Seq<char>>;

/// The view of a size or an error text.
pub open spec fn size_of(r: Result<(u32, u32), String>) -> Result<(u32, u32), Seq<char>> {
    match r {
        Ok(size) => Ok(size),
        Err(e) => Err(e@),
    }
}

/// `image::ImageReader::into_dimensions`, with the format guessed from the bytes: the size in the
/// header of an encoded image. It depends on the bytes alone, as no decoding hooks are installed.
/// Guessing reads from memory and does not fail.
#[verifier::external_body]
pub(crate) fn read_size(bytes: &[u8]) -> (r: Result<(u32, u32), String>)
    ensures
        size_of(r) == header_size(bytes@),
{
    match ImageReader::new(Cursor::new(bytes)).with_guessed_format() {
        Ok(reader) => reader.into_dimensions().map_err(|e| e.to_string()),
        Err(e) => Err(e.to_string()),
    }
}

/// The pixels of an image, row by row, three bytes for each.
#[derive(Debug)]
pub struct Pixels {
    pub width: u32,
    pub height: u32,
    pub data: Vec<u8>,
}

/// What a `Pixels` says.
#[verifier::ext_equal]
pub struct PixelModel {
    pub width: u32,
    pub height: u32,
    pub data: Seq<u8>,
}

impl View for Pixels {
    type V = PixelModel;

    open spec fn view(&self) -> PixelModel {
        PixelModel { width: self.width, height: self.height, data: self.data@ }
    }
}

/// As many bytes as the size asks for.
pub open spec fn filled(p: PixelModel) -> bool {
    p.data.len() == p.width * p.height * 3
}

/// The pixels that `image` decodes from an encoded image, or the text of its error.
pub uninterp spec fn decoded(bytes: Seq<u8>) -> Result<PixelModel, Seq<char>>;

/// The view of decoded pixels or an error text.
pub open spec fn pixels_of(r: Result<Pixels, String>) -> Result<PixelModel, Seq<char>> {
    match r {
        Ok(p) => Ok(p@),
        Err(e) => Err(e@),
    }
}

/// `image::ImageReader::decode`, with the format guessed from the bytes, taken as three bytes for
/// each pixel. It depends on the bytes alone: the decoders choose between code for several
/// processors that is made to give the same pixels.
#[verifier::external_body]
pub(crate) fn decode(bytes: &[u8]) -> (r: Result<Pixels, String>)
    ensures
        pixels_of(r) == decoded(bytes@),
        r matches Ok(p) ==> filled(p@),
{
    let reader = ImageReader::new(Cursor::new(bytes)).with_guessed_format().map_err(
        |e| e.to_string(),
    )?;
    let rgb = reader.decode().map_err(|e| e.to_string())?.to_rgb8();
    let (width, height) = rgb.dimensions();
    Ok(Pixels { width, height, data: rgb.into_raw() })
}

/// The pixels that `image` makes of others when it scales them with its triangle filter.
pub uninterp spec fn scaled(p: PixelModel, width: u32, height: u32) -> PixelModel;

/// The longest side to which pixels can be scaled. Up to it, single precision finds for every pixel
/// of the result one that it is made from.
pub const MAX_SIDE: u32 = 0x10_0000;

/// A size to which pixels can be scaled: not nothing, no side is too long, and no buffer on the
/// way, with sixteen bytes for each pixel, passes what memory can address.
pub open spec fn scalable(p: PixelModel, width: u32, height: u32) -> bool {
    &&& filled(p)
    &&& 0 < width <= MAX_SIDE
    &&& 0 < height <= MAX_SIDE
    &&& p.width * height * 16 <= isize::MAX
    &&& width * height * 3 <= isize::MAX
}

/// `image::imageops::resize` with the triangle filter: pixels of the size asked for. It panics
/// where no pixel has a weight in a pixel of the result, which can come of a longer side.
#[verifier::external_body]
pub(crate) fn scale(p: &Pixels, width: u32, height: u32) -> (r: Pixels)
    requires
        scalable(p@, width, height),
    ensures
        r@ == scaled(p@, width, height),
        r@.width == width,
        r@.height == height,
        filled(r@),
{
    let rgb = RgbImage::from_raw(p.width, p.height, p.data.clone()).unwrap();
    let small = image::imageops::resize(&rgb, width, height, FilterType::Triangle);
    Pixels { width, height, data: small.into_raw() }
}

/// The JPEG file that `image` makes of pixels at a quality, or the text of its error.
pub uninterp spec fn jpeg(p: PixelModel, quality: u8) -> Result<Seq<u8>, Seq<char>>;

/// The view of a file or an error text.
pub open spec fn file_of(r: Result<Vec<u8>, String>) -> Result<Seq<u8>, Seq<char>> {
    match r {
        Ok(b) => Ok(b@),
        Err(e) => Err(e@),
    }
}

/// A size that a JPEG file can have.
pub open spec fn jpeg_size(width: u32, height: u32) -> bool {
    1 <= width <= 0xFFFF && 1 <= height <= 0xFFFF
}

/// The text of the error of `image` at a size that a JPEG file cannot have.
pub open spec fn size_refused(width: u32, height: u32) -> Seq<char> {
    "Format error encoding Jpeg:\nInvalid image size ("@ + number::decimal(width as nat) + " x "@
        + number::decimal(height as nat)
        + ") to encode as JPEG: width and height must be >= 1 and <= 65535"@
}

/// What comes of a size that a JPEG file cannot have.
pub open spec fn no_file(width: u32, height: u32) -> Result<Seq<u8>, Seq<char>> {
    Err(size_refused(width, height))
}

/// `image::codecs::jpeg::JpegEncoder`: the JPEG file of the pixels at the quality; a size that such
/// a file cannot have is refused. It panics where the bytes do not fill the size.
#[verifier::external_body]
pub(crate) fn encode(p: &Pixels, quality: u8) -> (r: Result<Vec<u8>, String>)
    requires
        filled(p@),
    ensures
        file_of(r) == jpeg(p@, quality),
        !jpeg_size(p@.width, p@.height) ==> file_of(r) == no_file(p@.width, p@.height),
{
    let mut out = Vec::new();
    JpegEncoder::new_with_quality(&mut out, quality).write_image(
        &p.data,
        p.width,
        p.height,
        ExtendedColorType::Rgb8,
    ).map_err(|e| e.to_string())?;
    Ok(out)
}

/// A preview: its size, and four bytes for each pixel.
#[derive(Debug)]
pub struct Preview {
    pub width: u32,
    pub height: u32,
    pub rgba: Vec<u8>,
}

/// What a `Preview` says.
#[verifier::ext_equal]
pub struct PreviewModel {
    pub width: u32,
    pub height: u32,
    pub rgba: Seq<u8>,
}

impl View for Preview {
    type V = PreviewModel;

    open spec fn view(&self) -> PreviewModel {
        PreviewModel { width: self.width, height: self.height, rgba: self.rgba@ }
    }
}

/// The view of an optional preview.
pub open spec fn preview_of(p: Option<Preview>) -> Option<PreviewModel> {
    match p {
        Some(p) => Some(p@),
        None => None,
    }
}

/// The preview that `image` makes of an encoded image within a square of the given edge; none
/// where it cannot decode it.
pub uninterp spec fn shrunk(bytes: Seq<u8>, edge: u32) -> Option<PreviewModel>;

/// The shortest edge of a square for a preview.
pub const MIN_EDGE: u32 = 960;

/// The longest edge of a square for a preview.
pub const MAX_EDGE: u32 = 4096;

/// An image so slim that one side of its preview is less than seven pixels before it is rounded.
pub open spec fn slim(size: (u32, u32), edge: u32) -> bool {
    size.0 * edge < 7 * size.1 || size.1 * edge < 7 * size.0
}

/// An image that can be shrunk to the edge: one that is not slim. `image` decodes no more than
/// 512 MiB, so that a pixel of its preview sums less than 65536 pixels of sixteen bits, which
/// thirty-two bits hold.
pub open spec fn shrinkable(bytes: Seq<u8>, edge: u32) -> bool {
    &&& MIN_EDGE <= edge <= MAX_EDGE
    &&& (header_size(bytes) matches Ok(size) ==> !slim(size, edge))
}

/// `image::DynamicImage::thumbnail` of what `image::load_from_memory` makes of the bytes, as four
/// bytes for each pixel: a preview no side of which passes the edge, for just the images that
/// `decode` takes. It depends on the bytes and the edge alone, as `decode` does. The sums of its
/// pixels can pass thirty-two bits where an image of sixteen bits is slim.
#[verifier::external_body]
pub(crate) fn shrink(bytes: &[u8], edge: u32) -> (r: Option<Preview>)
    requires
        shrinkable(bytes@, edge),
    ensures
        preview_of(r) == shrunk(bytes@, edge),
        r is Some == decoded(bytes@) is Ok,
        r matches Some(p) ==> p@.rgba.len() == p@.width * p@.height * 4 && p@.width <= edge
            && p@.height <= edge,
{
    let rgba = image::load_from_memory(bytes).ok()?.thumbnail(edge, edge).to_rgba8();
    Some(Preview { width: rgba.width(), height: rgba.height(), rgba: rgba.into_raw() })
}

/// A JPEG file begins at `i`.
pub open spec fn starts_jpeg(b: Seq<u8>, i: int) -> bool {
    0 <= i && i + 1 < b.len() && b[i] == 0xFF && b[i + 1] == 0xD8
}

/// The bytes from the first start of a JPEG file on; all of them where there is none.
pub open spec fn from_jpeg(b: Seq<u8>) -> Seq<u8> {
    first_jpeg(b, 0)
}

/// The bytes from the first start of a JPEG file at or after `i` on; all of them where there is
/// none.
pub open spec fn first_jpeg(b: Seq<u8>, i: int) -> Seq<u8>
    decreases b.len() - i,
{
    if i >= b.len() {
        b
    } else if starts_jpeg(b, i) {
        b.skip(i)
    } else {
        first_jpeg(b, i + 1)
    }
}

/// What comes before a JPEG file is left out, and nothing else.
pub proof fn a_jpeg_file_is_found(b: Seq<u8>, i: int)
    requires
        starts_jpeg(b, i),
        forall|j: int| 0 <= j < i ==> !starts_jpeg(b, j),
    ensures
        from_jpeg(b) == b.skip(i),
{
    lemma_first(b, 0, i);
}

proof fn lemma_first(b: Seq<u8>, at: int, i: int)
    requires
        0 <= at <= i,
        starts_jpeg(b, i),
        forall|j: int| 0 <= j < i ==> !starts_jpeg(b, j),
    ensures
        first_jpeg(b, at) == b.skip(i),
    decreases i - at,
{
    if at < i {
        lemma_first(b, at + 1, i);
    }
}

/// The bytes from the first start of a JPEG file on; all of them where there is none.
pub fn jpeg_part(bytes: &[u8]) -> (r: Vec<u8>)
    ensures
        r@ == from_jpeg(bytes@),
{
    let n: usize = bytes.len();
    let mut i: usize = 0;
    while i < n
        invariant
            i <= n,
            n == bytes@.len(),
            first_jpeg(bytes@, 0) == first_jpeg(bytes@, i as int),
        decreases n - i,
    {
        if n - i >= 2 && bytes[i] == 0xFF && bytes[i + 1] == 0xD8 {
            return tail(bytes, i);
        }
        i += 1;
    }
    let r = tail(bytes, 0);
    assert(r@ =~= bytes@);
    r
}

fn tail(bytes: &[u8], from: usize) -> (r: Vec<u8>)
    requires
        from <= bytes@.len(),
    ensures
        r@ == bytes@.skip(from as int),
{
    let mut out: Vec<u8> = Vec::new();
    let mut i: usize = from;
    while i < bytes.len()
        invariant
            from <= i <= bytes@.len(),
            out@ == bytes@.subrange(from as int, i as int),
        decreases bytes@.len() - i,
    {
        out.push(bytes[i]);
        i += 1;
        assert(out@ =~= bytes@.subrange(from as int, i as int));
    }
    assert(out@ =~= bytes@.skip(from as int));
    out
}

/// The edge of the square into which a preview fits.
pub const PREVIEW_EDGE: u32 = 960;

/// A preview that is too small to show anything is none.
pub open spec fn worth_showing(p: Option<PreviewModel>) -> Option<PreviewModel> {
    match p {
        Some(p) => if p.width < 8 || p.height < 8 {
            None
        } else {
            Some(p)
        },
        None => None,
    }
}

/// A preview that is too small to show anything is none.
pub fn shown(p: Option<Preview>) -> (r: Option<Preview>)
    ensures
        preview_of(r) == worth_showing(preview_of(p)),
{
    match p {
        Some(p) => {
            if p.width < 8 || p.height < 8 {
                None
            } else {
                Some(p)
            }
        },
        None => None,
    }
}

/// A preview fits into its square, is large enough to show something, and has all its bytes.
pub open spec fn well_sized(p: PreviewModel) -> bool {
    &&& 8 <= p.width <= PREVIEW_EDGE
    &&& 8 <= p.height <= PREVIEW_EDGE
    &&& p.rgba.len() == p.width * p.height * 4
}

/// An image whose size was read or not is known to be too slim for a preview: a side of less than
/// seven pixels is rounded to less than eight.
pub open spec fn too_slim(size: Result<(u32, u32), Seq<char>>) -> bool {
    size matches Ok(s) && slim(s, PREVIEW_EDGE)
}

/// The preview of a page.
pub open spec fn page_preview(bytes: Seq<u8>) -> Option<PreviewModel> {
    let part = from_jpeg(bytes);
    if too_slim(header_size(part)) {
        None
    } else {
        worth_showing(shrunk(part, PREVIEW_EDGE))
    }
}

/// An image whose size was read or not is known to be too slim for a preview.
pub fn is_too_slim(size: &Result<(u32, u32), String>) -> (r: bool)
    ensures
        r == too_slim(size_of(*size)),
{
    match size {
        Ok((width, height)) => {
            let w: u64 = *width as u64;
            let h: u64 = *height as u64;
            let edge: u64 = PREVIEW_EDGE as u64;
            assert(w * edge <= 0xFFFF_FFFF * 960 && h * edge <= 0xFFFF_FFFF * 960)
                by (nonlinear_arith)
                requires
                    w <= 0xFFFF_FFFF,
                    h <= 0xFFFF_FFFF,
                    edge == 960,
            ;
            w * edge < 7 * h || h * edge < 7 * w
        },
        Err(_) => false,
    }
}

/// The preview of a page; none where it cannot be decoded or would be too small.
pub fn decode_preview(bytes: &[u8]) -> (r: Option<Preview>)
    ensures
        preview_of(r) == page_preview(bytes@),
        decoded(from_jpeg(bytes@)) is Err ==> r is None,
        r matches Some(p) ==> well_sized(p@),
{
    let part = jpeg_part(bytes);
    if is_too_slim(&read_size(part.as_slice())) {
        return None;
    }
    shown(shrink(part.as_slice(), PREVIEW_EDGE))
}

/// Bytes in which no JPEG file begins are taken whole.
pub proof fn other_files_are_taken_whole(b: Seq<u8>)
    requires
        forall|i: int| 0 <= i && i + 1 < b.len() ==> !(#[trigger] b[i] == 0xFF && b[i + 1] == 0xD8),
    ensures
        from_jpeg(b) == b,
{
    lemma_no_jpeg(b, 0);
}

proof fn lemma_no_jpeg(b: Seq<u8>, at: int)
    requires
        0 <= at,
        forall|i: int| 0 <= i && i + 1 < b.len() ==> !(#[trigger] b[i] == 0xFF && b[i + 1] == 0xD8),
    ensures
        first_jpeg(b, at) == b,
    decreases b.len() - at,
{
    if at < b.len() {
        lemma_no_jpeg(b, at + 1);
    }
}

/// A preview is shown as it is where both its sides have at least eight pixels, and no page that
/// could have such a preview is passed over as too slim.
pub proof fn previews_worth_showing_are_shown(p: PreviewModel, width: u32, height: u32)
    ensures
        worth_showing(Some(p)) == Some(p) <==> p.width >= 8 && p.height >= 8,
        p.width < 8 || p.height < 8 ==> worth_showing(Some(p)) is None,
        worth_showing(None) is None,
        8 * width <= 960 * height && 8 * height <= 960 * width ==> !too_slim(Ok((width, height))),
        too_slim(Ok((width, height))) ==> 960 * width < 8 * height || 960 * height < 8 * width,
{
}

/// A page that can be decoded and is not too slim is shown as it was shrunk.
pub proof fn pages_are_previewed(bytes: Seq<u8>)
    ensures
        !too_slim(header_size(from_jpeg(bytes))) ==> page_preview(bytes) == worth_showing(
            shrunk(from_jpeg(bytes), 960),
        ),
        page_preview(bytes) matches Some(p) ==> shrunk(from_jpeg(bytes), 960) == Some(p) && p.width
            >= 8 && p.height >= 8,
{
}

} // verus!
