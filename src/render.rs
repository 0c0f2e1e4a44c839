//! Rendering of previews in memory: decoding raster images to RGBA pixels,
//! scaling pixels into a square bounding box and encoding them as PNG.
//!
//! The host reads the source file and calls these inside its crash
//! boundary; nothing here touches the disk.

use vstd::prelude::*;
use vstd::string::*;

verus! {

/// What `image::load_from_memory` decodes from `b`, as (width, height,
/// RGBA bytes), or nothing when it refuses the bytes.
pub uninterp spec fn decoded_rgba(b: Seq<u8>) -> Option<(u32, u32, Seq<u8>)>;

/// What `DynamicImage::thumbnail` makes of an RGBA image of `w` x `h` with
/// pixels `px` for a `size` x `size` box, as (width, height, RGBA bytes).
pub uninterp spec fn thumbnail_of(w: u32, h: u32, px: Seq<u8>, size: u32) -> (u32, u32, Seq<u8>);

/// The PNG encoding that `image` writes for an RGBA image of `w` x `h` with
/// exactly the pixels `px`.
pub uninterp spec fn png_of_rgba(w: u32, h: u32, px: Seq<u8>) -> Seq<u8>;

/// Whether the raster decoder accepts the bytes `b`.
pub open spec fn raster_decodes(b: Seq<u8>) -> bool {
    decoded_rgba(b) is Some
}

/// Whether a thumbnail box of `size` keeps its pixel buffer addressable:
/// the scaled image is at most `size` (and at least 1) pixels a side.
pub open spec fn thumbnail_fits(size: u32) -> bool {
    4 * (size + 1) * (size + 1) <= usize::MAX
}

/// The PNG preview of an RGBA image: scaled into the box, then encoded.
pub open spec fn rgba_preview_png(w: u32, h: u32, px: Seq<u8>, size: u32) -> Seq<u8> {
    let t = thumbnail_of(w, h, px, size);
    png_of_rgba(t.0, t.1, t.2)
}

/// The PNG preview of a raster file's bytes, if they decode.
pub open spec fn raster_preview_png(b: Seq<u8>, size: u32) -> Option<Seq<u8>> {
    match decoded_rgba(b) {
        Some(d) => Some(rgba_preview_png(d.0, d.1, d.2, size)),
        None => None,
    }
}

/// Relies on `image::load_from_memory`, which guesses the format from the
/// bytes and decodes them, with the result turned into RGBA bytes by
/// `DynamicImage::into_rgba8`. An image buffer always holds at least
/// `4 * width * height` bytes. The error is handed back as its text.
#[verifier::external_body]
fn decode_raster(b: &[u8]) -> (r: Result<(u32, u32, Vec<u8>), String>)
    ensures
        r is Ok <==> raster_decodes(b@),
        r matches Ok(d) ==> decoded_rgba(b@) == Some((d.0, d.1, d.2@)) && 4 * d.0 * d.1
            <= d.2@.len(),
{
    match image::load_from_memory(b) {
        Ok(img) => {
            let rgba = img.into_rgba8();
            Ok((rgba.width(), rgba.height(), rgba.into_raw()))
        },
        Err(e) => Err(e.to_string()),
    }
}

/// Relies on `DynamicImage::thumbnail` for an RGBA image built by
/// `RgbaImage::from_raw` (which keeps any buffer of at least `4 * w * h`
/// bytes). The new size keeps the aspect ratio and is at least 1 a side
/// (`resize_dimensions`), and its buffer, from `ImageBuffer::new`, holds
/// exactly four bytes a pixel. That buffer overflows `usize`, and
/// `ImageBuffer::new` panics, only for boxes that `thumbnail_fits` rules out.
#[verifier::external_body]
fn scale_rgba(w: u32, h: u32, px: Vec<u8>, size: u32) -> (r: Option<(u32, u32, Vec<u8>)>)
    requires
        4 * w * h <= px@.len(),
        thumbnail_fits(size),
    ensures
        r is Some,
        r matches Some(t) ==> thumbnail_of(w, h, px@, size) == (t.0, t.1, t.2@) && t.0 >= 1 && t.1
            >= 1 && t.2@.len() == 4 * t.0 * t.1,
{
    image::RgbaImage::from_raw(w, h, px).map(|img| {
        let t = image::DynamicImage::ImageRgba8(img).thumbnail(size, size).into_rgba8();
        (t.width(), t.height(), t.into_raw())
    })
}

/// Relies on `ImageBuffer::write_to` with `ImageFormat::Png`, into memory,
/// for an RGBA image built by `RgbaImage::from_raw` from exactly its
/// pixels. The PNG encoder refuses only a zero width or height
/// (`png::Writer::init`); the buffer length it checks is exact here.
#[verifier::external_body]
fn write_png(w: u32, h: u32, px: Vec<u8>) -> (r: Option<Vec<u8>>)
    requires
        px@.len() == 4 * w * h,
    ensures
        r is Some <==> (w > 0 && h > 0),
        r matches Some(p) ==> p@ == png_of_rgba(w, h, px@),
{
    image::RgbaImage::from_raw(w, h, px).and_then(|img| {
        let mut buf: Vec<u8> = Vec::new();
        img.write_to(&mut std::io::Cursor::new(&mut buf), image::ImageFormat::Png).ok().map(|_| buf)
    })
}

/// The number of bytes of an RGBA image of `w` x `h`.
fn pixel_bytes(w: u32, h: u32) -> (r: u128)
    ensures
        r == 4 * w * h,
{
    assert(4 * (w as int) * (h as int) <= 4 * 0xffff_ffffint * 0xffff_ffffint) by (nonlinear_arith)
        requires
            w <= 0xffff_ffff,
            h <= 0xffff_ffff,
    ;
    4u128 * (w as u128) * (h as u128)
}

/// Encodes an RGBA image of `width` x `height` as PNG at its own size, from
/// the first `4 * width * height` bytes of `pixels`. `None` exactly when the
/// image is empty or the pixels do not fill it.
pub fn encode_rgba_png(width: u32, height: u32, pixels: Vec<u8>) -> (r: Option<Vec<u8>>)
    ensures
        r is Some <==> width > 0 && height > 0 && 4 * width * height <= pixels@.len(),
        r matches Some(p) ==> p@ == png_of_rgba(
            width,
            height,
            pixels@.take(4 * width * height),
        ),
{
    if width == 0 || height == 0 {
        return None;
    }
    let need = pixel_bytes(width, height);
    if need > pixels.len() as u128 {
        return None;
    }
    let mut px = pixels;
    px.truncate(need as usize);
    assert(px@ =~= pixels@.take(4 * width * height));
    write_png(width, height, px)
}

/// The PNG preview of an RGBA image of `width` x `height` (a decoded raster
/// image, or the flattened layers of a layered image): scaled into a
/// `size` x `size` box keeping its aspect ratio, then encoded. An error
/// exactly when the pixels do not fill the image.
pub fn rgba_thumbnail_png(width: u32, height: u32, pixels: Vec<u8>, size: u32) -> (r: Result<
    Vec<u8>,
    String,
>)
    requires
        thumbnail_fits(size),
    ensures
        r is Ok <==> 4 * width * height <= pixels@.len(),
        r matches Ok(p) ==> p@ == rgba_preview_png(width, height, pixels@, size),
        r matches Err(e) ==> e@ == "pixels do not fill the image"@,
{
    let need = pixel_bytes(width, height);
    if need > pixels.len() as u128 {
        return Err(String::from_str("pixels do not fill the image"));
    }
    match scale_rgba(width, height, pixels, size) {
        Some((tw, th, tp)) => match write_png(tw, th, tp) {
            Some(png) => Ok(png),
            None => Err(String::from_str("pixels do not fill the image")),
        },
        None => Err(String::from_str("pixels do not fill the image")),
    }
}

/// The PNG preview of a raster image's bytes, scaled to fit in `size` x
/// `size`. It succeeds exactly when the bytes decode; otherwise the
/// decoder's error comes back.
pub fn render_raster_thumbnail(bytes: &[u8], size: u32) -> (r: Result<Vec<u8>, String>)
    requires
        thumbnail_fits(size),
    ensures
        r is Ok <==> raster_decodes(bytes@),
        r matches Ok(p) ==> raster_preview_png(bytes@, size) == Some(p@),
{
    match decode_raster(bytes) {
        Ok((w, h, px)) => rgba_thumbnail_png(w, h, px, size),
        Err(e) => Err(e),
    }
}

} // verus!
