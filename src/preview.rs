//! The preview pipeline's own rules: which files have previews, where a
//! rendered preview is cached, how the layered-image header gives the image
//! size, and what a request does on a cache hit or miss.

use std::hash::Hasher;
use vstd::prelude::*;
use vstd::std_specs::hash::DefaultHasherAdditionalSpecFns;
use vstd::string::*;
use crate::encoding::{base64_fits, base64_of, encode_base64};
use crate::render::raster_preview_png;
use crate::text::{
    dec_of, decimal, ext_of, extension_of, hex_of, hexadecimal, lower_of, lowercase, text_eq,
};

verus! {

/// The three families of previews, each with its own cache directory.
#[derive(Clone, Copy, Debug, PartialEq, Eq, Structural)]
pub enum PreviewKind {
    Image,
    Layered,
    Video,
}

pub open spec fn is_raster_ext(e: Seq<char>) -> bool {
    e == "jpg"@ || e == "jpeg"@ || e == "png"@ || e == "gif"@ || e == "webp"@ || e == "bmp"@
}

/// Whether a lower-case extension has a preview of the given kind.
pub open spec fn kind_supports(kind: PreviewKind, e: Seq<char>) -> bool {
    match kind {
        PreviewKind::Image => is_raster_ext(e),
        PreviewKind::Layered => e == "psd"@,
        PreviewKind::Video => e == "mp4"@ || e == "mov"@ || e == "avi"@ || e == "mkv"@ || e
            == "webm"@,
    }
}

/// Whether the file at `path` has a preview of the given kind: it needs an
/// extension of that kind.
pub open spec fn preview_supported(kind: PreviewKind, path: Seq<char>) -> bool {
    path.contains('.') && kind_supports(kind, lower_of(ext_of(path)))
}

fn is_raster_extension(e: &str) -> (r: bool)
    ensures
        r == is_raster_ext(e@),
{
    text_eq(e, "jpg") || text_eq(e, "jpeg") || text_eq(e, "png") || text_eq(e, "gif") || text_eq(
        e,
        "webp",
    ) || text_eq(e, "bmp")
}

/// Whether the file at `path` has a preview of `kind`; a file without one
/// gets "no preview" rather than an error.
pub fn supports_preview(kind: PreviewKind, path: &str) -> (r: bool)
    ensures
        r == preview_supported(kind, path@),
{
    let ext = match extension_of(path) {
        Some(ext) => ext,
        None => return false,
    };
    let lower = lowercase(ext);
    let e = lower.as_str();
    match kind {
        PreviewKind::Image => is_raster_extension(e),
        PreviewKind::Layered => text_eq(e, "psd"),
        PreviewKind::Video => text_eq(e, "mp4") || text_eq(e, "mov") || text_eq(e, "avi")
            || text_eq(e, "mkv") || text_eq(e, "webm"),
    }
}

/// How the size of an image is found without rendering it.
#[derive(Clone, Copy, Debug, PartialEq, Eq, Structural)]
pub enum DimensionSource {
    /// Not an image whose size is known: the answer is "unknown".
    Unsupported,
    /// Read from the first bytes of a layered image.
    LayeredHeader,
    /// Asked of the raster decoder's header reader.
    Raster,
}

pub open spec fn dimension_source_of(path: Seq<char>) -> DimensionSource {
    let e = lower_of(ext_of(path));
    if !path.contains('.') {
        DimensionSource::Unsupported
    } else if e == "psd"@ {
        DimensionSource::LayeredHeader
    } else if is_raster_ext(e) {
        DimensionSource::Raster
    } else {
        DimensionSource::Unsupported
    }
}

/// Where the size of the image at `path` comes from.
pub fn dimension_source(path: &str) -> (r: DimensionSource)
    ensures
        r == dimension_source_of(path@),
{
    let ext = match extension_of(path) {
        Some(ext) => ext,
        None => return DimensionSource::Unsupported,
    };
    let lower = lowercase(ext);
    if text_eq(lower.as_str(), "psd") {
        DimensionSource::LayeredHeader
    } else if is_raster_extension(lower.as_str()) {
        DimensionSource::Raster
    } else {
        DimensionSource::Unsupported
    }
}

/// The number of leading bytes that the layered-image header occupies:
/// signature (4), version (2), reserved (6), channels (2), height (4) and
/// width (4).
pub const LAYERED_HEADER_LEN: usize = 26;

/// The big-endian 32-bit number at `b[i..i + 4]`.
pub open spec fn be_u32(b: Seq<u8>, i: int) -> u32 {
    ((b[i] as u32) << 24u32) | ((b[i + 1] as u32) << 16u32) | ((b[i + 2] as u32) << 8u32) | (
    b[i + 3] as u32)
}

/// The four big-endian bytes of `x`.
pub open spec fn be_bytes(x: u32) -> Seq<u8> {
    seq![(x >> 24u32) as u8, (x >> 16u32) as u8, (x >> 8u32) as u8, x as u8]
}

/// (width, height) from a layered-image header, or nothing if it is short.
pub open spec fn header_dims(b: Seq<u8>) -> Option<(u32, u32)> {
    if b.len() < LAYERED_HEADER_LEN {
        None
    } else {
        Some((be_u32(b, 18), be_u32(b, 14)))
    }
}

/// Reads (width, height) from the first bytes of a layered image: height is
/// the big-endian number at offset 14 and width the one at offset 18. A
/// header shorter than 26 bytes gives `None`.
pub fn parse_layered_header(header: &[u8]) -> (r: Option<(u32, u32)>)
    ensures
        r == header_dims(header@),
{
    if header.len() < LAYERED_HEADER_LEN {
        return None;
    }
    let h = ((header[14] as u32) << 24u32) | ((header[15] as u32) << 16u32) | ((header[16] as u32)
        << 8u32) | (header[17] as u32);
    let w = ((header[18] as u32) << 24u32) | ((header[19] as u32) << 16u32) | ((header[20] as u32)
        << 8u32) | (header[21] as u32);
    Some((w, h))
}

/// A header whose height and width fields hold `h` and `w` reads back as
/// exactly (w, h), whatever its other bytes are.
pub proof fn lemma_header_round_trip(b: Seq<u8>, w: u32, h: u32)
    requires
        b.len() >= LAYERED_HEADER_LEN,
        b.subrange(14, 18) == be_bytes(h),
        b.subrange(18, 22) == be_bytes(w),
    ensures
        header_dims(b) == Some((w, h)),
{
    assert(b[14] == be_bytes(h)[0] && b[15] == be_bytes(h)[1] && b[16] == be_bytes(h)[2] && b[17]
        == be_bytes(h)[3]);
    assert(b[18] == be_bytes(w)[0] && b[19] == be_bytes(w)[1] && b[20] == be_bytes(w)[2] && b[21]
        == be_bytes(w)[3]);
    lemma_be_u32_of_bytes(h);
    lemma_be_u32_of_bytes(w);
}

proof fn lemma_be_u32_of_bytes(x: u32)
    ensures
        ((((x >> 24u32) as u8) as u32) << 24u32) | ((((x >> 16u32) as u8) as u32) << 16u32) | ((((x
            >> 8u32) as u8) as u32) << 8u32) | ((x as u8) as u32) == x,
{
    assert(((((x >> 24u32) as u8) as u32) << 24u32) | ((((x >> 16u32) as u8) as u32) << 16u32) | ((((
    x >> 8u32) as u8) as u32) << 8u32) | ((x as u8) as u32) == x) by (bit_vector);
}

/// The `n` low bytes of `x`, least significant first.
pub open spec fn le_bytes(x: nat, n: nat) -> Seq<u8>
    decreases n,
{
    if n == 0 {
        Seq::empty()
    } else {
        seq![(x % 256) as u8] + le_bytes(x / 256, (n - 1) as nat)
    }
}

fn push_le_bytes(x: u64, n: usize, out: &mut Vec<u8>)
    requires
        n <= 8,
    ensures
        final(out)@ == old(out)@ + le_bytes(x as nat, n as nat),
    decreases n,
{
    if n > 0 {
        out.push((x % 256) as u8);
        push_le_bytes(x / 256, n - 1, out);
        assert(final(out)@ =~= old(out)@ + le_bytes(x as nat, n as nat));
    }
}

/// The fingerprint of a preview request: the default hasher run over the
/// path's UTF-8 bytes, a `0xff` separator, then the modification time and
/// the requested size as little-endian bytes.
pub open spec fn fingerprint_of(path: Seq<char>, modified: u64, size: u32) -> u64 {
    std::collections::hash_map::DefaultHasher::spec_finish(
        seq![
            vstd::utf8::encode_utf8(path),
            seq![0xffu8],
            le_bytes(modified as nat, 8),
            le_bytes(size as nat, 4),
        ],
    )
}

/// The cache key of a preview of `path`, last modified at `modified`
/// (milliseconds since the epoch), rendered at `size` pixels. Equal inputs
/// give equal keys; a new modification time gives a new key.
pub fn cache_key(path: &str, modified: u64, size: u32) -> (r: u64)
    ensures
        r == fingerprint_of(path@, modified, size),
{
    let mut hasher = std::collections::hash_map::DefaultHasher::new();
    hasher.write(path.as_bytes());
    let sep: Vec<u8> = vec![0xffu8];
    hasher.write(sep.as_slice());
    let mut m: Vec<u8> = Vec::new();
    push_le_bytes(modified, 8, &mut m);
    hasher.write(m.as_slice());
    let mut s: Vec<u8> = Vec::new();
    push_le_bytes(size as u64, 4, &mut s);
    hasher.write(s.as_slice());
    proof {
        assert(sep@ =~= seq![0xffu8]);
        assert(m@ =~= le_bytes(modified as nat, 8));
        assert(s@ =~= le_bytes(size as nat, 4));
        assert(hasher@ =~= seq![
            vstd::utf8::encode_utf8(path@),
            seq![0xffu8],
            le_bytes(modified as nat, 8),
            le_bytes(size as nat, 4),
        ]);
    }
    hasher.finish()
}

/// The cache directory of each kind, under the application's cache root.
pub open spec fn subdir_of(kind: PreviewKind) -> Seq<char> {
    match kind {
        PreviewKind::Image => "img_thumbnails"@,
        PreviewKind::Layered => "psd_thumbnails"@,
        PreviewKind::Video => "video_thumbnails"@,
    }
}

/// The name of the cache directory that holds previews of `kind`.
pub fn cache_subdir(kind: PreviewKind) -> (r: &'static str)
    ensures
        r@ == subdir_of(kind),
{
    match kind {
        PreviewKind::Image => "img_thumbnails",
        PreviewKind::Layered => "psd_thumbnails",
        PreviewKind::Video => "video_thumbnails",
    }
}

/// The file name of the cached preview with key `key`: its hexadecimal
/// digits followed by `.png`.
pub fn cache_file_name(key: u64) -> (r: String)
    ensures
        r@ == hex_of(key as nat) + ".png"@,
{
    hexadecimal(key).concat(".png")
}

/// What a preview request does once the cache has been asked.
#[derive(Debug)]
pub enum PreviewStep {
    /// The cached preview, as base64 text: no decode is needed.
    Serve(String),
    /// Nothing cached: render the preview, holding a gate permit when
    /// `gated` is set, then store and return it.
    Render { gated: bool },
}

/// Decides the next step from what the cache held for the request's key.
/// Only in-process decodes (image and layered kinds) take a gate permit.
pub fn on_cache_lookup(kind: PreviewKind, cached: Option<Vec<u8>>) -> (r: PreviewStep)
    requires
        cached matches Some(b) ==> base64_fits(b@.len()),
    ensures
        match cached {
            Some(b) => r matches PreviewStep::Serve(t) && t@ == base64_of(b@),
            None => r matches PreviewStep::Render { gated } && gated == (kind
                != PreviewKind::Video),
        },
{
    match cached {
        Some(b) => PreviewStep::Serve(encode_base64(b.as_slice())),
        None => PreviewStep::Render { gated: kind != PreviewKind::Video },
    }
}

/// The base64 text returned for a freshly rendered preview.
pub fn preview_reply(png: &Vec<u8>) -> (r: String)
    requires
        base64_fits(png@.len()),
    ensures
        r@ == base64_of(png@),
{
    encode_base64(png.as_slice())
}

/// Where a preview is stored: its kind and its key.
pub type CacheSlot = (PreviewKind, u64);

/// The slot of a request for `path` at `size`, modified at `modified`.
pub open spec fn slot_of(kind: PreviewKind, path: Seq<char>, modified: u64, size: u32) -> CacheSlot {
    (kind, fingerprint_of(path, modified, size))
}

/// Whether a request must render: only when its slot is empty.
pub open spec fn must_render(store: Map<CacheSlot, Seq<u8>>, slot: CacheSlot) -> bool {
    !store.contains_key(slot)
}

/// The bytes a request returns, where `fresh` is what a render would give.
pub open spec fn reply_bytes(store: Map<CacheSlot, Seq<u8>>, slot: CacheSlot, fresh: Seq<u8>) -> Seq<
    u8,
> {
    if store.contains_key(slot) {
        store[slot]
    } else {
        fresh
    }
}

/// The store after a request: a render is written to the request's slot.
pub open spec fn store_after(store: Map<CacheSlot, Seq<u8>>, slot: CacheSlot, fresh: Seq<u8>) -> Map<
    CacheSlot,
    Seq<u8>,
> {
    if store.contains_key(slot) {
        store
    } else {
        store.insert(slot, fresh)
    }
}

/// Asking twice for the same preview of an unchanged file (same path, size
/// and modification time): the second request renders nothing and returns
/// the same bytes as the first, whatever a second render would have given.
pub proof fn lemma_repeat_request_served_from_cache(
    store: Map<CacheSlot, Seq<u8>>,
    kind: PreviewKind,
    path: Seq<char>,
    modified: u64,
    size: u32,
    first: Seq<u8>,
    second: Seq<u8>,
)
    ensures
        ({
            let slot = slot_of(kind, path, modified, size);
            let later = store_after(store, slot, first);
            &&& !must_render(later, slot)
            &&& reply_bytes(later, slot, second) == reply_bytes(store, slot, first)
            &&& store_after(later, slot, second) == later
        }),
{
}

/// Two requests that miss the same slot at once both render the same file
/// at the same size. Rendering depends on the bytes and the size alone, so
/// both return the same PNG, and the store ends the same whichever write
/// lands last.
pub proof fn lemma_concurrent_misses_agree(
    store: Map<CacheSlot, Seq<u8>>,
    slot: CacheSlot,
    bytes: Seq<u8>,
    size: u32,
    first: Seq<u8>,
    second: Seq<u8>,
)
    requires
        must_render(store, slot),
        raster_preview_png(bytes, size) == Some(first),
        raster_preview_png(bytes, size) == Some(second),
    ensures
        reply_bytes(store, slot, first) == reply_bytes(store, slot, second),
        store.insert(slot, first).insert(slot, second) == store.insert(slot, second).insert(
            slot,
            first,
        ),
        store.insert(slot, first).insert(slot, second) == store_after(store, slot, first),
{
    assert(store.insert(slot, first).insert(slot, second) =~= store.insert(slot, first));
}

/// The arguments of the frame-extraction tool for a preview of the video at
/// `path`, `size` pixels wide: one frame at the one-second mark, scaled to
/// that width with proportional height, written as PNG to standard output.
pub open spec fn video_args_of(path: Seq<char>, size: u32) -> Seq<Seq<char>> {
    seq![
        "-i"@,
        path,
        "-ss"@,
        "00:00:01"@,
        "-frames:v"@,
        "1"@,
        "-vf"@,
        "scale="@ + dec_of(size as nat) + ":-1"@,
        "-f"@,
        "image2pipe"@,
        "-vcodec"@,
        "png"@,
        "pipe:1"@,
    ]
}

/// The tool's arguments for a video preview, as `video_args_of` says.
pub fn video_frame_args(path: &str, size: u32) -> (r: Vec<String>)
    ensures
        r@.map_values(|s: String| s@) == video_args_of(path@, size),
{
    let mut r: Vec<String> = Vec::new();
    r.push(String::from_str("-i"));
    r.push(String::from_str(path));
    r.push(String::from_str("-ss"));
    r.push(String::from_str("00:00:01"));
    r.push(String::from_str("-frames:v"));
    r.push(String::from_str("1"));
    r.push(String::from_str("-vf"));
    r.push(String::from_str("scale=").concat(decimal(size as u64).as_str()).concat(":-1"));
    r.push(String::from_str("-f"));
    r.push(String::from_str("image2pipe"));
    r.push(String::from_str("-vcodec"));
    r.push(String::from_str("png"));
    r.push(String::from_str("pipe:1"));
    assert(r@.map_values(|s: String| s@) =~= video_args_of(path@, size));
    r
}

/// The preview that a run of the frame-extraction tool gives: its output if
/// it succeeded and wrote something, else no preview (not an error).
pub fn video_frame_result(success: bool, output: Vec<u8>) -> (r: Option<Vec<u8>>)
    ensures
        r == (if success && output@.len() > 0 {
            Some(output)
        } else {
            None::<Vec<u8>>
        }),
{
    if success && output.len() > 0 {
        Some(output)
    } else {
        None
    }
}

} // verus!

