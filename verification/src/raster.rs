//! Decoding image bytes: which decoder a file goes to, raster images through
//! `image`, and JPEG thumbnails through `jpeg-decoder`'s DCT downscaling.
//! Reading the file and the floating-point resize steps are the caller's.

use vstd::prelude::*;
use crate::decode::{gray_to_rgba, l8_to_rgba, rgb24_to_rgba, rgb_to_rgba, MAX_TEXTURE_DIM};
use crate::nav::{is_raw_file, is_raw_path};
use crate::paths::{extension, extension_of};
use crate::text::{chars_equal, chars_of, extend_chars, lowercase_text, lowercased, string_of};

verus! {

/// The lowercased extension of `p` is one of `names`.
pub open spec fn extension_is(p: Seq<char>, names: Seq<Seq<char>>) -> bool {
    extension(p) matches Some(e) && names.contains(lowercased(e))
}

pub open spec fn svg_names() -> Seq<Seq<char>> {
    seq!["svg"@, "svgz"@]
}

pub open spec fn jpeg_names() -> Seq<Seq<char>> {
    seq!["jpg"@, "jpeg"@]
}

/// Whether the lowercased extension of `path` is one of `names`.
fn has_lower_extension(path: &str, names: &Vec<String>) -> (r: bool)
    ensures
        r == (extension(path@) matches Some(e) && crate::collection::string_views(names@).contains(
            lowercased(e),
        )),
{
    let p = chars_of(path);
    match extension_of(&p) {
        Some(e) => {
            let lower = chars_of(lowercase_text(string_of(&e).as_str()).as_str());
            assert(extension(path@) == Some(e@));
            let mut i: usize = 0;
            while i < names.len()
                invariant
                    i <= names@.len(),
                    lower@ == lowercased(e@),
                    extension(path@) == Some(e@),
                    forall|j: int| 0 <= j < i ==> names@[j]@ != lower@,
                decreases names.len() - i,
            {
                let n = chars_of(names[i].as_str());
                if chars_equal(&n, &lower) {
                    assert(crate::collection::string_views(names@)[i as int] == lower@);
                    assert(crate::collection::string_views(names@).contains(lowercased(e@)));
                    return true;
                }
                i = i + 1;
            }
            proof {
                let v = crate::collection::string_views(names@);
                if v.contains(lower@) {
                    let j = choose|j: int| 0 <= j < v.len() && v[j] == lower@;
                    assert(names@[j]@ == lower@);
                }
            }
            false
        },
        None => false,
    }
}

fn two_names(a: &str, b: &str) -> (v: Vec<String>)
    ensures
        crate::collection::string_views(v@) == seq![a@, b@],
{
    let v = vec![String::from_str(a), String::from_str(b)];
    assert(crate::collection::string_views(v@) =~= seq![a@, b@]);
    v
}

/// The decoder a full-size image goes to.
#[derive(Debug, Clone, Copy, PartialEq, Eq, Structural)]
pub enum DecodeRoute {
    Svg,
    Raw,
    Raster,
}

/// SVG by extension ("svg", "svgz", any case), else RAW by extension, else
/// a raster format.
pub open spec fn decode_route_of(p: Seq<char>) -> DecodeRoute {
    if extension_is(p, svg_names()) {
        DecodeRoute::Svg
    } else if is_raw_path(p) {
        DecodeRoute::Raw
    } else {
        DecodeRoute::Raster
    }
}

pub fn decode_route(path: &str) -> (r: DecodeRoute)
    ensures
        r == decode_route_of(path@),
{
    if has_lower_extension(path, &two_names("svg", "svgz")) {
        DecodeRoute::Svg
    } else if is_raw_file(path) {
        DecodeRoute::Raw
    } else {
        DecodeRoute::Raster
    }
}

/// The decoder a thumbnail goes to.
#[derive(Debug, Clone, Copy, PartialEq, Eq, Structural)]
pub enum ThumbnailRoute {
    Jpeg,
    Svg,
    Raw,
    Raster,
}

/// JPEG by extension ("jpg", "jpeg", any case), then as `decode_route_of`.
pub open spec fn thumbnail_route_of(p: Seq<char>) -> ThumbnailRoute {
    if extension_is(p, jpeg_names()) {
        ThumbnailRoute::Jpeg
    } else {
        match decode_route_of(p) {
            DecodeRoute::Svg => ThumbnailRoute::Svg,
            DecodeRoute::Raw => ThumbnailRoute::Raw,
            DecodeRoute::Raster => ThumbnailRoute::Raster,
        }
    }
}

pub fn thumbnail_route(path: &str) -> (r: ThumbnailRoute)
    ensures
        r == thumbnail_route_of(path@),
{
    if has_lower_extension(path, &two_names("jpg", "jpeg")) {
        ThumbnailRoute::Jpeg
    } else {
        match decode_route(path) {
            DecodeRoute::Svg => ThumbnailRoute::Svg,
            DecodeRoute::Raw => ThumbnailRoute::Raw,
            DecodeRoute::Raster => ThumbnailRoute::Raster,
        }
    }
}

/// Name for what `image::load_from_memory` followed by `to_rgba8` makes of
/// `bytes`: the RGBA pixels with width and height, or the error's text.
pub uninterp spec fn raster_rgba8(bytes: Seq<u8>) -> Result<(Seq<u8>, u32, u32), Seq<char>>;

pub open spec fn pixels_view(r: Result<(Vec<u8>, u32, u32), String>) -> Result<(Seq<u8>, u32, u32), Seq<char>> {
    match r {
        Ok((p, w, h)) => Ok((p@, w, h)),
        Err(e) => Err(e@),
    }
}

/// Wraps `image::load_from_memory` (format guessed from the content) and
/// `DynamicImage::to_rgba8`. Trusted: the outcome is the named one, and an
/// RGBA buffer holds four bytes per pixel.
#[verifier::external_body]
pub(crate) fn decode_raster_rgba8(bytes: &[u8]) -> (r: Result<(Vec<u8>, u32, u32), String>)
    ensures
        pixels_view(r) == raster_rgba8(bytes@),
        r matches Ok((p, w, h)) ==> p@.len() == w * h * 4,
{
    match image::load_from_memory(bytes) {
        Ok(img) => {
            let rgba = img.to_rgba8();
            let (w, h) = rgba.dimensions();
            Ok((rgba.into_raw(), w, h))
        },
        Err(e) => Err(e.to_string()),
    }
}

/// Decodes raster image bytes to RGBA pixels; errors read "Failed to
/// decode: " and the decoder's message.
pub fn decode_raster_bytes(bytes: &[u8]) -> (r: Result<(Vec<u8>, u32, u32), String>)
    ensures
        match raster_rgba8(bytes@) {
            Ok((p, w, h)) => r matches Ok((q, rw, rh)) && q@ == p && rw == w && rh == h && p.len() == w * h * 4,
            Err(m) => r matches Err(e) && e@ == "Failed to decode: "@ + m,
        },
{
    match decode_raster_rgba8(bytes) {
        Ok(t) => Ok(t),
        Err(m) => {
            let mut msg = chars_of("Failed to decode: ");
            let mc = chars_of(m.as_str());
            extend_chars(&mut msg, &mc);
            Err(string_of(&msg))
        },
    }
}

/// Decodes a full-size raster image read from `path` (the caller's read
/// outcome); a failed read fails the decode with the read's message.
pub fn decode_raster_file(read: Result<Vec<u8>, String>) -> (r: Result<(Vec<u8>, u32, u32), String>)
    ensures
        match read {
            Err(m) => r matches Err(e) && e@ == "Failed to decode: "@ + m@,
            Ok(bytes) => match raster_rgba8(bytes@) {
                Ok((p, w, h)) => r matches Ok((q, rw, rh)) && q@ == p && rw == w && rh == h,
                Err(m) => r matches Err(e) && e@ == "Failed to decode: "@ + m,
            },
        },
{
    match read {
        Ok(bytes) => decode_raster_bytes(bytes.as_slice()),
        Err(m) => {
            let mut msg = chars_of("Failed to decode: ");
            let mc = chars_of(m.as_str());
            extend_chars(&mut msg, &mc);
            Err(string_of(&msg))
        },
    }
}

/// Name for the width and height that `image::io::Reader` reports for
/// `bytes` after `with_guessed_format` and `into_dimensions`, or the error's
/// text.
pub uninterp spec fn raster_dimensions(bytes: Seq<u8>) -> Result<(u32, u32), Seq<char>>;

pub open spec fn size_view(r: Result<(u32, u32), String>) -> Result<(u32, u32), Seq<char>> {
    match r {
        Ok(d) => Ok(d),
        Err(e) => Err(e@),
    }
}

/// Wraps `image::io::Reader::new` over the bytes, `with_guessed_format` and
/// `into_dimensions`. Trusted: the outcome is the named one.
#[verifier::external_body]
pub(crate) fn probe_raster_dimensions(bytes: &[u8]) -> (r: Result<(u32, u32), String>)
    ensures
        size_view(r) == raster_dimensions(bytes@),
{
    let reader = image::io::Reader::new(std::io::Cursor::new(bytes));
    match reader.with_guessed_format() {
        Ok(guessed) => guessed.into_dimensions().map_err(|e| e.to_string()),
        Err(e) => Err(e.to_string()),
    }
}

/// The size a raster file's header gives, from the caller's read outcome;
/// errors read "Failed to inspect image dimensions: " and the message.
pub fn raster_source_dimensions(read: Result<Vec<u8>, String>) -> (r: Result<(u32, u32), String>)
    ensures
        match read {
            Err(m) => r matches Err(e) && e@ == "Failed to inspect image dimensions: "@ + m@,
            Ok(bytes) => match raster_dimensions(bytes@) {
                Ok(d) => r matches Ok(x) && x == d,
                Err(m) => r matches Err(e) && e@ == "Failed to inspect image dimensions: "@ + m,
            },
        },
{
    let outcome = match read {
        Ok(bytes) => probe_raster_dimensions(bytes.as_slice()),
        Err(m) => Err(m),
    };
    match outcome {
        Ok(d) => Ok(d),
        Err(m) => {
            let mut msg = chars_of("Failed to inspect image dimensions: ");
            let mc = chars_of(m.as_str());
            extend_chars(&mut msg, &mc);
            Err(string_of(&msg))
        },
    }
}

/// A full-size image wider or taller than a texture may be is scaled down.
pub fn exceeds_texture_limit(width: u32, height: u32) -> (r: bool)
    ensures
        r == (width > MAX_TEXTURE_DIM || height > MAX_TEXTURE_DIM),
{
    width > MAX_TEXTURE_DIM || height > MAX_TEXTURE_DIM
}

/// A thumbnail within `max_dim` on both sides is used as it is.
pub fn fits_thumbnail(width: u32, height: u32, max_dim: u32) -> (r: bool)
    ensures
        r == (width <= max_dim && height <= max_dim),
{
    width <= max_dim && height <= max_dim
}

/// The sample layouts `jpeg-decoder` produces.
#[derive(Debug, Clone, Copy, PartialEq, Eq, Structural)]
pub enum JpegPixelFormat {
    L8,
    L16,
    Rgb24,
    Cmyk32,
}

/// Which step of a JPEG decode failed, with the decoder's message.
pub enum JpegFailure {
    Scale(String),
    Decode(String),
    NoInfo,
}

pub enum JpegFailureView {
    Scale(Seq<char>),
    Decode(Seq<char>),
    NoInfo,
}

/// Name for what `jpeg_decoder::Decoder` makes of `bytes` after
/// `scale(max_dim, max_dim)`, `decode` and `info`: the samples, the scaled
/// size and the sample layout, or the failed step and its message.
pub uninterp spec fn jpeg_scaled(bytes: Seq<u8>, max_dim: u16) -> Result<(Seq<u8>, u16, u16, JpegPixelFormat), JpegFailureView>;

pub open spec fn jpeg_view(r: Result<(Vec<u8>, u16, u16, JpegPixelFormat), JpegFailure>) -> Result<(Seq<u8>, u16, u16, JpegPixelFormat), JpegFailureView> {
    match r {
        Ok((p, w, h, f)) => Ok((p@, w, h, f)),
        Err(JpegFailure::Scale(m)) => Err(JpegFailureView::Scale(m@)),
        Err(JpegFailure::Decode(m)) => Err(JpegFailureView::Decode(m@)),
        Err(JpegFailure::NoInfo) => Err(JpegFailureView::NoInfo),
    }
}

/// Wraps `jpeg_decoder::Decoder::new` over the bytes, `scale`, `decode` and
/// `info`. Trusted: the outcome is the named one.
#[verifier::external_body]
pub(crate) fn decode_jpeg_scaled(bytes: &[u8], max_dim: u16) -> (r: Result<(Vec<u8>, u16, u16, JpegPixelFormat), JpegFailure>)
    ensures
        jpeg_view(r) == jpeg_scaled(bytes@, max_dim),
{
    let mut decoder = jpeg_decoder::Decoder::new(bytes);
    let (w, h) = match decoder.scale(max_dim, max_dim) { Ok(size) => size, Err(e) => return Err(JpegFailure::Scale(e.to_string())) };
    let raw = match decoder.decode() { Ok(raw) => raw, Err(e) => return Err(JpegFailure::Decode(e.to_string())) };
    let Some(info) = decoder.info() else { return Err(JpegFailure::NoInfo) };
    let format = match info.pixel_format {
        jpeg_decoder::PixelFormat::L8 => JpegPixelFormat::L8,
        jpeg_decoder::PixelFormat::L16 => JpegPixelFormat::L16,
        jpeg_decoder::PixelFormat::RGB24 => JpegPixelFormat::Rgb24,
        jpeg_decoder::PixelFormat::CMYK32 => JpegPixelFormat::Cmyk32,
    };
    Ok((raw, w, h, format))
}

/// What a JPEG thumbnail decode gives: RGBA pixels at the DCT-scaled size,
/// or a layout this path does not convert, which goes to the raster decoder.
pub enum JpegThumbnail {
    Pixels(Vec<u8>, u32, u32),
    UseRaster,
}

pub open spec fn jpeg_thumbnail_ok(r: JpegThumbnail, raw: Seq<u8>, w: u16, h: u16, format: JpegPixelFormat) -> bool {
    match format {
        JpegPixelFormat::Rgb24 => r matches JpegThumbnail::Pixels(p, rw, rh) && p@ == rgb_to_rgba(raw) && rw
            == w && rh == h,
        JpegPixelFormat::L8 => if raw.len() * 4 <= usize::MAX {
            r matches JpegThumbnail::Pixels(p, rw, rh) && p@ == gray_to_rgba(raw) && rw == w && rh == h
        } else {
            r is UseRaster
        },
        _ => r is UseRaster,
    }
}

/// Decodes JPEG bytes for a thumbnail no larger than `max_dim` (taken, as
/// `jpeg-decoder` takes it, modulo 2^16), with the decoder's own DCT
/// downscaling; grayscale and RGB samples become RGBA, other layouts go to
/// the raster decoder. Errors name the failed step.
pub fn jpeg_thumbnail(bytes: &[u8], max_dim: u32) -> (r: Result<JpegThumbnail, String>)
    ensures
        match jpeg_scaled(bytes@, (max_dim % 65536) as u16) {
            Err(JpegFailureView::Scale(m)) => r matches Err(e) && e@ == "JPEG scale error: "@ + m,
            Err(JpegFailureView::Decode(m)) => r matches Err(e) && e@ == "JPEG decode error: "@ + m,
            Err(JpegFailureView::NoInfo) => r matches Err(e) && e@ == "No JPEG info"@,
            Ok((raw, w, h, format)) => r matches Ok(t) && jpeg_thumbnail_ok(t, raw, w, h, format),
        },
{
    let dim: u16 = (max_dim % 65536) as u16;
    match decode_jpeg_scaled(bytes, dim) {
        Err(JpegFailure::Scale(m)) => {
            let mut msg = chars_of("JPEG scale error: ");
            let mc = chars_of(m.as_str());
            extend_chars(&mut msg, &mc);
            Err(string_of(&msg))
        },
        Err(JpegFailure::Decode(m)) => {
            let mut msg = chars_of("JPEG decode error: ");
            let mc = chars_of(m.as_str());
            extend_chars(&mut msg, &mc);
            Err(string_of(&msg))
        },
        Err(JpegFailure::NoInfo) => Err(String::from_str("No JPEG info")),
        Ok((raw, w, h, format)) => match format {
            JpegPixelFormat::Rgb24 => Ok(JpegThumbnail::Pixels(rgb24_to_rgba(raw.as_slice()), w as u32, h as u32)),
            JpegPixelFormat::L8 => {
                if raw.len() <= usize::MAX / 4 {
                    Ok(JpegThumbnail::Pixels(l8_to_rgba(raw.as_slice()), w as u32, h as u32))
                } else {
                    Ok(JpegThumbnail::UseRaster)
                }
            },
            _ => Ok(JpegThumbnail::UseRaster),
        },
    }
}

} // verus!
