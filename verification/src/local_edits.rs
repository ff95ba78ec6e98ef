//! Baked local edits: the repo-local cache file format for committed edits
//! (a full-size and a thumbnail variant per photo) and the decisions taken
//! when a cached thumbnail is reused or repaired.

use vstd::prelude::*;
use vstd::string::StringSliceAdditionalSpecFns;
use crate::paths::{join, join_path};
use crate::decode::{default_str_hash, path_key_hash};
use crate::text::{chars_of, extend_chars, hex_fixed, push_hex_fixed, string_of};
use crate::wire::{bytes_equal_at, le32, le64, lemma_le_round_trip, push_bytes, push_u32, push_u64, read_u32_at, read_u64_at, u32_at, u64_at};

verus! {

/// Name of the cache directory under the repo root.
pub const LOCAL_EDIT_CACHE_DIR_NAME: &'static str = "local-edits";
/// Schema written by this version.
pub const LOCAL_EDIT_CACHE_SCHEMA_VERSION: u32 = 3;
/// Bytes before the path key in schema 2 files.
pub const LOCAL_EDIT_CACHE_SCHEMA_V2_FIXED_HEADER_BYTES: u64 = 60;
/// Bytes before the path key in schema 3 files (adds the logical size).
pub const LOCAL_EDIT_CACHE_SCHEMA_V3_FIXED_HEADER_BYTES: u64 = 68;
/// Longer side of a baked thumbnail.
pub const LOCAL_EDIT_THUMBNAIL_MAX_DIM: u32 = 200;

/// The two files kept per edited photo.
#[derive(Debug, Clone, Copy, PartialEq, Eq, Structural)]
pub enum LocalEditCacheVariant {
    Full,
    Thumbnail,
}

impl LocalEditCacheVariant {
    pub fn file_suffix(self) -> (s: &'static str)
        ensures
            self == LocalEditCacheVariant::Full ==> s@ == ".full.rgba"@,
            self == LocalEditCacheVariant::Thumbnail ==> s@ == ".thumb.rgba"@,
    {
        match self {
            LocalEditCacheVariant::Full => ".full.rgba",
            LocalEditCacheVariant::Thumbnail => ".thumb.rgba",
        }
    }
}

/// `<repo root>/local-edits`.
pub fn local_edit_cache_dir_for_repo_root(repo_root: &str) -> (r: String)
    ensures
        r@ == join(repo_root@, "local-edits"@),
{
    join_path(repo_root, LOCAL_EDIT_CACHE_DIR_NAME)
}

/// Why a cache file was rejected.
#[derive(Debug, Clone, Copy, PartialEq, Eq, Structural)]
pub enum LocalEditCacheError {
    /// The file ended inside the magic number.
    ReadHeader,
    /// The file ended inside a header field.
    ReadField,
    MagicMismatch,
    SchemaMismatch,
    InvalidLogicalDimensions,
    SourceMetadataMismatch,
    DimensionsOverflowed,
    PixelLengthMismatch,
    FileLengthOverflowed,
    FileLengthMismatch,
    PathKeyMismatch,
    /// The path key is too long to be written.
    PathKeyTooLong,
}

/// The message reported for each error.
pub open spec fn cache_error_text(e: LocalEditCacheError) -> Seq<char> {
    match e {
        LocalEditCacheError::ReadHeader => "Failed to read local edit cache: failed to fill whole buffer"@,
        LocalEditCacheError::ReadField => "Failed to read cache: failed to fill whole buffer"@,
        LocalEditCacheError::MagicMismatch => "Local edit cache magic mismatch"@,
        LocalEditCacheError::SchemaMismatch => "Local edit cache schema mismatch"@,
        LocalEditCacheError::InvalidLogicalDimensions => "Local edit cache logical dimensions were invalid"@,
        LocalEditCacheError::SourceMetadataMismatch => "Local edit cache source metadata mismatch"@,
        LocalEditCacheError::DimensionsOverflowed => "Local edit cache dimensions overflowed"@,
        LocalEditCacheError::PixelLengthMismatch => "Local edit cache pixel length mismatch"@,
        LocalEditCacheError::FileLengthOverflowed => "Local edit cache file length overflowed"@,
        LocalEditCacheError::FileLengthMismatch => "Local edit cache file length mismatch"@,
        LocalEditCacheError::PathKeyMismatch => "Local edit cache path key mismatch"@,
        LocalEditCacheError::PathKeyTooLong => "Cache path key exceeded u32 length"@,
    }
}

impl LocalEditCacheError {
    /// The message reported for this error.
    pub fn message(self) -> (s: &'static str)
        ensures
            s@ == cache_error_text(self),
    {
        match self {
            LocalEditCacheError::ReadHeader => "Failed to read local edit cache: failed to fill whole buffer",
            LocalEditCacheError::ReadField => "Failed to read cache: failed to fill whole buffer",
            LocalEditCacheError::MagicMismatch => "Local edit cache magic mismatch",
            LocalEditCacheError::SchemaMismatch => "Local edit cache schema mismatch",
            LocalEditCacheError::InvalidLogicalDimensions => "Local edit cache logical dimensions were invalid",
            LocalEditCacheError::SourceMetadataMismatch => "Local edit cache source metadata mismatch",
            LocalEditCacheError::DimensionsOverflowed => "Local edit cache dimensions overflowed",
            LocalEditCacheError::PixelLengthMismatch => "Local edit cache pixel length mismatch",
            LocalEditCacheError::FileLengthOverflowed => "Local edit cache file length overflowed",
            LocalEditCacheError::FileLengthMismatch => "Local edit cache file length mismatch",
            LocalEditCacheError::PathKeyMismatch => "Local edit cache path key mismatch",
            LocalEditCacheError::PathKeyTooLong => "Cache path key exceeded u32 length",
        }
    }
}

/// "PHOEDITS".
pub open spec fn local_edit_magic() -> Seq<u8> {
    seq![80u8, 72u8, 79u8, 69u8, 68u8, 73u8, 84u8, 83u8]
}

/// Header bytes before the path key for a schema, if it is known.
pub open spec fn fixed_header_len(schema: u32) -> Option<u64> {
    if schema == 2 {
        Some(LOCAL_EDIT_CACHE_SCHEMA_V2_FIXED_HEADER_BYTES)
    } else if schema == 3 {
        Some(LOCAL_EDIT_CACHE_SCHEMA_V3_FIXED_HEADER_BYTES)
    } else {
        None
    }
}

/// Header bytes before the path key, by schema version.
pub fn local_edit_cache_fixed_header_bytes(schema_version: u32) -> (r: Result<u64, LocalEditCacheError>)
    ensures
        match fixed_header_len(schema_version) {
            Some(n) => r == Ok::<u64, LocalEditCacheError>(n),
            None => r == Err::<u64, LocalEditCacheError>(LocalEditCacheError::SchemaMismatch),
        },
{
    if schema_version == 2 {
        Ok(LOCAL_EDIT_CACHE_SCHEMA_V2_FIXED_HEADER_BYTES)
    } else if schema_version == 3 {
        Ok(LOCAL_EDIT_CACHE_SCHEMA_V3_FIXED_HEADER_BYTES)
    } else {
        Err(LocalEditCacheError::SchemaMismatch)
    }
}

/// A header that passed every check.
#[derive(Debug, Clone, Copy, PartialEq, Eq)]
pub struct ValidatedLocalEditCacheHeader {
    pub generation_id: u64,
    pub width: u32,
    pub height: u32,
    /// Present in schema 3 files.
    pub logical_dimensions: Option<(u32, u32)>,
    pub source_file_size: u64,
    /// Offset of the first pixel byte.
    pub pixels_offset: u64,
}

/// What a cache file must hold for source metadata `(file_size, secs,
/// nanos)` and path key `key`, checked in file order: magic, schema,
/// fields, logical size (schema 3), source metadata, pixel length, file
/// length, path key.
pub open spec fn check_local_edit_cache(
    data: Seq<u8>,
    key: Seq<u8>,
    file_size: u64,
    secs: u64,
    nanos: u32,
) -> Result<ValidatedLocalEditCacheHeader, LocalEditCacheError> {
    if data.len() < 8 {
        Err(LocalEditCacheError::ReadHeader)
    } else if data.subrange(0, 8) != local_edit_magic() {
        Err(LocalEditCacheError::MagicMismatch)
    } else if data.len() < 12 {
        Err(LocalEditCacheError::ReadField)
    } else {
        let schema = u32_at(data, 8);
        if schema != 2 && schema != 3 {
            Err(LocalEditCacheError::SchemaMismatch)
        } else if data.len() < 52 {
            Err(LocalEditCacheError::ReadField)
        } else if schema == 3 && data.len() < 60 {
            Err(LocalEditCacheError::ReadField)
        } else if schema == 3 && (u32_at(data, 52) == 0 || u32_at(data, 56) == 0) {
            Err(LocalEditCacheError::InvalidLogicalDimensions)
        } else {
            let fixed: int = if schema == 3 { 68 } else { 60 };
            if data.len() < fixed {
                Err(LocalEditCacheError::ReadField)
            } else {
                let generation_id = u64_at(data, 12);
                let cached_size = u64_at(data, 20);
                let cached_secs = u64_at(data, 28);
                let cached_nanos = u32_at(data, 36);
                let path_len = u32_at(data, 40);
                let width = u32_at(data, 44);
                let height = u32_at(data, 48);
                let pixel_len = u64_at(data, fixed - 8);
                if cached_size != file_size || cached_secs != secs || cached_nanos != nanos {
                    Err(LocalEditCacheError::SourceMetadataMismatch)
                } else if width * height * 4 > u64::MAX {
                    Err(LocalEditCacheError::DimensionsOverflowed)
                } else if pixel_len != width * height * 4 {
                    Err(LocalEditCacheError::PixelLengthMismatch)
                } else if fixed + path_len + pixel_len > u64::MAX {
                    Err(LocalEditCacheError::FileLengthOverflowed)
                } else if data.len() != fixed + path_len + pixel_len {
                    Err(LocalEditCacheError::FileLengthMismatch)
                } else if data.subrange(fixed, fixed + path_len) != key {
                    Err(LocalEditCacheError::PathKeyMismatch)
                } else {
                    Ok(
                        ValidatedLocalEditCacheHeader {
                            generation_id: generation_id,
                            width: width,
                            height: height,
                            logical_dimensions: if schema == 3 {
                                Some((u32_at(data, 52), u32_at(data, 56)))
                            } else {
                                None
                            },
                            source_file_size: file_size,
                            pixels_offset: (fixed + path_len) as u64,
                        },
                    )
                }
            }
        }
    }
}

/// The bytes of a schema-3 cache file.
pub open spec fn local_edit_cache_bytes(
    generation_id: u64,
    file_size: u64,
    secs: u64,
    nanos: u32,
    key: Seq<u8>,
    width: u32,
    height: u32,
    logical: (u32, u32),
    pixels: Seq<u8>,
) -> Seq<u8> {
    local_edit_magic() + le32(3) + le64(generation_id) + le64(file_size) + le64(secs) + le32(nanos)
        + le32(key.len() as u32) + le32(width) + le32(height) + le32(logical.0) + le32(logical.1)
        + le64(pixels.len() as u64) + key + pixels
}

fn magic_bytes() -> (v: Vec<u8>)
    ensures
        v@ == local_edit_magic(),
{
    let mut v: Vec<u8> = Vec::new();
    v.push(80);
    v.push(72);
    v.push(79);
    v.push(69);
    v.push(68);
    v.push(73);
    v.push(84);
    v.push(83);
    assert(v@ =~= local_edit_magic());
    v
}

/// Serializes a schema-3 cache file for the source state `(file_size,
/// secs, nanos)` and path key `path_key`.
pub fn encode_local_edit_cache(
    generation_id: u64,
    file_size: u64,
    secs: u64,
    nanos: u32,
    path_key: &str,
    width: u32,
    height: u32,
    logical_dimensions: (u32, u32),
    pixels: &[u8],
) -> (r: Result<Vec<u8>, LocalEditCacheError>)
    ensures
        path_key.spec_bytes().len() > u32::MAX ==> r == Err::<Vec<u8>, LocalEditCacheError>(
            LocalEditCacheError::PathKeyTooLong,
        ),
        path_key.spec_bytes().len() <= u32::MAX ==> (r matches Ok(v) && v@ == local_edit_cache_bytes(
            generation_id,
            file_size,
            secs,
            nanos,
            path_key.spec_bytes(),
            width,
            height,
            logical_dimensions,
            pixels@,
        )),
{
    let key = path_key.as_bytes();
    if key.len() > 0xFFFF_FFFF {
        return Err(LocalEditCacheError::PathKeyTooLong);
    }
    let mut out = magic_bytes();
    push_u32(&mut out, LOCAL_EDIT_CACHE_SCHEMA_VERSION);
    push_u64(&mut out, generation_id);
    push_u64(&mut out, file_size);
    push_u64(&mut out, secs);
    push_u32(&mut out, nanos);
    push_u32(&mut out, key.len() as u32);
    push_u32(&mut out, width);
    push_u32(&mut out, height);
    push_u32(&mut out, logical_dimensions.0);
    push_u32(&mut out, logical_dimensions.1);
    push_u64(&mut out, pixels.len() as u64);
    push_bytes(&mut out, key);
    push_bytes(&mut out, pixels);
    Ok(out)
}

/// Checks a cache file against the current source metadata and path key.
pub fn validate_local_edit_cache(
    data: &[u8],
    path_key: &str,
    file_size: u64,
    secs: u64,
    nanos: u32,
) -> (r: Result<ValidatedLocalEditCacheHeader, LocalEditCacheError>)
    ensures
        r == check_local_edit_cache(data@, path_key.spec_bytes(), file_size, secs, nanos),
{
    let key = path_key.as_bytes();
    if data.len() < 8 {
        return Err(LocalEditCacheError::ReadHeader);
    }
    let magic = magic_bytes();
    if !bytes_equal_at(data, 0, &magic) {
        return Err(LocalEditCacheError::MagicMismatch);
    }
    let schema = match read_u32_at(data, 8) {
        Some(v) => v,
        None => return Err(LocalEditCacheError::ReadField),
    };
    let fixed = match local_edit_cache_fixed_header_bytes(schema) {
        Ok(n) => n,
        Err(e) => return Err(e),
    };
    if data.len() < 52 {
        return Err(LocalEditCacheError::ReadField);
    }
    let generation_id = match read_u64_at(data, 12) { Some(v) => v, None => return Err(LocalEditCacheError::ReadField) };
    let cached_size = match read_u64_at(data, 20) { Some(v) => v, None => return Err(LocalEditCacheError::ReadField) };
    let cached_secs = match read_u64_at(data, 28) { Some(v) => v, None => return Err(LocalEditCacheError::ReadField) };
    let cached_nanos = match read_u32_at(data, 36) { Some(v) => v, None => return Err(LocalEditCacheError::ReadField) };
    let path_len = match read_u32_at(data, 40) { Some(v) => v, None => return Err(LocalEditCacheError::ReadField) };
    let width = match read_u32_at(data, 44) { Some(v) => v, None => return Err(LocalEditCacheError::ReadField) };
    let height = match read_u32_at(data, 48) { Some(v) => v, None => return Err(LocalEditCacheError::ReadField) };
    let logical = if schema == 3 {
        let lw = match read_u32_at(data, 52) { Some(v) => v, None => return Err(LocalEditCacheError::ReadField) };
        let lh = match read_u32_at(data, 56) { Some(v) => v, None => return Err(LocalEditCacheError::ReadField) };
        if lw == 0 || lh == 0 {
            return Err(LocalEditCacheError::InvalidLogicalDimensions);
        }
        Some((lw, lh))
    } else {
        None
    };
    let pixel_len = match read_u64_at(data, (fixed - 8) as usize) {
        Some(v) => v,
        None => return Err(LocalEditCacheError::ReadField),
    };
    if cached_size != file_size || cached_secs != secs || cached_nanos != nanos {
        return Err(LocalEditCacheError::SourceMetadataMismatch);
    }
    assert((width as int) * (height as int) <= 0xFFFF_FFFF * 0xFFFF_FFFF) by (nonlinear_arith)
        requires
            width <= 0xFFFF_FFFFu32,
            height <= 0xFFFF_FFFFu32,
    ;
    let wh = (width as u64) * (height as u64);
    if wh > u64::MAX / 4 {
        return Err(LocalEditCacheError::DimensionsOverflowed);
    }
    let expected_pixel_len = wh * 4;
    if pixel_len != expected_pixel_len {
        return Err(LocalEditCacheError::PixelLengthMismatch);
    }
    let path_len64 = path_len as u64;
    if pixel_len > u64::MAX - fixed - path_len64 {
        return Err(LocalEditCacheError::FileLengthOverflowed);
    }
    let expected_file_len = fixed + path_len64 + pixel_len;
    if data.len() as u64 != expected_file_len {
        return Err(LocalEditCacheError::FileLengthMismatch);
    }
    let start = fixed as usize;
    if path_len as usize != key.len() || !bytes_equal_at(data, start, key) {
        proof {
            if path_len as int == key@.len() {
                assert(data@.subrange(start as int, start + path_len) != key@);
            } else {
                assert(data@.subrange(start as int, start + path_len).len() != key@.len());
            }
        }
        return Err(LocalEditCacheError::PathKeyMismatch);
    }
    Ok(ValidatedLocalEditCacheHeader {
        generation_id,
        width,
        height,
        logical_dimensions: logical,
        source_file_size: file_size,
        pixels_offset: fixed + path_len64,
    })
}

/// The pixel bytes of a validated cache file.
pub fn local_edit_cache_pixels(data: &[u8], header: &ValidatedLocalEditCacheHeader) -> (pixels: Vec<u8>)
    requires
        header.pixels_offset <= data@.len(),
    ensures
        pixels@ == data@.subrange(header.pixels_offset as int, data@.len() as int),
{
    let s = vstd::slice::slice_subrange(data, header.pixels_offset as usize, data.len());
    vstd::slice::slice_to_vec(s)
}

/// A written cache file validates against the same source metadata and
/// path key, and gives back the written header fields and pixels.
pub proof fn law_local_edit_cache_round_trip(
    generation_id: u64,
    file_size: u64,
    secs: u64,
    nanos: u32,
    key: Seq<u8>,
    width: u32,
    height: u32,
    logical: (u32, u32),
    pixels: Seq<u8>,
)
    requires
        key.len() <= u32::MAX,
        pixels.len() == width * height * 4,
        68 + key.len() + pixels.len() <= u64::MAX,
        logical.0 > 0,
        logical.1 > 0,
    ensures
        ({
            let data = local_edit_cache_bytes(generation_id, file_size, secs, nanos, key, width, height, logical, pixels);
            &&& check_local_edit_cache(data, key, file_size, secs, nanos) == Ok::<ValidatedLocalEditCacheHeader, LocalEditCacheError>(
                ValidatedLocalEditCacheHeader {
                    generation_id: generation_id,
                    width: width,
                    height: height,
                    logical_dimensions: Some(logical),
                    source_file_size: file_size,
                    pixels_offset: (68 + key.len()) as u64,
                },
            )
            &&& data.subrange(68 + key.len() as int, data.len() as int) == pixels
        }),
{
    lemma_le_round_trip();
    let data = local_edit_cache_bytes(generation_id, file_size, secs, nanos, key, width, height, logical, pixels);
    assert(data.len() == 68 + key.len() + pixels.len());
    assert(data.subrange(0, 8) =~= local_edit_magic());
    assert(data.subrange(8, 12) =~= le32(3));
    assert(data.subrange(12, 20) =~= le64(generation_id));
    assert(data.subrange(20, 28) =~= le64(file_size));
    assert(data.subrange(28, 36) =~= le64(secs));
    assert(data.subrange(36, 40) =~= le32(nanos));
    assert(data.subrange(40, 44) =~= le32(key.len() as u32));
    assert(data.subrange(44, 48) =~= le32(width));
    assert(data.subrange(48, 52) =~= le32(height));
    assert(data.subrange(52, 56) =~= le32(logical.0));
    assert(data.subrange(56, 60) =~= le32(logical.1));
    assert(data.subrange(60, 68) =~= le64(pixels.len() as u64));
    assert(data.subrange(68, 68 + key.len() as int) =~= key);
    assert(data.subrange(68 + key.len() as int, data.len() as int) =~= pixels);
}

/// A cache file written for one state of the source is refused once the
/// source's size or modification time changed.
pub proof fn law_local_edit_cache_stale_after_source_change(
    generation_id: u64,
    file_size: u64,
    secs: u64,
    nanos: u32,
    key: Seq<u8>,
    width: u32,
    height: u32,
    logical: (u32, u32),
    pixels: Seq<u8>,
    new_file_size: u64,
    new_secs: u64,
    new_nanos: u32,
)
    requires
        key.len() <= u32::MAX,
        logical.0 > 0,
        logical.1 > 0,
        new_file_size != file_size || new_secs != secs || new_nanos != nanos,
    ensures
        check_local_edit_cache(
            local_edit_cache_bytes(generation_id, file_size, secs, nanos, key, width, height, logical, pixels),
            key,
            new_file_size,
            new_secs,
            new_nanos,
        ) == Err::<ValidatedLocalEditCacheHeader, LocalEditCacheError>(LocalEditCacheError::SourceMetadataMismatch),
{
    lemma_le_round_trip();
    let data = local_edit_cache_bytes(generation_id, file_size, secs, nanos, key, width, height, logical, pixels);
    assert(data.subrange(0, 8) =~= local_edit_magic());
    assert(data.subrange(8, 12) =~= le32(3));
    assert(data.subrange(20, 28) =~= le64(file_size));
    assert(data.subrange(28, 36) =~= le64(secs));
    assert(data.subrange(36, 40) =~= le32(nanos));
    assert(data.subrange(52, 56) =~= le32(logical.0));
    assert(data.subrange(56, 60) =~= le32(logical.1));
}

/// Rendered RGBA8 pixels with their size.
#[derive(Debug, Clone)]
pub struct RenderedImage {
    pub pixels: Vec<u8>,
    pub width: u32,
    pub height: u32,
}

pub open spec fn min_u32(a: u32, b: u32) -> u32 {
    if a <= b { a } else { b }
}

pub open spec fn max_u32(a: u32, b: u32) -> u32 {
    if a >= b { a } else { b }
}

/// Size of the thumbnail of a `width` x `height` image that fits a
/// `max_dim` square: unchanged when it already fits, else scaled so that
/// the longer side is `max_dim` (rounding down, never below 1). A zero
/// side or a zero bound only clamps each side.
pub open spec fn thumbnail_dimensions(width: u32, height: u32, max_dim: u32) -> (u32, u32) {
    if width == 0 || height == 0 || max_dim == 0 {
        (min_u32(width, max_dim), min_u32(height, max_dim))
    } else if width <= max_dim && height <= max_dim {
        (width, height)
    } else {
        let side = max_u32(width, height);
        let w = width * max_dim / (side as int);
        let h = height * max_dim / (side as int);
        ((if w >= 1 { w } else { 1 }) as u32, (if h >= 1 { h } else { 1 }) as u32)
    }
}

proof fn lemma_scaled_side(x: u32, max_dim: u32, side: u32)
    requires
        0 < x <= side,
        0 < max_dim,
    ensures
        x * max_dim / (side as int) <= max_dim,
        x == side ==> x * max_dim / (side as int) == max_dim,
{
    assert(x * max_dim <= side * max_dim) by (nonlinear_arith)
        requires
            0 < x <= side,
            0 < max_dim,
    ;
    assert(x * max_dim / (side as int) <= max_dim) by (nonlinear_arith)
        requires
            x * max_dim <= side * max_dim,
            0 < side,
    ;
    if x == side {
        assert(side * max_dim / (side as int) == max_dim) by (nonlinear_arith)
            requires
                0 < side,
        ;
    }
}

/// Thumbnail size for an image (see `thumbnail_dimensions`). The result
/// fits the `max_dim` square; a scaled result has its longer side equal
/// to `max_dim`.
pub fn thumbnail_dimensions_for_image(width: u32, height: u32, max_dim: u32) -> (r: (u32, u32))
    ensures
        r == thumbnail_dimensions(width, height, max_dim),
        r.0 <= max_dim,
        r.1 <= max_dim,
        width > 0 && height > 0 && max_dim > 0 && (width > max_dim || height > max_dim) ==> (
        r.0 == max_dim || r.1 == max_dim),
        width > 0 && height > 0 && width <= max_dim && height <= max_dim ==> r == (width, height),
{
    if width == 0 || height == 0 || max_dim == 0 {
        let w = if width <= max_dim { width } else { max_dim };
        let h = if height <= max_dim { height } else { max_dim };
        return (w, h);
    }
    if width <= max_dim && height <= max_dim {
        return (width, height);
    }
    let side: u32 = if width >= height { width } else { height };
    proof {
        lemma_scaled_side(width, max_dim, side);
        lemma_scaled_side(height, max_dim, side);
    }
    assert((width as int) * (max_dim as int) <= 0xFFFF_FFFF * 0xFFFF_FFFF) by (nonlinear_arith)
        requires
            width <= 0xFFFF_FFFFu32,
            max_dim <= 0xFFFF_FFFFu32,
    ;
    assert((height as int) * (max_dim as int) <= 0xFFFF_FFFF * 0xFFFF_FFFF) by (nonlinear_arith)
        requires
            height <= 0xFFFF_FFFFu32,
            max_dim <= 0xFFFF_FFFFu32,
    ;
    let w64 = (width as u64) * (max_dim as u64) / (side as u64);
    let h64 = (height as u64) * (max_dim as u64) / (side as u64);
    let w = if w64 >= 1 { w64 as u32 } else { 1 };
    let h = if h64 >= 1 { h64 as u32 } else { 1 };
    (w, h)
}

/// Logical size recorded for a schema-2 cache file, which did not store
/// one. A thumbnail keeps its actual size. A full-size file keeps its
/// actual size unless the source's size is known, differs from the actual
/// size turned by a quarter, and is smaller on some side: then the source's
/// size is taken.
pub open spec fn legacy_logical_dimensions(
    variant: LocalEditCacheVariant,
    actual: (u32, u32),
    source: Option<(u32, u32)>,
) -> (u32, u32) {
    match (variant, source) {
        (LocalEditCacheVariant::Full, Some(src)) => {
            if actual == (src.1, src.0) {
                actual
            } else if actual.0 > src.0 || actual.1 > src.1 {
                src
            } else {
                actual
            }
        },
        _ => actual,
    }
}

/// See `legacy_logical_dimensions`; `source_dimensions` is the size read
/// from the source file's header, `None` when it could not be read.
pub fn legacy_local_edit_logical_dimensions(
    variant: LocalEditCacheVariant,
    actual_dimensions: (u32, u32),
    source_dimensions: Option<(u32, u32)>,
) -> (r: (u32, u32))
    ensures
        r == legacy_logical_dimensions(variant, actual_dimensions, source_dimensions),
{
    match variant {
        LocalEditCacheVariant::Thumbnail => actual_dimensions,
        LocalEditCacheVariant::Full => match source_dimensions {
            None => actual_dimensions,
            Some(src) => {
                if actual_dimensions.0 == src.1 && actual_dimensions.1 == src.0 {
                    actual_dimensions
                } else if actual_dimensions.0 > src.0 || actual_dimensions.1 > src.1 {
                    src
                } else {
                    actual_dimensions
                }
            },
        },
    }
}

/// Generation and stored size of one cache file.
#[derive(Debug, Clone, Copy, PartialEq, Eq, Structural)]
pub struct LocalEditVariantHeader {
    pub generation_id: u64,
    pub width: u32,
    pub height: u32,
}

/// A thumbnail is current when it belongs to the full-size file's
/// generation and has the expected size.
pub open spec fn thumbnail_is_current(
    thumbnail: LocalEditVariantHeader,
    generation_id: u64,
    expected: (u32, u32),
) -> bool {
    thumbnail.generation_id == generation_id && thumbnail.width == expected.0
        && thumbnail.height == expected.1
}

pub fn persisted_thumbnail_matches_generation_and_dimensions(
    thumbnail: &LocalEditVariantHeader,
    generation_id: u64,
    expected_dimensions: (u32, u32),
) -> (r: bool)
    ensures
        r == thumbnail_is_current(*thumbnail, generation_id, expected_dimensions),
{
    thumbnail.generation_id == generation_id && thumbnail.width == expected_dimensions.0
        && thumbnail.height == expected_dimensions.1
}

/// Name for the pixels that `image::imageops::resize` with the triangle
/// filter gives when the RGBA8 image `width` x `height` held in `pixels` is
/// resized to `new_width` x `new_height`.
pub uninterp spec fn triangle_resized(
    pixels: Seq<u8>,
    width: u32,
    height: u32,
    new_width: u32,
    new_height: u32,
) -> Seq<u8>;

/// Wraps `image::RgbaImage::from_raw` and `image::imageops::resize` with
/// `FilterType::Triangle`. Trusted: the result is the named resize of the
/// arguments, 4 bytes for each pixel of the new size (`resize` builds its
/// output with `ImageBuffer::new(new_width, new_height)`). `from_raw`
/// accepts any buffer of at least `width * height * 4` bytes.
#[verifier::external_body]
fn resize_rgba_triangle(pixels: &Vec<u8>, width: u32, height: u32, new_width: u32, new_height: u32) -> (r: Vec<u8>)
    requires
        pixels@.len() >= width * height * 4,
        0 < new_width <= width,
        0 < new_height <= height,
    ensures
        r@ == triangle_resized(pixels@, width, height, new_width, new_height),
        r@.len() == new_width * new_height * 4,
{
    let source = image::RgbaImage::from_raw(width, height, pixels.clone()).unwrap();
    image::imageops::resize(&source, new_width, new_height, image::imageops::FilterType::Triangle).into_raw()
}

/// The thumbnail of a rendered image: the image itself when it fits the
/// `max_dim` square, else its triangle-filtered resize to
/// `thumbnail_dimensions` (no pixels when that size is empty). A pixel
/// buffer shorter than the stated size is refused.
pub fn thumbnail_from_rendered_image(rendered: &RenderedImage, max_dim: u32) -> (r: Result<RenderedImage, String>)
    ensures
        rendered.width <= max_dim && rendered.height <= max_dim ==> (r matches Ok(t) && t.width
            == rendered.width && t.height == rendered.height && t.pixels@ == rendered.pixels@),
        !(rendered.width <= max_dim && rendered.height <= max_dim) && rendered.pixels@.len()
            < rendered.width * rendered.height * 4 ==> (r matches Err(e) && e@
            == "Failed to build thumbnail source image"@),
        !(rendered.width <= max_dim && rendered.height <= max_dim) && rendered.pixels@.len()
            >= rendered.width * rendered.height * 4 ==> (r matches Ok(t) && (t.width, t.height)
            == thumbnail_dimensions(rendered.width, rendered.height, max_dim) && t.pixels@ == (if t.width
            == 0 || t.height == 0 {
            Seq::<u8>::empty()
        } else {
            triangle_resized(rendered.pixels@, rendered.width, rendered.height, t.width, t.height)
        })),
{
    let w = rendered.width;
    let h = rendered.height;
    if w <= max_dim && h <= max_dim {
        let mut pixels: Vec<u8> = Vec::new();
        for i in 0..rendered.pixels.len()
            invariant
                pixels@ == rendered.pixels@.subrange(0, i as int),
        {
            pixels.push(rendered.pixels[i]);
            assert(pixels@ == rendered.pixels@.subrange(0, i + 1));
        }
        assert(pixels@ == rendered.pixels@);
        return Ok(RenderedImage { pixels, width: w, height: h });
    }
    assert((w as int) * (h as int) <= 0xFFFF_FFFF * 0xFFFF_FFFF) by (nonlinear_arith)
        requires
            w <= 0xFFFF_FFFFu32,
            h <= 0xFFFF_FFFFu32,
    ;
    let area = (w as u64) * (h as u64);
    if area > (rendered.pixels.len() as u64) / 4 {
        return Err(String::from_str("Failed to build thumbnail source image"));
    }
    let (tw, th) = thumbnail_dimensions_for_image(w, h, max_dim);
    if tw == 0 || th == 0 {
        return Ok(RenderedImage { pixels: Vec::new(), width: tw, height: th });
    }
    proof {
        lemma_scaled_bounds(w, h, max_dim);
    }
    let pixels = resize_rgba_triangle(&rendered.pixels, w, h, tw, th);
    Ok(RenderedImage { pixels, width: tw, height: th })
}

proof fn lemma_scaled_bounds(w: u32, h: u32, max_dim: u32)
    requires
        w > max_dim || h > max_dim,
    ensures
        ({
            let t = thumbnail_dimensions(w, h, max_dim);
            (w > 0 && h > 0 && max_dim > 0) ==> (0 < t.0 <= w && 0 < t.1 <= h)
        }),
        (w == 0 || h == 0 || max_dim == 0) ==> thumbnail_dimensions(w, h, max_dim).0 <= w,
{
    if w > 0 && h > 0 && max_dim > 0 {
        let side = max_u32(w, h);
        lemma_scaled_side(w, max_dim, side);
        lemma_scaled_side(h, max_dim, side);
        if w <= max_dim {
            assert(w * max_dim / (side as int) <= w) by (nonlinear_arith)
                requires
                    0 < w <= max_dim,
                    max_dim < side,
            {
                assert(w * max_dim <= w * side);
                assert(w * max_dim / (side as int) <= w * side / (side as int));
                assert(w * side / (side as int) == w);
            }
        }
        if h <= max_dim {
            assert(h * max_dim / (side as int) <= h) by (nonlinear_arith)
                requires
                    0 < h <= max_dim,
                    max_dim < side,
            {
                assert(h * max_dim <= h * side);
                assert(h * max_dim / (side as int) <= h * side / (side as int));
                assert(h * side / (side as int) == h);
            }
        }
        if w > max_dim {
            assert(w * max_dim / (side as int) <= w);
        }
        if h > max_dim {
            assert(h * max_dim / (side as int) <= h);
        }
    }
}

/// A cache file was read and is current.
pub open spec fn is_current_entry(
    entry: Option<LocalEditVariantHeader>,
    generation_id: u64,
    expected: (u32, u32),
) -> bool {
    match entry {
        Some(t) => thumbnail_is_current(t, generation_id, expected),
        None => false,
    }
}

/// How many times a thumbnail repair is attempted before the last look.
pub const LOCAL_EDIT_THUMBNAIL_REPAIR_ATTEMPTS: u32 = 8;

/// The first look at the cache under its lock, while repairing a thumbnail.
#[derive(Debug, Clone, Copy, PartialEq, Eq, Structural)]
pub enum LocalEditThumbnailRepairDecision {
    /// No usable full-size file: there is nothing to show.
    Missing,
    /// The thumbnail file that was read is current: it is shown.
    Return,
    /// The thumbnail must be derived from the full-size file of this
    /// generation.
    Derive { generation_id: u64 },
}

/// Decision of the first look. `full` is the full-size file's header,
/// `thumbnail_header` the thumbnail file's header, and `thumbnail_entry`
/// the header of the thumbnail file as loaded with its pixels; the entry is
/// consulted only when the header is current, so it need not be loaded
/// otherwise.
pub open spec fn repair_decision(
    full: Option<LocalEditVariantHeader>,
    thumbnail_header: Option<LocalEditVariantHeader>,
    thumbnail_entry: Option<LocalEditVariantHeader>,
    max_dim: u32,
) -> LocalEditThumbnailRepairDecision {
    match full {
        None => LocalEditThumbnailRepairDecision::Missing,
        Some(f) => {
            let expected = thumbnail_dimensions(f.width, f.height, max_dim);
            if is_current_entry(thumbnail_header, f.generation_id, expected) && is_current_entry(
                thumbnail_entry,
                f.generation_id,
                expected,
            ) {
                LocalEditThumbnailRepairDecision::Return
            } else {
                LocalEditThumbnailRepairDecision::Derive { generation_id: f.generation_id }
            }
        },
    }
}

pub fn thumbnail_repair_decision(
    full: Option<LocalEditVariantHeader>,
    thumbnail_header: Option<LocalEditVariantHeader>,
    thumbnail_entry: Option<LocalEditVariantHeader>,
    max_dim: u32,
) -> (r: LocalEditThumbnailRepairDecision)
    ensures
        r == repair_decision(full, thumbnail_header, thumbnail_entry, max_dim),
{
    match full {
        None => LocalEditThumbnailRepairDecision::Missing,
        Some(f) => {
            let expected = thumbnail_dimensions_for_image(f.width, f.height, max_dim);
            let header_current = match thumbnail_header {
                Some(th) => persisted_thumbnail_matches_generation_and_dimensions(&th, f.generation_id, expected),
                None => false,
            };
            if header_current {
                if let Some(te) = thumbnail_entry {
                    if persisted_thumbnail_matches_generation_and_dimensions(&te, f.generation_id, expected) {
                        return LocalEditThumbnailRepairDecision::Return;
                    }
                }
            }
            LocalEditThumbnailRepairDecision::Derive { generation_id: f.generation_id }
        },
    }
}

/// Whether the full-size file loaded outside the lock still belongs to the
/// generation the derivation was decided for.
pub fn full_entry_matches_generation(full_entry: Option<LocalEditVariantHeader>, generation_id: u64) -> (r: bool)
    ensures
        r == (full_entry matches Some(f) && f.generation_id == generation_id),
{
    match full_entry {
        Some(f) => f.generation_id == generation_id,
        None => false,
    }
}

/// What a repair attempt does next.
#[derive(Debug, Clone, Copy, PartialEq, Eq, Structural)]
pub enum RepairStep {
    /// Show nothing: there is no usable full-size file.
    ShowNothing,
    /// Show the thumbnail that was read.
    ShowThumbnail,
    /// Derive the thumbnail from the full-size file of this generation.
    Derive { generation_id: u64 },
    /// Start the next attempt (or, after the last one, take the last look).
    Retry,
}

/// After the first look: a current thumbnail is shown only if it was
/// actually read (it may have vanished in between).
pub open spec fn first_look_step(decision: LocalEditThumbnailRepairDecision, thumbnail_read: bool) -> RepairStep {
    match decision {
        LocalEditThumbnailRepairDecision::Missing => RepairStep::ShowNothing,
        LocalEditThumbnailRepairDecision::Return => if thumbnail_read {
            RepairStep::ShowThumbnail
        } else {
            RepairStep::Retry
        },
        LocalEditThumbnailRepairDecision::Derive { generation_id } => RepairStep::Derive { generation_id },
    }
}

pub fn repair_first_step(decision: LocalEditThumbnailRepairDecision, thumbnail_read: bool) -> (r: RepairStep)
    ensures
        r == first_look_step(decision, thumbnail_read),
{
    match decision {
        LocalEditThumbnailRepairDecision::Missing => RepairStep::ShowNothing,
        LocalEditThumbnailRepairDecision::Return => if thumbnail_read {
            RepairStep::ShowThumbnail
        } else {
            RepairStep::Retry
        },
        LocalEditThumbnailRepairDecision::Derive { generation_id } => RepairStep::Derive { generation_id },
    }
}

/// A thumbnail is derived only from a full-size file that was read and is
/// of the generation the first look chose; otherwise the attempt retries.
pub fn derive_from_full(full_read: bool, generation_matches: bool) -> (r: bool)
    ensures
        r == (full_read && generation_matches),
{
    full_read && generation_matches
}

/// What the second look leads to.
#[derive(Debug, Clone, Copy, PartialEq, Eq, Structural)]
pub enum RepairOutcome {
    /// Show the thumbnail another writer stored.
    ShowExisting,
    /// Show the derived thumbnail.
    ShowDerived,
    /// Start the next attempt.
    Retry,
}

/// After the second look: another writer's thumbnail is shown only if it
/// was actually read.
pub open spec fn second_look_outcome(step: FinalizeLocalEditThumbnailRepair, thumbnail_read: bool) -> RepairOutcome {
    match step {
        FinalizeLocalEditThumbnailRepair::ReturnExisting => if thumbnail_read {
            RepairOutcome::ShowExisting
        } else {
            RepairOutcome::Retry
        },
        FinalizeLocalEditThumbnailRepair::WriteDerived => RepairOutcome::ShowDerived,
        FinalizeLocalEditThumbnailRepair::Retry => RepairOutcome::Retry,
    }
}

pub fn repair_second_step(step: FinalizeLocalEditThumbnailRepair, thumbnail_read: bool) -> (r: RepairOutcome)
    ensures
        r == second_look_outcome(step, thumbnail_read),
{
    match step {
        FinalizeLocalEditThumbnailRepair::ReturnExisting => if thumbnail_read {
            RepairOutcome::ShowExisting
        } else {
            RepairOutcome::Retry
        },
        FinalizeLocalEditThumbnailRepair::WriteDerived => RepairOutcome::ShowDerived,
        FinalizeLocalEditThumbnailRepair::Retry => RepairOutcome::Retry,
    }
}

/// Whether attempt `attempt` (counted from 0) runs; after the last, the
/// repair takes its last look.
pub fn repair_attempt_runs(attempt: u32) -> (r: bool)
    ensures
        r == (attempt < LOCAL_EDIT_THUMBNAIL_REPAIR_ATTEMPTS),
{
    attempt < LOCAL_EDIT_THUMBNAIL_REPAIR_ATTEMPTS
}

/// The second look under the lock, after a thumbnail was derived.
#[derive(Debug, Clone, Copy, PartialEq, Eq, Structural)]
pub enum FinalizeLocalEditThumbnailRepair {
    /// Another writer stored a current thumbnail meanwhile: it is shown.
    ReturnExisting,
    /// The derived thumbnail is written (a failed write is only reported)
    /// and shown.
    WriteDerived,
    /// The full-size file changed meanwhile: try again.
    Retry,
}

pub open spec fn finalize_decision(
    full: Option<LocalEditVariantHeader>,
    thumbnail_entry: Option<LocalEditVariantHeader>,
    derived_generation: u64,
    max_dim: u32,
) -> FinalizeLocalEditThumbnailRepair {
    match full {
        None => FinalizeLocalEditThumbnailRepair::Retry,
        Some(f) => {
            let expected = thumbnail_dimensions(f.width, f.height, max_dim);
            if is_current_entry(thumbnail_entry, f.generation_id, expected) {
                FinalizeLocalEditThumbnailRepair::ReturnExisting
            } else if f.generation_id != derived_generation {
                FinalizeLocalEditThumbnailRepair::Retry
            } else {
                FinalizeLocalEditThumbnailRepair::WriteDerived
            }
        },
    }
}

pub fn finalize_thumbnail_repair(
    full: Option<LocalEditVariantHeader>,
    thumbnail_entry: Option<LocalEditVariantHeader>,
    derived_generation: u64,
    max_dim: u32,
) -> (r: FinalizeLocalEditThumbnailRepair)
    ensures
        r == finalize_decision(full, thumbnail_entry, derived_generation, max_dim),
{
    match full {
        None => FinalizeLocalEditThumbnailRepair::Retry,
        Some(f) => {
            let expected = thumbnail_dimensions_for_image(f.width, f.height, max_dim);
            if let Some(te) = thumbnail_entry {
                if persisted_thumbnail_matches_generation_and_dimensions(&te, f.generation_id, expected) {
                    return FinalizeLocalEditThumbnailRepair::ReturnExisting;
                }
            }
            if f.generation_id != derived_generation {
                FinalizeLocalEditThumbnailRepair::Retry
            } else {
                FinalizeLocalEditThumbnailRepair::WriteDerived
            }
        },
    }
}

/// The last look, once every attempt was used.
#[derive(Debug, Clone, Copy, PartialEq, Eq, Structural)]
pub enum LastThumbnailLook {
    /// The stored thumbnail is current: it is shown.
    ReturnThumbnail,
    /// The full-size file is of the header's generation: a thumbnail is
    /// derived from it and shown, without being stored.
    DeriveFromFull,
    /// Nothing can be shown.
    Nothing,
}

pub open spec fn last_look(
    full: Option<LocalEditVariantHeader>,
    thumbnail_entry: Option<LocalEditVariantHeader>,
    full_entry: Option<LocalEditVariantHeader>,
    max_dim: u32,
) -> LastThumbnailLook {
    match full {
        None => LastThumbnailLook::Nothing,
        Some(f) => {
            let expected = thumbnail_dimensions(f.width, f.height, max_dim);
            if is_current_entry(thumbnail_entry, f.generation_id, expected) {
                LastThumbnailLook::ReturnThumbnail
            } else if full_entry.is_some() && full_entry.unwrap().generation_id == f.generation_id {
                LastThumbnailLook::DeriveFromFull
            } else {
                LastThumbnailLook::Nothing
            }
        },
    }
}

pub fn last_thumbnail_look(
    full: Option<LocalEditVariantHeader>,
    thumbnail_entry: Option<LocalEditVariantHeader>,
    full_entry: Option<LocalEditVariantHeader>,
    max_dim: u32,
) -> (r: LastThumbnailLook)
    ensures
        r == last_look(full, thumbnail_entry, full_entry, max_dim),
{
    match full {
        None => LastThumbnailLook::Nothing,
        Some(f) => {
            let expected = thumbnail_dimensions_for_image(f.width, f.height, max_dim);
            if let Some(te) = thumbnail_entry {
                if persisted_thumbnail_matches_generation_and_dimensions(&te, f.generation_id, expected) {
                    return LastThumbnailLook::ReturnThumbnail;
                }
            }
            if full_entry_matches_generation(full_entry, f.generation_id) {
                LastThumbnailLook::DeriveFromFull
            } else {
                LastThumbnailLook::Nothing
            }
        },
    }
}

/// A stored thumbnail is only ever shown when it is current for the
/// full-size file read in the same look: of its generation and of the
/// size derived from the full-size file's size.
pub proof fn law_shown_thumbnails_are_current(
    full: Option<LocalEditVariantHeader>,
    thumbnail_header: Option<LocalEditVariantHeader>,
    thumbnail_entry: Option<LocalEditVariantHeader>,
    full_entry: Option<LocalEditVariantHeader>,
    derived_generation: u64,
    max_dim: u32,
)
    ensures
        repair_decision(full, thumbnail_header, thumbnail_entry, max_dim)
            == LocalEditThumbnailRepairDecision::Return ==> (full matches Some(f) && thumbnail_entry matches Some(
            te,
        ) && thumbnail_is_current(te, f.generation_id, thumbnail_dimensions(f.width, f.height, max_dim))),
        finalize_decision(full, thumbnail_entry, derived_generation, max_dim)
            == FinalizeLocalEditThumbnailRepair::ReturnExisting ==> (full matches Some(f)
            && thumbnail_entry matches Some(te) && thumbnail_is_current(
            te,
            f.generation_id,
            thumbnail_dimensions(f.width, f.height, max_dim),
        )),
        finalize_decision(full, thumbnail_entry, derived_generation, max_dim)
            == FinalizeLocalEditThumbnailRepair::WriteDerived ==> (full matches Some(f)
            && f.generation_id == derived_generation),
        last_look(full, thumbnail_entry, full_entry, max_dim) == LastThumbnailLook::ReturnThumbnail ==> (
        full matches Some(f) && thumbnail_entry matches Some(te) && thumbnail_is_current(
            te,
            f.generation_id,
            thumbnail_dimensions(f.width, f.height, max_dim),
        )),
{
}

/// `<cache_dir>/<16 hex digits of the path key's hash><variant suffix>`.
pub fn local_edit_cache_file_path_for_path_key(
    cache_dir: &str,
    path_key: &str,
    variant: LocalEditCacheVariant,
) -> (r: String)
    ensures
        r@ == join(
            cache_dir@,
            hex_fixed(default_str_hash(path_key@) as nat, 16) + (match variant {
                LocalEditCacheVariant::Full => ".full.rgba"@,
                LocalEditCacheVariant::Thumbnail => ".thumb.rgba"@,
            }),
        ),
{
    let h = path_key_hash(path_key);
    let mut name: Vec<char> = Vec::new();
    push_hex_fixed(&mut name, h, 16);
    let suffix = chars_of(variant.file_suffix());
    extend_chars(&mut name, &suffix);
    let name_text = string_of(&name);
    join_path(cache_dir, name_text.as_str())
}

} // verus!
