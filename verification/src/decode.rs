//! Decoded images and their persisted cache: which sources are cached, the
//! cache file format, when a cached file is still good, and which cache
//! files a prune removes.

use vstd::prelude::*;
use vstd::utf8::{encode_utf8, valid_utf8};
use crate::nav::{is_raw_file, is_raw_path};
use crate::paths::{extension, extension_of, join, join_path};
use crate::text::{chars_equal, hex_fixed, lowercase_text, lowercased, push_hex_fixed, string_of};
use crate::wire::{bytes_equal_at, le32, le64, lemma_le_round_trip, push_bytes, push_u32, push_u64, read_u32_at, read_u64_at, u32_at, u64_at};

verus! {

/// A decoded image: RGBA8 pixels, row by row, and the size of the source
/// file it came from.
#[derive(Debug, Clone)]
pub struct ImageData {
    pub pixels: Vec<u8>,
    pub width: u32,
    pub height: u32,
    pub file_size: u64,
}

/// Largest side of a decoded image.
pub const MAX_TEXTURE_DIM: u32 = 16384;
/// Schema written by this version.
pub const DECODE_CACHE_SCHEMA_VERSION: u32 = 3;
/// Bumped whenever cached pixels of an older build must not be trusted.
pub const DECODE_CACHE_CONTRACT_VERSION: u64 = 4;
/// Name of the cache directory under the repo root.
pub const DECODE_CACHE_DIR_NAME: &'static str = "decoded-cache";
/// A prune starts once the cache holds more than this many bytes.
pub const DECODE_CACHE_MAX_BYTES: u64 = 2_147_483_648;
/// A prune removes the oldest files until no more than this is held.
pub const DECODE_CACHE_TRIM_TARGET_BYTES: u64 = 1_610_612_736;
/// A prune runs after every this many cache writes.
pub const DECODE_CACHE_PRUNE_WRITE_INTERVAL: u64 = 8;
/// Longest path key a cache file may hold.
pub const DECODE_CACHE_MAX_PATH_KEY_BYTES: u32 = 65_536;

/// SVG images and camera RAW files are cached once decoded.
pub open spec fn caches_decoded(p: Seq<char>) -> bool {
    (extension(p) matches Some(e) && (lowercased(e) == "svg"@ || lowercased(e) == "svgz"@)) || is_raw_path(p)
}

pub fn supports_persisted_decoded_cache(path: &str) -> (r: bool)
    ensures
        r == caches_decoded(path@),
{
    let p = crate::text::chars_of(path);
    let is_svg = match extension_of(&p) {
        Some(e) => {
            let lower = crate::text::chars_of(lowercase_text(string_of(&e).as_str()).as_str());
            let svg = crate::text::chars_of("svg");
            let svgz = crate::text::chars_of("svgz");
            chars_equal(&lower, &svg) || chars_equal(&lower, &svgz)
        },
        None => false,
    };
    is_svg || is_raw_file(path)
}

/// Whether opening `path` goes through the persisted decode cache.
pub fn path_uses_persisted_decoded_cache(path: &str) -> (r: bool)
    ensures
        r == caches_decoded(path@),
{
    supports_persisted_decoded_cache(path)
}

/// `<repo root>/decoded-cache` for a source that is cached, else `None`.
pub fn decoded_cache_dir_for_repo_root(path: &str, repo_root: &str) -> (r: Option<String>)
    ensures
        caches_decoded(path@) ==> (r matches Some(d) && d@ == join(repo_root@, "decoded-cache"@)),
        !caches_decoded(path@) ==> r is None,
{
    if !supports_persisted_decoded_cache(path) {
        return None;
    }
    Some(join_path(repo_root, DECODE_CACHE_DIR_NAME))
}

/// Why a cache file could not be used (a stale file is no error).
#[derive(Debug, Clone, Copy, PartialEq, Eq, Structural)]
pub enum DecodedCacheError {
    /// The file ended before a field it must hold.
    Truncated,
    PathKeyTooLong { length: u32 },
    PathKeyNotUtf8,
    /// The source's content had to be compared but could not be hashed.
    SourceHashFailed,
    DimensionsOverflowed,
    BufferExceedsUsize,
    PixelLengthMismatch { expected: u64, got: u64 },
    /// The path key is too long to be written.
    PathKeyExceedsU32,
}

/// What identifies a source file version: its normalized path, size and
/// modification time.
#[derive(Debug, Clone)]
pub struct SourceFingerprint {
    pub path_key: String,
    pub file_size: u64,
    pub modified_secs: u64,
    pub modified_nanos: u32,
}

/// Pixels read back from a cache file.
#[derive(Debug, Clone)]
pub struct CachedImage {
    pub pixels: Vec<u8>,
    pub width: u32,
    pub height: u32,
}

/// Bytes of an RGBA8 image of `width` x `height`, when that fits.
pub open spec fn rgba_len(width: u32, height: u32) -> Result<usize, DecodedCacheError> {
    if width * height * 4 > u64::MAX {
        Err(DecodedCacheError::DimensionsOverflowed)
    } else if width * height * 4 > usize::MAX {
        Err(DecodedCacheError::BufferExceedsUsize)
    } else {
        Ok((width * height * 4) as usize)
    }
}

pub fn pixel_len(width: u32, height: u32) -> (r: Result<usize, DecodedCacheError>)
    ensures
        r == rgba_len(width, height),
{
    assert((width as int) * (height as int) <= 0xFFFF_FFFF * 0xFFFF_FFFF) by (nonlinear_arith)
        requires
            width <= 0xFFFF_FFFFu32,
            height <= 0xFFFF_FFFFu32,
    ;
    let area = (width as u64) * (height as u64);
    if area > u64::MAX / 4 {
        return Err(DecodedCacheError::DimensionsOverflowed);
    }
    let bytes = area * 4;
    if bytes > usize::MAX as u64 {
        return Err(DecodedCacheError::BufferExceedsUsize);
    }
    Ok(bytes as usize)
}

/// "PHOCACHE".
pub open spec fn decode_cache_magic() -> Seq<u8> {
    seq![80u8, 72u8, 79u8, 67u8, 65u8, 67u8, 72u8, 69u8]
}

/// The outcome of reading a cache file: `Ok(None)` when it belongs to
/// another build, another source or another version of the source;
/// `Ok(Some((width, height, offset)))` when its pixels, at `offset`, are
/// good. `source_hash` is the content hash of the current source, which is
/// consulted only when the recorded modification time differs (`None` when
/// it could not be computed).
pub open spec fn check_decoded_cache(
    data: Seq<u8>,
    key: Seq<u8>,
    file_size: u64,
    secs: u64,
    nanos: u32,
    source_hash: Option<u64>,
) -> Result<Option<(u32, u32, int)>, DecodedCacheError> {
    if data.len() < 8 {
        Err(DecodedCacheError::Truncated)
    } else if data.subrange(0, 8) != decode_cache_magic() {
        Ok(None)
    } else if data.len() < 12 {
        Err(DecodedCacheError::Truncated)
    } else if u32_at(data, 8) != DECODE_CACHE_SCHEMA_VERSION {
        Ok(None)
    } else if data.len() < 20 {
        Err(DecodedCacheError::Truncated)
    } else if u64_at(data, 12) != DECODE_CACHE_CONTRACT_VERSION {
        Ok(None)
    } else if data.len() < 24 {
        Err(DecodedCacheError::Truncated)
    } else {
        let path_len = u32_at(data, 20);
        let p = 24 + path_len;
        if path_len > DECODE_CACHE_MAX_PATH_KEY_BYTES {
            Err(DecodedCacheError::PathKeyTooLong { length: path_len })
        } else if data.len() < p {
            Err(DecodedCacheError::Truncated)
        } else if !valid_utf8(data.subrange(24, p)) {
            Err(DecodedCacheError::PathKeyNotUtf8)
        } else if data.len() < p + 28 {
            Err(DecodedCacheError::Truncated)
        } else if data.subrange(24, p) != key || u64_at(data, p) != file_size {
            Ok(None)
        } else if (u64_at(data, p + 8) != secs || u32_at(data, p + 16) != nanos) && source_hash is None {
            Err(DecodedCacheError::SourceHashFailed)
        } else if (u64_at(data, p + 8) != secs || u32_at(data, p + 16) != nanos) && source_hash
            != Some(u64_at(data, p + 20)) {
            Ok(None)
        } else if data.len() < p + 44 {
            Err(DecodedCacheError::Truncated)
        } else {
            let q = p + 28;
            let width = u32_at(data, q);
            let height = u32_at(data, q + 4);
            let stored = u64_at(data, q + 8);
            if stored > usize::MAX {
                Err(DecodedCacheError::BufferExceedsUsize)
            } else {
                match rgba_len(width, height) {
                    Err(e) => Err(e),
                    Ok(n) => if stored != n {
                        Err(DecodedCacheError::PixelLengthMismatch { expected: n as u64, got: stored })
                    } else if data.len() < q + 16 + n {
                        Err(DecodedCacheError::Truncated)
                    } else {
                        Ok(Some((width, height, q + 16)))
                    },
                }
            }
        }
    }
}

/// Wraps `std::str::from_utf8`. Trusted: it succeeds exactly on the bytes
/// that vstd's `valid_utf8` accepts.
#[verifier::external_body]
fn is_utf8(bytes: &[u8]) -> (r: bool)
    ensures
        r == valid_utf8(bytes@),
{
    std::str::from_utf8(bytes).is_ok()
}

fn decode_cache_magic_bytes() -> (v: Vec<u8>)
    ensures
        v@ == decode_cache_magic(),
{
    let v: Vec<u8> = vec![80, 72, 79, 67, 65, 67, 72, 69];
    assert(v@ =~= decode_cache_magic());
    v
}

/// Whether reading the cache file `data` needs the content hash of the
/// current source: the file matches this build, source path and size, but
/// records another modification time.
pub fn decoded_cache_needs_source_hash(data: &[u8], fingerprint: &SourceFingerprint) -> (r: bool)
    ensures
        r == (check_decoded_cache(
            data@,
            encode_utf8(fingerprint.path_key@),
            fingerprint.file_size,
            fingerprint.modified_secs,
            fingerprint.modified_nanos,
            None,
        ) == Err::<Option<(u32, u32, int)>, DecodedCacheError>(DecodedCacheError::SourceHashFailed)),
{
    match read_decoded_cache(data, fingerprint, None) {
        Err(DecodedCacheError::SourceHashFailed) => true,
        _ => false,
    }
}

/// Reads a cache file against the current source (see
/// `check_decoded_cache`), giving back its pixels when it is good.
pub fn read_decoded_cache(data: &[u8], fingerprint: &SourceFingerprint, source_hash: Option<u64>) -> (r: Result<Option<CachedImage>, DecodedCacheError>)
    ensures
        match check_decoded_cache(
            data@,
            encode_utf8(fingerprint.path_key@),
            fingerprint.file_size,
            fingerprint.modified_secs,
            fingerprint.modified_nanos,
            source_hash,
        ) {
            Err(e) => r == Err::<Option<CachedImage>, DecodedCacheError>(e),
            Ok(None) => r matches Ok(None),
            Ok(Some((w, h, offset))) => r matches Ok(Some(img)) && img.width == w && img.height == h
                && img.pixels@ == data@.subrange(offset, offset + w * h * 4),
        },
{
    let key = fingerprint.path_key.as_str().as_bytes();
    if data.len() < 8 {
        return Err(DecodedCacheError::Truncated);
    }
    let magic = decode_cache_magic_bytes();
    if !bytes_equal_at(data, 0, &magic) {
        return Ok(None);
    }
    let schema = match read_u32_at(data, 8) {
        Some(v) => v,
        None => return Err(DecodedCacheError::Truncated),
    };
    if schema != DECODE_CACHE_SCHEMA_VERSION {
        return Ok(None);
    }
    let contract = match read_u64_at(data, 12) {
        Some(v) => v,
        None => return Err(DecodedCacheError::Truncated),
    };
    if contract != DECODE_CACHE_CONTRACT_VERSION {
        return Ok(None);
    }
    let path_len = match read_u32_at(data, 20) {
        Some(v) => v,
        None => return Err(DecodedCacheError::Truncated),
    };
    if path_len > DECODE_CACHE_MAX_PATH_KEY_BYTES {
        return Err(DecodedCacheError::PathKeyTooLong { length: path_len });
    }
    let p: usize = 24 + path_len as usize;
    if data.len() < p {
        return Err(DecodedCacheError::Truncated);
    }
    let stored_key = vstd::slice::slice_subrange(data, 24, p);
    if !is_utf8(stored_key) {
        return Err(DecodedCacheError::PathKeyNotUtf8);
    }
    if data.len() < p + 28 {
        return Err(DecodedCacheError::Truncated);
    }
    let cached_size = match read_u64_at(data, p) { Some(v) => v, None => return Err(DecodedCacheError::Truncated) };
    let cached_secs = match read_u64_at(data, p + 8) { Some(v) => v, None => return Err(DecodedCacheError::Truncated) };
    let cached_nanos = match read_u32_at(data, p + 16) { Some(v) => v, None => return Err(DecodedCacheError::Truncated) };
    let cached_hash = match read_u64_at(data, p + 20) { Some(v) => v, None => return Err(DecodedCacheError::Truncated) };
    let same_key = key.len() == path_len as usize && bytes_equal_at(data, 24, key);
    proof {
        if key@.len() == path_len as int {
            assert(same_key == (data@.subrange(24, p as int) == key@));
        } else {
            assert(data@.subrange(24, p as int).len() != key@.len());
        }
    }
    if !same_key || cached_size != fingerprint.file_size {
        return Ok(None);
    }
    if cached_secs != fingerprint.modified_secs || cached_nanos != fingerprint.modified_nanos {
        match source_hash {
            None => return Err(DecodedCacheError::SourceHashFailed),
            Some(h) => {
                if h != cached_hash {
                    return Ok(None);
                }
            },
        }
    }
    if data.len() < p + 44 {
        return Err(DecodedCacheError::Truncated);
    }
    let q = p + 28;
    let width = match read_u32_at(data, q) { Some(v) => v, None => return Err(DecodedCacheError::Truncated) };
    let height = match read_u32_at(data, q + 4) { Some(v) => v, None => return Err(DecodedCacheError::Truncated) };
    let stored = match read_u64_at(data, q + 8) { Some(v) => v, None => return Err(DecodedCacheError::Truncated) };
    if stored > usize::MAX as u64 {
        return Err(DecodedCacheError::BufferExceedsUsize);
    }
    let n = match pixel_len(width, height) {
        Ok(n) => n,
        Err(e) => return Err(e),
    };
    if stored != n as u64 {
        return Err(DecodedCacheError::PixelLengthMismatch { expected: n as u64, got: stored });
    }
    if data.len() - (q + 16) < n {
        return Err(DecodedCacheError::Truncated);
    }
    let pixels = vstd::slice::slice_to_vec(vstd::slice::slice_subrange(data, q + 16, q + 16 + n));
    Ok(Some(CachedImage { pixels, width, height }))
}

/// The bytes of a cache file.
pub open spec fn decoded_cache_bytes(
    key: Seq<u8>,
    file_size: u64,
    secs: u64,
    nanos: u32,
    content_hash: u64,
    width: u32,
    height: u32,
    pixels: Seq<u8>,
) -> Seq<u8> {
    decode_cache_magic() + le32(DECODE_CACHE_SCHEMA_VERSION) + le64(DECODE_CACHE_CONTRACT_VERSION) + le32(
        key.len() as u32,
    ) + key + le64(file_size) + le64(secs) + le32(nanos) + le64(content_hash) + le32(width) + le32(
        height,
    ) + le64(pixels.len() as u64) + pixels
}

/// Serializes a cache file for the source `fingerprint` whose content hash
/// is `content_hash`. Pixels that do not fill `width` x `height` exactly are
/// refused.
pub fn encode_decoded_cache(
    fingerprint: &SourceFingerprint,
    content_hash: u64,
    width: u32,
    height: u32,
    pixels: &[u8],
) -> (r: Result<Vec<u8>, DecodedCacheError>)
    ensures
        match rgba_len(width, height) {
            Err(e) => r == Err::<Vec<u8>, DecodedCacheError>(e),
            Ok(n) => if pixels@.len() != n {
                r == Err::<Vec<u8>, DecodedCacheError>(
                    DecodedCacheError::PixelLengthMismatch { expected: n as u64, got: pixels@.len() as u64 },
                )
            } else if encode_utf8(fingerprint.path_key@).len() > u32::MAX {
                r == Err::<Vec<u8>, DecodedCacheError>(DecodedCacheError::PathKeyExceedsU32)
            } else {
                r matches Ok(v) && v@ == decoded_cache_bytes(
                    encode_utf8(fingerprint.path_key@),
                    fingerprint.file_size,
                    fingerprint.modified_secs,
                    fingerprint.modified_nanos,
                    content_hash,
                    width,
                    height,
                    pixels@,
                )
            },
        },
{
    let n = match pixel_len(width, height) {
        Ok(n) => n,
        Err(e) => return Err(e),
    };
    if pixels.len() != n {
        return Err(DecodedCacheError::PixelLengthMismatch { expected: n as u64, got: pixels.len() as u64 });
    }
    let key = fingerprint.path_key.as_str().as_bytes();
    if key.len() > 0xFFFF_FFFF {
        return Err(DecodedCacheError::PathKeyExceedsU32);
    }
    let mut out = decode_cache_magic_bytes();
    push_u32(&mut out, DECODE_CACHE_SCHEMA_VERSION);
    push_u64(&mut out, DECODE_CACHE_CONTRACT_VERSION);
    push_u32(&mut out, key.len() as u32);
    push_bytes(&mut out, key);
    push_u64(&mut out, fingerprint.file_size);
    push_u64(&mut out, fingerprint.modified_secs);
    push_u32(&mut out, fingerprint.modified_nanos);
    push_u64(&mut out, content_hash);
    push_u32(&mut out, width);
    push_u32(&mut out, height);
    push_u64(&mut out, pixels.len() as u64);
    push_bytes(&mut out, pixels);
    Ok(out)
}

/// A prune runs after the writes whose count is a multiple of the interval.
pub fn should_prune_after_write(writes_since_prune: u64) -> (r: bool)
    ensures
        r == (writes_since_prune % DECODE_CACHE_PRUNE_WRITE_INTERVAL == 0),
{
    writes_since_prune % DECODE_CACHE_PRUNE_WRITE_INTERVAL == 0
}

proof fn lemma_decoded_cache_layout(
    key: Seq<char>,
    file_size: u64,
    secs: u64,
    nanos: u32,
    content_hash: u64,
    width: u32,
    height: u32,
    pixels: Seq<u8>,
)
    requires
        encode_utf8(key).len() <= DECODE_CACHE_MAX_PATH_KEY_BYTES,
        pixels.len() <= u64::MAX,
    ensures
        ({
            let k = encode_utf8(key);
            let data = decoded_cache_bytes(k, file_size, secs, nanos, content_hash, width, height, pixels);
            let p: int = 24 + k.len() as int;
            &&& data.len() == p + 44 + pixels.len()
            &&& data.subrange(0, 8) == decode_cache_magic()
            &&& u32_at(data, 8) == DECODE_CACHE_SCHEMA_VERSION
            &&& u64_at(data, 12) == DECODE_CACHE_CONTRACT_VERSION
            &&& u32_at(data, 20) == k.len()
            &&& data.subrange(24, p) == k
            &&& valid_utf8(k)
            &&& u64_at(data, p) == file_size
            &&& u64_at(data, p + 8) == secs
            &&& u32_at(data, p + 16) == nanos
            &&& u64_at(data, p + 20) == content_hash
            &&& u32_at(data, p + 28) == width
            &&& u32_at(data, p + 32) == height
            &&& u64_at(data, p + 36) == pixels.len()
            &&& data.subrange(p + 44, data.len() as int) == pixels
        }),
{
    lemma_le_round_trip();
    vstd::utf8::encode_utf8_valid_utf8(key);
    let k = encode_utf8(key);
    let data = decoded_cache_bytes(k, file_size, secs, nanos, content_hash, width, height, pixels);
    let p: int = 24 + k.len() as int;
    assert(data.subrange(0, 8) =~= decode_cache_magic());
    assert(data.subrange(8, 12) =~= le32(DECODE_CACHE_SCHEMA_VERSION));
    assert(data.subrange(12, 20) =~= le64(DECODE_CACHE_CONTRACT_VERSION));
    assert(data.subrange(20, 24) =~= le32(k.len() as u32));
    assert(data.subrange(24, p) =~= k);
    assert(data.subrange(p, p + 8) =~= le64(file_size));
    assert(data.subrange(p + 8, p + 16) =~= le64(secs));
    assert(data.subrange(p + 16, p + 20) =~= le32(nanos));
    assert(data.subrange(p + 20, p + 28) =~= le64(content_hash));
    assert(data.subrange(p + 28, p + 32) =~= le32(width));
    assert(data.subrange(p + 32, p + 36) =~= le32(height));
    assert(data.subrange(p + 36, p + 44) =~= le64(pixels.len() as u64));
    assert(data.subrange(p + 44, data.len() as int) =~= pixels);
}

/// A cache file written for a source reads back, for that same source
/// version, as the written pixels. (Path keys longer than the reader's
/// limit are written but never read back.)
pub proof fn law_decoded_cache_round_trip(
    key: Seq<char>,
    file_size: u64,
    secs: u64,
    nanos: u32,
    content_hash: u64,
    width: u32,
    height: u32,
    pixels: Seq<u8>,
    source_hash: Option<u64>,
)
    requires
        encode_utf8(key).len() <= DECODE_CACHE_MAX_PATH_KEY_BYTES,
        rgba_len(width, height) is Ok,
        pixels.len() == width * height * 4,
    ensures
        ({
            let k = encode_utf8(key);
            let data = decoded_cache_bytes(k, file_size, secs, nanos, content_hash, width, height, pixels);
            &&& check_decoded_cache(data, k, file_size, secs, nanos, source_hash)
                == Ok::<Option<(u32, u32, int)>, DecodedCacheError>(Some((width, height, 68 + k.len() as int)))
            &&& data.subrange(68 + k.len() as int, 68 + k.len() + width * height * 4) == pixels
        }),
{
    lemma_decoded_cache_layout(key, file_size, secs, nanos, content_hash, width, height, pixels);
    let k = encode_utf8(key);
    let data = decoded_cache_bytes(k, file_size, secs, nanos, content_hash, width, height, pixels);
    assert(data.subrange(68 + k.len() as int, 68 + k.len() + width * height * 4) =~= data.subrange(
        24 + k.len() as int + 44,
        data.len() as int,
    ));
}

/// A source whose modification time changed is still served from the
/// cache exactly when its content hash is the recorded one; a source whose
/// size or path changed never is.
pub proof fn law_decoded_cache_follows_content(
    key: Seq<char>,
    file_size: u64,
    secs: u64,
    nanos: u32,
    content_hash: u64,
    width: u32,
    height: u32,
    pixels: Seq<u8>,
    other_key: Seq<char>,
    now_size: u64,
    now_secs: u64,
    now_nanos: u32,
    now_hash: u64,
)
    requires
        encode_utf8(key).len() <= DECODE_CACHE_MAX_PATH_KEY_BYTES,
        rgba_len(width, height) is Ok,
        pixels.len() == width * height * 4,
    ensures
        ({
            let k = encode_utf8(key);
            let data = decoded_cache_bytes(k, file_size, secs, nanos, content_hash, width, height, pixels);
            &&& (now_secs != secs || now_nanos != nanos) ==> (check_decoded_cache(
                data,
                k,
                file_size,
                now_secs,
                now_nanos,
                Some(now_hash),
            ) matches Ok(Some(_)) <==> now_hash == content_hash)
            &&& now_size != file_size ==> check_decoded_cache(
                data,
                k,
                now_size,
                now_secs,
                now_nanos,
                Some(now_hash),
            ) == Ok::<Option<(u32, u32, int)>, DecodedCacheError>(None)
            &&& encode_utf8(other_key) != k ==> check_decoded_cache(
                data,
                encode_utf8(other_key),
                file_size,
                now_secs,
                now_nanos,
                Some(now_hash),
            ) == Ok::<Option<(u32, u32, int)>, DecodedCacheError>(None)
        }),
{
    lemma_decoded_cache_layout(key, file_size, secs, nanos, content_hash, width, height, pixels);
}

/// A file found in the cache directory by a prune: its path, length and
/// modification time as (seconds, nanoseconds) from the Unix epoch, the
/// seconds negative before it.
#[derive(Debug, Clone)]
pub struct CacheFileEntry {
    pub path: String,
    pub len: u64,
    pub modified_secs: i64,
    pub modified_nanos: u32,
}

pub struct CacheFileEntryView {
    pub path: Seq<char>,
    pub len: u64,
    pub modified: (i64, u32),
}

impl View for CacheFileEntry {
    type V = CacheFileEntryView;

    open spec fn view(&self) -> CacheFileEntryView {
        CacheFileEntryView { path: self.path@, len: self.len, modified: (self.modified_secs, self.modified_nanos) }
    }
}

pub open spec fn entry_views(s: Seq<CacheFileEntry>) -> Seq<CacheFileEntryView> {
    s.map_values(|e: CacheFileEntry| e@)
}

/// `a` was modified no later than `b`.
pub open spec fn modified_no_later(a: (i64, u32), b: (i64, u32)) -> bool {
    a.0 < b.0 || (a.0 == b.0 && a.1 <= b.1)
}

pub open spec fn oldest_first(s: Seq<CacheFileEntryView>) -> bool {
    forall|i: int, j: int| 0 <= i < j < s.len() ==> modified_no_later(#[trigger] s[i].modified, #[trigger] s[j].modified)
}

/// The files a prune looks at: those whose extension is exactly "rgba".
pub open spec fn cache_files(s: Seq<CacheFileEntryView>) -> Seq<CacheFileEntryView> {
    s.filter(|e: CacheFileEntryView| extension(e.path) == Some("rgba"@))
}

/// `s` with `x` placed after every entry modified no later than `x`.
pub open spec fn insert_by_time(s: Seq<CacheFileEntryView>, x: CacheFileEntryView) -> Seq<CacheFileEntryView>
    decreases s.len(),
{
    if s.len() == 0 {
        seq![x]
    } else if modified_no_later(s.last().modified, x.modified) {
        s.push(x)
    } else {
        insert_by_time(s.drop_last(), x).push(s.last())
    }
}

/// The entries ordered by modification time, entries modified at the same
/// instant kept in their order (the stable sort by time).
pub open spec fn sorted_by_time(s: Seq<CacheFileEntryView>) -> Seq<CacheFileEntryView>
    decreases s.len(),
{
    if s.len() == 0 {
        Seq::empty()
    } else {
        insert_by_time(sorted_by_time(s.drop_last()), s.last())
    }
}

proof fn lemma_insert_by_time_at(s: Seq<CacheFileEntryView>, x: CacheFileEntryView, j: int)
    requires
        0 <= j <= s.len(),
        forall|k: int| j <= k < s.len() ==> !modified_no_later(#[trigger] s[k].modified, x.modified),
        j == 0 || modified_no_later(s[j - 1].modified, x.modified),
    ensures
        insert_by_time(s, x) == s.insert(j, x),
    decreases s.len(),
{
    if s.len() == 0 {
        assert(s.insert(0, x) =~= seq![x]);
    } else if j == s.len() {
        assert(s.insert(j, x) =~= s.push(x));
    } else {
        let d = s.drop_last();
        assert(!modified_no_later(s[s.len() - 1].modified, x.modified));
        assert forall|k: int| j <= k < d.len() implies !modified_no_later(#[trigger] d[k].modified, x.modified) by {
            assert(d[k] == s[k]);
        }
        if j > 0 {
            assert(d[j - 1] == s[j - 1]);
        }
        lemma_insert_by_time_at(d, x, j);
        assert(d.insert(j, x).push(s.last()) =~= s.insert(j, x));
    }
}

pub open spec fn saturating_add(a: u64, b: u64) -> u64 {
    if a + b > u64::MAX { u64::MAX } else { (a + b) as u64 }
}

pub open spec fn saturating_sub(a: u64, b: u64) -> u64 {
    if a < b { 0 } else { (a - b) as u64 }
}

/// Total length of the files, saturating at `u64::MAX`.
pub open spec fn total_len(s: Seq<CacheFileEntryView>) -> u64
    decreases s.len(),
{
    if s.len() == 0 {
        0
    } else {
        saturating_add(total_len(s.drop_last()), s.last().len)
    }
}

/// The files removed from `s` (oldest first), starting at `i` with `total`
/// bytes held: each is removed while more than `trim` bytes are held.
pub open spec fn prune_victims(s: Seq<CacheFileEntryView>, i: int, total: u64, trim: u64) -> Seq<Seq<char>>
    decreases s.len() - i,
{
    if i < 0 || i >= s.len() || total <= trim {
        Seq::empty()
    } else {
        seq![s[i].path] + prune_victims(s, i + 1, saturating_sub(total, s[i].len), trim)
    }
}

proof fn lemma_insert_by_time_members(s: Seq<CacheFileEntryView>, x: CacheFileEntryView)
    ensures
        forall|j: int| 0 <= j < insert_by_time(s, x).len() ==> #[trigger] insert_by_time(s, x)[j] == x || s.contains(
            insert_by_time(s, x)[j],
        ),
    decreases s.len(),
{
    if s.len() > 0 && !modified_no_later(s.last().modified, x.modified) {
        let d = s.drop_last();
        lemma_insert_by_time_members(d, x);
        let r = insert_by_time(s, x);
        assert forall|j: int| 0 <= j < r.len() implies #[trigger] r[j] == x || s.contains(r[j]) by {
            if j < r.len() - 1 {
                let rj = insert_by_time(d, x)[j];
                assert(r[j] == rj);
                if rj != x {
                    let k = choose|k: int| 0 <= k < d.len() && d[k] == rj;
                    assert(s[k] == rj);
                }
            } else {
                assert(s[s.len() - 1] == r[j]);
            }
        }
    } else if s.len() > 0 {
        let r = insert_by_time(s, x);
        assert forall|j: int| 0 <= j < r.len() implies #[trigger] r[j] == x || s.contains(r[j]) by {
            if j < s.len() {
                assert(s[j] == r[j]);
            }
        }
    }
}

proof fn lemma_sorted_by_time_members(s: Seq<CacheFileEntryView>)
    ensures
        forall|j: int| 0 <= j < sorted_by_time(s).len() ==> s.contains(#[trigger] sorted_by_time(s)[j]),
    decreases s.len(),
{
    if s.len() > 0 {
        let d = s.drop_last();
        lemma_sorted_by_time_members(d);
        lemma_insert_by_time_members(sorted_by_time(d), s.last());
        let r = sorted_by_time(s);
        assert forall|j: int| 0 <= j < r.len() implies s.contains(#[trigger] r[j]) by {
            if r[j] == s.last() {
                assert(s[s.len() - 1] == r[j]);
            } else {
                assert(sorted_by_time(d).contains(r[j]));
                let k = choose|k: int| 0 <= k < sorted_by_time(d).len() && sorted_by_time(d)[k] == r[j];
                assert(d.contains(sorted_by_time(d)[k]));
                let m = choose|m: int| 0 <= m < d.len() && d[m] == r[j];
                assert(s[m] == r[j]);
            }
        }
    }
}

proof fn lemma_prune_victims_members(s: Seq<CacheFileEntryView>, i: int, total: u64, trim: u64)
    requires
        0 <= i,
    ensures
        forall|j: int| 0 <= j < prune_victims(s, i, total, trim).len() ==> exists|k: int|
            0 <= k < s.len() && #[trigger] prune_victims(s, i, total, trim)[j] == s[k].path,
    decreases s.len() - i,
{
    if !(i < 0 || i >= s.len() || total <= trim) {
        lemma_prune_victims_members(s, i + 1, saturating_sub(total, s[i].len), trim);
        let rest = prune_victims(s, i + 1, saturating_sub(total, s[i].len), trim);
        let r = prune_victims(s, i, total, trim);
        assert forall|j: int| 0 <= j < r.len() implies exists|k: int| 0 <= k < s.len() && #[trigger] r[j] == s[k].path by {
            if j == 0 {
                assert(r[0] == s[i].path);
            } else {
                assert(r[j] == rest[j - 1]);
            }
        }
    }
}

/// A prune removes only cache files: every victim it plans is a path with
/// the "rgba" extension, whatever else the directory holds.
pub proof fn law_prune_removes_only_cache_files(entries: Seq<CacheFileEntryView>, total: u64, trim: u64)
    ensures
        forall|j: int| 0 <= j < prune_victims(sorted_by_time(cache_files(entries)), 0, total, trim).len()
            ==> extension(#[trigger] prune_victims(sorted_by_time(cache_files(entries)), 0, total, trim)[j])
            == Some("rgba"@),
{
    let files = cache_files(entries);
    let sorted = sorted_by_time(files);
    let v = prune_victims(sorted, 0, total, trim);
    lemma_prune_victims_members(sorted, 0, total, trim);
    lemma_sorted_by_time_members(files);
    assert forall|j: int| 0 <= j < v.len() implies extension(#[trigger] v[j]) == Some("rgba"@) by {
        let k = choose|k: int| 0 <= k < sorted.len() && v[j] == sorted[k].path;
        assert(files.contains(sorted[k]));
        let m = choose|m: int| 0 <= m < files.len() && files[m] == sorted[k];
        entries.lemma_filter_pred(|e: CacheFileEntryView| extension(e.path) == Some("rgba"@), m);
    }
}

/// Why a prune could not run.
#[derive(Debug, Clone, Copy, PartialEq, Eq, Structural)]
pub enum PruneError {
    TrimTargetExceedsBudget { trim_target: u64, max_bytes: u64 },
}

fn is_rgba_file(path: &str) -> (r: bool)
    ensures
        r == (extension(path@) == Some("rgba"@)),
{
    let p = crate::text::chars_of(path);
    match extension_of(&p) {
        Some(e) => {
            let rgba = crate::text::chars_of("rgba");
            chars_equal(&e, &rgba)
        },
        None => false,
    }
}

/// The cache files of a directory listing, oldest first.
pub fn cache_files_oldest_first(entries: &Vec<CacheFileEntry>) -> (r: Vec<CacheFileEntry>)
    ensures
        entry_views(r@) == sorted_by_time(cache_files(entry_views(entries@))),
        entry_views(r@).to_multiset() == cache_files(entry_views(entries@)).to_multiset(),
        oldest_first(entry_views(r@)),
{
    broadcast use vstd::seq_lib::group_to_multiset_ensures;

    let mut out: Vec<CacheFileEntry> = Vec::new();
    let ghost src = entry_views(entries@);
    for i in 0..entries.len()
        invariant
            src == entry_views(entries@),
            entry_views(out@).to_multiset() == cache_files(src.subrange(0, i as int)).to_multiset(),
            entry_views(out@) == sorted_by_time(cache_files(src.subrange(0, i as int))),
            oldest_first(entry_views(out@)),
    {
        proof {
            reveal_with_fuel(Seq::filter, 1);
            assert(src.subrange(0, i + 1).drop_last() =~= src.subrange(0, i as int));
        }
        if is_rgba_file(entries[i].path.as_str()) {
            let e = CacheFileEntry {
                path: entries[i].path.clone(),
                len: entries[i].len,
                modified_secs: entries[i].modified_secs,
                modified_nanos: entries[i].modified_nanos,
            };
            assert(e@ == src[i as int]);
            let mut j: usize = out.len();
            while j > 0 && !modified_no_later_exec(&out[j - 1], &e)
                invariant
                    0 <= j <= out.len(),
                    oldest_first(entry_views(out@)),
                    forall|k: int| j <= k < out.len() ==> !modified_no_later(out@[k]@.modified, e@.modified),
                decreases j,
            {
                j = j - 1;
            }
            let ghost before = out@;
            let ghost ev = e@;
            proof {
                assert(j > 0 ==> modified_no_later(before[j - 1]@.modified, ev.modified));
                let bv = entry_views(before);
                assert forall|k: int| j <= k < bv.len() implies !modified_no_later(#[trigger] bv[k].modified, ev.modified) by {
                    assert(bv[k] == before[k]@);
                }
                if j > 0 {
                    assert(bv[j - 1] == before[j - 1]@);
                }
                lemma_insert_by_time_at(bv, ev, j as int);
                let f = cache_files(src.subrange(0, i as int));
                assert(cache_files(src.subrange(0, i + 1)) == f.push(ev)) by {
                    assert(src.subrange(0, i + 1).last() == ev);
                }
                assert(f.push(ev).drop_last() =~= f);
            }
            out.insert(j, e);
            proof {
                assert(entry_views(out@) =~= entry_views(before).insert(j as int, ev));
                let nv = entry_views(out@);
                let bv = entry_views(before);
                assert forall|a: int, b: int| 0 <= a < b < nv.len() implies modified_no_later(
                    #[trigger] nv[a].modified,
                    #[trigger] nv[b].modified,
                ) by {
                    if b < j {
                        assert(nv[a] == bv[a] && nv[b] == bv[b]);
                    } else if a > j {
                        assert(nv[a] == bv[a - 1] && nv[b] == bv[b - 1]);
                    } else if a == j {
                        assert(nv[b] == bv[b - 1]);
                        assert(!modified_no_later(before[b - 1]@.modified, ev.modified));
                    } else if b == j {
                        assert(nv[a] == bv[a]);
                        if a < j - 1 {
                            assert(modified_no_later(bv[a].modified, bv[j - 1].modified));
                        }
                    } else {
                        assert(nv[a] == bv[a] && nv[b] == bv[b - 1]);
                        assert(modified_no_later(bv[a].modified, bv[b - 1].modified));
                    }
                }
                assert(src.subrange(0, i + 1).last() == ev);
                assert(cache_files(src.subrange(0, i + 1)) == cache_files(src.subrange(0, i as int)).push(ev));
                vstd::seq_lib::to_multiset_insert(entry_views(before), j as int, ev);
                vstd::seq_lib::to_multiset_build(cache_files(src.subrange(0, i as int)), ev);
            }
        } else {
            proof {
                assert(src.subrange(0, i + 1).last() == entries@[i as int]@);
                assert(cache_files(src.subrange(0, i + 1)) == cache_files(src.subrange(0, i as int)));
            }
        }
    }
    assert(src.subrange(0, entries@.len() as int) =~= src);
    out
}

fn modified_no_later_exec(a: &CacheFileEntry, b: &CacheFileEntry) -> (r: bool)
    ensures
        r == modified_no_later(a@.modified, b@.modified),
{
    a.modified_secs < b.modified_secs || (a.modified_secs == b.modified_secs && a.modified_nanos <= b.modified_nanos)
}

/// Total length of the cache files of a directory listing.
pub fn cache_files_total(entries: &Vec<CacheFileEntry>) -> (total: u64)
    ensures
        total == total_len(cache_files(entry_views(entries@))),
{
    let ghost src = entry_views(entries@);
    let mut total: u64 = 0;
    for i in 0..entries.len()
        invariant
            src == entry_views(entries@),
            total == total_len(cache_files(src.subrange(0, i as int))),
    {
        proof {
            reveal_with_fuel(Seq::filter, 1);
            assert(src.subrange(0, i + 1).drop_last() =~= src.subrange(0, i as int));
            assert(src.subrange(0, i + 1).last() == entries@[i as int]@);
        }
        if is_rgba_file(entries[i].path.as_str()) {
            let ghost f = cache_files(src.subrange(0, i as int));
            assert(cache_files(src.subrange(0, i + 1)) == f.push(entries@[i as int]@));
            assert(f.push(entries@[i as int]@).drop_last() =~= f);
            total = total.saturating_add(entries[i].len);
        } else {
            assert(cache_files(src.subrange(0, i + 1)) == cache_files(src.subrange(0, i as int)));
        }
    }
    assert(src.subrange(0, entries@.len() as int) =~= src);
    total
}

/// The files a prune removes from `sorted` (oldest first) when `total`
/// bytes are held.
pub fn prune_victims_oldest_first(sorted: &Vec<CacheFileEntry>, total: u64, trim_target_bytes: u64) -> (victims: Vec<String>)
    ensures
        victims@.map_values(|p: String| p@) == prune_victims(entry_views(sorted@), 0, total, trim_target_bytes),
{
    let ghost s = entry_views(sorted@);
    let mut victims: Vec<String> = Vec::new();
    let mut held = total;
    let mut i: usize = 0;
    while i < sorted.len()
        invariant
            s == entry_views(sorted@),
            0 <= i <= sorted.len(),
            victims@.map_values(|p: String| p@) + prune_victims(s, i as int, held, trim_target_bytes)
                == prune_victims(s, 0, total, trim_target_bytes),
        ensures
            0 <= i <= sorted.len(),
            victims@.map_values(|p: String| p@) + prune_victims(s, i as int, held, trim_target_bytes)
                == prune_victims(s, 0, total, trim_target_bytes),
            i >= sorted.len() || held <= trim_target_bytes,
        decreases sorted.len() - i,
    {
        if held <= trim_target_bytes {
            break;
        }
        let ghost before = victims@;
        victims.push(sorted[i].path.clone());
        assert(victims@.map_values(|p: String| p@) =~= before.map_values(|p: String| p@).push(s[i as int].path));
        assert(prune_victims(s, i as int, held, trim_target_bytes) == seq![s[i as int].path] + prune_victims(
            s,
            i + 1,
            saturating_sub(held, s[i as int].len),
            trim_target_bytes,
        ));
        held = held.saturating_sub(sorted[i].len);
        i = i + 1;
        assert(victims@.map_values(|p: String| p@) + prune_victims(s, i as int, held, trim_target_bytes) =~= before.map_values(
            |p: String| p@,
        ) + (seq![s[i - 1].path] + prune_victims(s, i as int, held, trim_target_bytes)));
    }
    assert(prune_victims(s, i as int, held, trim_target_bytes) =~= Seq::<Seq<char>>::empty());
    victims
}

/// What a prune removes from a cache directory listing: nothing while the
/// cache files hold no more than `max_bytes`, else the oldest files until no
/// more than `trim_target_bytes` are held.
pub fn prune_decoded_cache_plan(entries: &Vec<CacheFileEntry>, max_bytes: u64, trim_target_bytes: u64) -> (r: Result<Vec<String>, PruneError>)
    ensures
        trim_target_bytes > max_bytes ==> r == Err::<Vec<String>, PruneError>(
            PruneError::TrimTargetExceedsBudget { trim_target: trim_target_bytes, max_bytes: max_bytes },
        ),
        trim_target_bytes <= max_bytes ==> (r matches Ok(victims) && victims@.map_values(|p: String| p@) == (
        if total_len(cache_files(entry_views(entries@))) <= max_bytes {
            Seq::<Seq<char>>::empty()
        } else {
            prune_victims(
                sorted_by_time(cache_files(entry_views(entries@))),
                0,
                total_len(cache_files(entry_views(entries@))),
                trim_target_bytes,
            )
        })),
{
    if trim_target_bytes > max_bytes {
        return Err(PruneError::TrimTargetExceedsBudget { trim_target: trim_target_bytes, max_bytes });
    }
    let total = cache_files_total(entries);
    let sorted = cache_files_oldest_first(entries);
    if total <= max_bytes {
        let none: Vec<String> = Vec::new();
        assert(none@.map_values(|p: String| p@) =~= Seq::<Seq<char>>::empty());
        assert(entry_views(sorted@).to_multiset() == cache_files(entry_views(entries@)).to_multiset());
        return Ok(none);
    }
    let victims = prune_victims_oldest_first(&sorted, total, trim_target_bytes);
    assert(entry_views(sorted@).to_multiset() == cache_files(entry_views(entries@)).to_multiset());
    Ok(victims)
}

/// Name for the hash that `std::collections::hash_map::DefaultHasher::new()`
/// gives after hashing the string `s`.
pub uninterp spec fn default_str_hash(s: Seq<char>) -> u64;

/// Wraps hashing a `str` with a fresh `DefaultHasher` (`new`, `Hash::hash`,
/// `Hasher::finish`). Trusted: the result is the named hash of the text;
/// std documents that hashers made by `DefaultHasher::new` all start alike.
#[verifier::external_body]
pub(crate) fn path_key_hash(path_key: &str) -> (h: u64)
    ensures
        h == default_str_hash(path_key@),
{
    let mut hasher = std::collections::hash_map::DefaultHasher::new();
    std::hash::Hash::hash(path_key, &mut hasher);
    std::hash::Hasher::finish(&hasher)
}

/// `<cache_dir>/<16 hex digits of the path key's hash>.rgba`.
pub fn decoded_cache_file_path(cache_dir: &str, path_key: &str) -> (r: String)
    ensures
        r@ == join(cache_dir@, hex_fixed(default_str_hash(path_key@) as nat, 16) + ".rgba"@),
{
    let h = path_key_hash(path_key);
    let mut name: Vec<char> = Vec::new();
    push_hex_fixed(&mut name, h, 16);
    let suffix = crate::text::chars_of(".rgba");
    crate::text::extend_chars(&mut name, &suffix);
    let name_text = string_of(&name);
    join_path(cache_dir, name_text.as_str())
}

/// The three images a RAW file may embed.
#[derive(Debug, Clone, Copy, PartialEq, Eq, Structural)]
pub enum EmbeddedImageKind {
    Thumbnail,
    Preview,
    FullImage,
}

impl EmbeddedImageKind {
    /// The name used in error messages.
    pub fn label(self) -> (s: &'static str)
        ensures
            self == EmbeddedImageKind::Thumbnail ==> s@ == "thumbnail"@,
            self == EmbeddedImageKind::Preview ==> s@ == "preview"@,
            self == EmbeddedImageKind::FullImage ==> s@ == "full image"@,
    {
        match self {
            EmbeddedImageKind::Thumbnail => "thumbnail",
            EmbeddedImageKind::Preview => "preview",
            EmbeddedImageKind::FullImage => "full image",
        }
    }
}

/// One way of getting pixels out of a RAW file.
#[derive(Debug, Clone, Copy, PartialEq, Eq, Structural)]
pub enum RawDecodeStep {
    Embedded(EmbeddedImageKind),
    /// Develop the sensor data.
    RawPixels,
}

/// The ways tried, in order, to decode a RAW file: for a thumbnail the
/// embedded images from the smallest up, then the sensor data; for a full
/// image the sensor data, then the embedded images from the largest down.
pub open spec fn raw_decode_order(prefer_thumbnail: bool) -> Seq<RawDecodeStep> {
    if prefer_thumbnail {
        seq![
            RawDecodeStep::Embedded(EmbeddedImageKind::Thumbnail),
            RawDecodeStep::Embedded(EmbeddedImageKind::Preview),
            RawDecodeStep::Embedded(EmbeddedImageKind::FullImage),
            RawDecodeStep::RawPixels,
        ]
    } else {
        seq![
            RawDecodeStep::RawPixels,
            RawDecodeStep::Embedded(EmbeddedImageKind::FullImage),
            RawDecodeStep::Embedded(EmbeddedImageKind::Preview),
            RawDecodeStep::Embedded(EmbeddedImageKind::Thumbnail),
        ]
    }
}

pub fn raw_decode_plan(prefer_thumbnail: bool) -> (r: Vec<RawDecodeStep>)
    ensures
        r@ == raw_decode_order(prefer_thumbnail),
{
    let r = if prefer_thumbnail {
        vec![
            RawDecodeStep::Embedded(EmbeddedImageKind::Thumbnail),
            RawDecodeStep::Embedded(EmbeddedImageKind::Preview),
            RawDecodeStep::Embedded(EmbeddedImageKind::FullImage),
            RawDecodeStep::RawPixels,
        ]
    } else {
        vec![
            RawDecodeStep::RawPixels,
            RawDecodeStep::Embedded(EmbeddedImageKind::FullImage),
            RawDecodeStep::Embedded(EmbeddedImageKind::Preview),
            RawDecodeStep::Embedded(EmbeddedImageKind::Thumbnail),
        ]
    };
    assert(r@ =~= raw_decode_order(prefer_thumbnail));
    r
}

/// The embedded images tried, from the largest down, when only an embedded
/// preview is wanted.
pub fn embedded_preview_order() -> (r: Vec<EmbeddedImageKind>)
    ensures
        r@ == seq![EmbeddedImageKind::FullImage, EmbeddedImageKind::Preview, EmbeddedImageKind::Thumbnail],
{
    let r = vec![EmbeddedImageKind::FullImage, EmbeddedImageKind::Preview, EmbeddedImageKind::Thumbnail];
    assert(r@ =~= seq![EmbeddedImageKind::FullImage, EmbeddedImageKind::Preview, EmbeddedImageKind::Thumbnail]);
    r
}

/// The error of a failed RAW decode: the main error, followed by the last
/// error of an optional step when there was one.
pub open spec fn raw_error_text(primary: Seq<char>, optional: Option<Seq<char>>) -> Seq<char> {
    match optional {
        Some(o) => primary + " (after "@ + o + ")"@,
        None => primary,
    }
}

pub fn format_raw_decode_error(primary: &str, optional: Option<&str>) -> (r: String)
    ensures
        r@ == raw_error_text(primary@, match optional {
            Some(o) => Some(o@),
            None => None,
        }),
{
    let mut out = crate::text::chars_of(primary);
    match optional {
        Some(o) => {
            let a = crate::text::chars_of(" (after ");
            let b = crate::text::chars_of(o);
            let c = crate::text::chars_of(")");
            crate::text::extend_chars(&mut out, &a);
            crate::text::extend_chars(&mut out, &b);
            crate::text::extend_chars(&mut out, &c);
        },
        None => {},
    }
    string_of(&out)
}

/// What one decoding step gave.
#[derive(Debug, Clone, PartialEq, Eq)]
pub enum StepOutcome {
    /// Pixels: the decode is done.
    Decoded,
    /// The file holds no such image.
    Absent,
    /// The step failed with this error.
    Failed(String),
}

/// The position of the first step that decoded, if any.
pub open spec fn decoded_index(o: Seq<StepOutcome>) -> Option<int>
    decreases o.len(),
{
    if o.len() == 0 {
        None
    } else {
        match decoded_index(o.drop_last()) {
            Some(i) => Some(i),
            None => if o.last() is Decoded { Some(o.len() - 1) } else { None },
        }
    }
}

/// The error of the last failed step (among the first `o.len()` steps of
/// `plan`) that `is_raw` selects: the sensor-data step, or the embedded
/// images.
pub open spec fn last_failure(o: Seq<StepOutcome>, plan: Seq<RawDecodeStep>, is_raw: bool) -> Option<Seq<char>>
    decreases o.len(),
{
    if o.len() == 0 {
        None
    } else {
        let step = plan[o.len() - 1];
        match o.last() {
            StepOutcome::Failed(e) => if (step is RawPixels) == is_raw {
                Some(e@)
            } else {
                last_failure(o.drop_last(), plan, is_raw)
            },
            _ => last_failure(o.drop_last(), plan, is_raw),
        }
    }
}

/// How a RAW decode ends once its steps ran in plan order (stopping at the
/// first that decoded): that step's position, or the sensor-data error
/// followed by the last embedded-image error.
pub open spec fn raw_verdict(prefer_thumbnail: bool, o: Seq<StepOutcome>) -> Result<int, Seq<char>> {
    match decoded_index(o) {
        Some(i) => Ok(i),
        None => Err(raw_error_text(
            match last_failure(o, raw_decode_order(prefer_thumbnail), true) {
                Some(e) => e,
                None => Seq::empty(),
            },
            last_failure(o, raw_decode_order(prefer_thumbnail), false),
        )),
    }
}

/// The end of a RAW decode, from what its steps gave in the order of
/// `raw_decode_plan(prefer_thumbnail)`. The steps run until one decodes,
/// so without a decoded image every step has run, the sensor-data step
/// (which never answers `Absent`) among them.
pub fn raw_decode_verdict(prefer_thumbnail: bool, outcomes: &Vec<StepOutcome>) -> (r: Result<usize, String>)
    requires
        outcomes@.len() <= 4,
        decoded_index(outcomes@) is None ==> outcomes@.len() == 4,
    ensures
        match (r, raw_verdict(prefer_thumbnail, outcomes@)) {
            (Ok(i), Ok(j)) => i == j,
            (Err(e), Err(f)) => e@ == f,
            _ => false,
        },
{
    let plan = raw_decode_plan(prefer_thumbnail);
    let ghost order = raw_decode_order(prefer_thumbnail);
    let mut raw_error: Option<String> = None;
    let mut optional: Option<String> = None;
    let mut i: usize = 0;
    while i < outcomes.len()
        invariant
            i <= outcomes@.len() <= 4,
            plan@ == order,
            order == raw_decode_order(prefer_thumbnail),
            decoded_index(outcomes@.subrange(0, i as int)) is None,
            opt_texts(raw_error) == last_failure(outcomes@.subrange(0, i as int), order, true),
            opt_texts(optional) == last_failure(outcomes@.subrange(0, i as int), order, false),
        decreases outcomes.len() - i,
    {
        let ghost pre = outcomes@.subrange(0, i + 1);
        assert(pre.drop_last() == outcomes@.subrange(0, i as int));
        assert(pre.last() == outcomes@[i as int]);
        match &outcomes[i] {
            StepOutcome::Decoded => {
                assert(decoded_index(pre) == Some(i as int));
                proof { lemma_decoded_index_prefix(outcomes@, i as int + 1); }
                return Ok(i);
            },
            StepOutcome::Absent => {},
            StepOutcome::Failed(e) => {
                let is_raw = match plan[i] {
                    RawDecodeStep::RawPixels => true,
                    RawDecodeStep::Embedded(_) => false,
                };
                if is_raw {
                    raw_error = Some(clone_text(e));
                } else {
                    optional = Some(clone_text(e));
                }
            },
        }
        i = i + 1;
    }
    assert(outcomes@.subrange(0, outcomes@.len() as int) == outcomes@);
    let primary = match raw_error {
        Some(e) => e,
        None => String::new(),
    };
    match optional {
        Some(o) => Err(format_raw_decode_error(primary.as_str(), Some(o.as_str()))),
        None => Err(format_raw_decode_error(primary.as_str(), None)),
    }
}

pub open spec fn opt_texts(o: Option<String>) -> Option<Seq<char>> {
    match o {
        Some(s) => Some(s@),
        None => None,
    }
}

fn clone_text(s: &String) -> (r: String)
    ensures
        r@ == s@,
{
    string_of(&crate::text::chars_of(s.as_str()))
}

proof fn lemma_decoded_index_prefix(o: Seq<StepOutcome>, n: int)
    requires
        0 <= n <= o.len(),
        decoded_index(o.subrange(0, n)) is Some,
    ensures
        decoded_index(o) == decoded_index(o.subrange(0, n)),
    decreases o.len() - n,
{
    if n < o.len() {
        let pre = o.subrange(0, n + 1);
        assert(pre.drop_last() == o.subrange(0, n));
        lemma_decoded_index_prefix(o, n + 1);
    } else {
        assert(o.subrange(0, n) == o);
    }
}

/// How the search for an embedded preview ends, its images tried from the
/// largest down until one decodes: that image's position, none when the
/// file holds none, or the last error when one failed.
pub open spec fn preview_verdict(o: Seq<StepOutcome>) -> Result<Option<int>, Seq<char>> {
    match decoded_index(o) {
        Some(i) => Ok(Some(i)),
        None => match last_failure(o, embedded_preview_steps(), false) {
            Some(e) => Err(e),
            None => Ok(None),
        },
    }
}

pub open spec fn embedded_preview_steps() -> Seq<RawDecodeStep> {
    seq![
        RawDecodeStep::Embedded(EmbeddedImageKind::FullImage),
        RawDecodeStep::Embedded(EmbeddedImageKind::Preview),
        RawDecodeStep::Embedded(EmbeddedImageKind::Thumbnail),
    ]
}

/// The end of the search for an embedded preview, from what its steps gave
/// in the order of `embedded_preview_order()`.
pub fn embedded_preview_verdict(outcomes: &Vec<StepOutcome>) -> (r: Result<Option<usize>, String>)
    requires
        outcomes@.len() <= 3,
    ensures
        match (r, preview_verdict(outcomes@)) {
            (Ok(Some(i)), Ok(Some(j))) => i == j,
            (Ok(None), Ok(None)) => true,
            (Err(e), Err(f)) => e@ == f,
            _ => false,
        },
{
    let ghost steps = embedded_preview_steps();
    let mut last: Option<String> = None;
    let mut i: usize = 0;
    while i < outcomes.len()
        invariant
            i <= outcomes@.len() <= 3,
            steps == embedded_preview_steps(),
            decoded_index(outcomes@.subrange(0, i as int)) is None,
            opt_texts(last) == last_failure(outcomes@.subrange(0, i as int), steps, false),
        decreases outcomes.len() - i,
    {
        let ghost pre = outcomes@.subrange(0, i + 1);
        assert(pre.drop_last() == outcomes@.subrange(0, i as int));
        assert(pre.last() == outcomes@[i as int]);
        match &outcomes[i] {
            StepOutcome::Decoded => {
                assert(decoded_index(pre) == Some(i as int));
                proof { lemma_decoded_index_prefix(outcomes@, i as int + 1); }
                return Ok(Some(i));
            },
            StepOutcome::Absent => {},
            StepOutcome::Failed(e) => {
                assert(steps[i as int] is Embedded);
                last = Some(clone_text(e));
            },
        }
        i = i + 1;
    }
    assert(outcomes@.subrange(0, outcomes@.len() as int) == outcomes@);
    match last {
        Some(e) => Err(e),
        None => Ok(None),
    }
}

/// RGBA8 pixels of RGB8 samples (a trailing partial pixel is dropped):
/// each pixel keeps its three samples and gets an opaque alpha.
pub open spec fn rgb_to_rgba(raw: Seq<u8>) -> Seq<u8> {
    Seq::new((raw.len() / 3 * 4) as nat, |i: int| if i % 4 == 3 { 255u8 } else { raw[(i / 4) * 3 + i % 4] })
}

/// RGBA8 pixels of 8-bit gray samples: each sample in the three colour
/// channels, with an opaque alpha.
pub open spec fn gray_to_rgba(raw: Seq<u8>) -> Seq<u8> {
    Seq::new((raw.len() * 4) as nat, |i: int| if i % 4 == 3 { 255u8 } else { raw[i / 4] })
}

pub fn rgb24_to_rgba(raw: &[u8]) -> (out: Vec<u8>)
    ensures
        out@ == rgb_to_rgba(raw@),
{
    let len = raw.len();
    let n = len / 3;
    let mut out: Vec<u8> = Vec::new();
    for p in 0..n
        invariant
            len == raw@.len(),
            n == raw@.len() / 3,
            out@.len() == p * 4,
            forall|i: int| 0 <= i < out@.len() ==> #[trigger] out@[i] == (if i % 4 == 3 { 255u8 } else { raw@[(i / 4) * 3 + i % 4] }),
    {
        assert(p * 3 + 2 < len) by (nonlinear_arith)
            requires
                p < n,
                n == len / 3,
        ;
        let ghost before = out@;
        out.push(raw[p * 3]);
        out.push(raw[p * 3 + 1]);
        out.push(raw[p * 3 + 2]);
        out.push(255);
        assert forall|i: int| 0 <= i < out@.len() implies #[trigger] out@[i] == (if i % 4 == 3 { 255u8 } else { raw@[(i / 4) * 3 + i % 4] }) by {
            if i >= p * 4 {
                assert(i / 4 == p as int && i % 4 == i - p * 4) by (nonlinear_arith)
                    requires
                        p * 4 <= i < p * 4 + 4,
                ;
            } else {
                assert(out@[i] == before[i]);
            }
        }
    }
    assert(out@ =~= rgb_to_rgba(raw@));
    out
}

pub fn l8_to_rgba(raw: &[u8]) -> (out: Vec<u8>)
    requires
        raw@.len() * 4 <= usize::MAX,
    ensures
        out@ == gray_to_rgba(raw@),
{
    let mut out: Vec<u8> = Vec::new();
    for p in 0..raw.len()
        invariant
            out@.len() == p * 4,
            forall|i: int| 0 <= i < out@.len() ==> #[trigger] out@[i] == (if i % 4 == 3 { 255u8 } else { raw@[i / 4] }),
    {
        let ghost before = out@;
        let v = raw[p];
        out.push(v);
        out.push(v);
        out.push(v);
        out.push(255);
        assert forall|i: int| 0 <= i < out@.len() implies #[trigger] out@[i] == (if i % 4 == 3 { 255u8 } else { raw@[i / 4] }) by {
            if i >= p * 4 {
                assert(i / 4 == p as int && i % 4 == i - p * 4) by (nonlinear_arith)
                    requires
                        p * 4 <= i < p * 4 + 4,
                ;
            } else {
                assert(out@[i] == before[i]);
            }
        }
    }
    assert(out@ =~= gray_to_rgba(raw@));
    out
}

} // verus!
