//! Where an image is loaded from: a baked local edit or the original
//! source, and the logical size reported for it.

use vstd::prelude::*;
use crate::local_edits::{is_current_entry, thumbnail_dimensions, thumbnail_dimensions_for_image, persisted_thumbnail_matches_generation_and_dimensions, LocalEditVariantHeader};
use crate::session_cache::BaseImageSource;

verus! {

/// The logical size of a loaded image: for the original source, the size
/// read from the source file's header (`source_dimensions`, `None` when it
/// could not be read, then the image's own size); for a baked edit, the
/// image's own size.
pub open spec fn logical_dimensions(
    base_source: BaseImageSource,
    image_dimensions: (u32, u32),
    source_dimensions: Option<(u32, u32)>,
) -> (u32, u32) {
    match base_source {
        BaseImageSource::Original => match source_dimensions {
            Some(d) => d,
            None => image_dimensions,
        },
        BaseImageSource::PersistedLocalEdit => image_dimensions,
    }
}

pub fn loaded_image_logical_dimensions(
    base_source: BaseImageSource,
    image_dimensions: (u32, u32),
    source_dimensions: Option<(u32, u32)>,
) -> (r: (u32, u32))
    ensures
        r == logical_dimensions(base_source, image_dimensions, source_dimensions),
{
    match base_source {
        BaseImageSource::Original => match source_dimensions {
            Some(d) => d,
            None => image_dimensions,
        },
        BaseImageSource::PersistedLocalEdit => image_dimensions,
    }
}

/// What a baked edit lookup found.
#[derive(Debug, Clone, Copy, PartialEq, Eq, Structural)]
pub enum PersistedLookup {
    Found,
    Absent,
    /// The baked edit exists but could not be read; the original is used.
    Failed,
}

/// The source a full-size image is loaded from: the baked edit when it is
/// preferred and was found, else the original.
pub fn full_image_source(preferred: BaseImageSource, persisted: PersistedLookup) -> (r: BaseImageSource)
    ensures
        r == (if preferred == BaseImageSource::PersistedLocalEdit && persisted == PersistedLookup::Found {
            BaseImageSource::PersistedLocalEdit
        } else {
            BaseImageSource::Original
        }),
{
    match (preferred, persisted) {
        (BaseImageSource::PersistedLocalEdit, PersistedLookup::Found) => BaseImageSource::PersistedLocalEdit,
        _ => BaseImageSource::Original,
    }
}

/// Where a library thumbnail comes from.
#[derive(Debug, Clone, Copy, PartialEq, Eq, Structural)]
pub enum ThumbnailBaseStep {
    /// The stored baked thumbnail is current and is used.
    UseStoredThumbnail,
    /// A baked edit exists: its thumbnail is repaired (when the repair gives
    /// nothing, the original is decoded).
    RepairFromFull,
    /// No baked edit: the original is decoded at thumbnail size.
    DecodeOriginal,
}

/// The first choice for a library thumbnail, from the headers of the
/// stored thumbnail and full-size baked files and the stored thumbnail as
/// loaded (consulted only when both headers are current, so it need not be
/// loaded otherwise).
pub open spec fn thumbnail_base_step(
    thumbnail_header: Option<LocalEditVariantHeader>,
    full_header: Option<LocalEditVariantHeader>,
    thumbnail_entry: Option<LocalEditVariantHeader>,
    max_dim: u32,
) -> ThumbnailBaseStep {
    match full_header {
        None => ThumbnailBaseStep::DecodeOriginal,
        Some(f) => {
            let expected = thumbnail_dimensions(f.width, f.height, max_dim);
            if is_current_entry(thumbnail_header, f.generation_id, expected) && is_current_entry(
                thumbnail_entry,
                f.generation_id,
                expected,
            ) {
                ThumbnailBaseStep::UseStoredThumbnail
            } else {
                ThumbnailBaseStep::RepairFromFull
            }
        },
    }
}

pub fn library_thumbnail_base_step(
    thumbnail_header: Option<LocalEditVariantHeader>,
    full_header: Option<LocalEditVariantHeader>,
    thumbnail_entry: Option<LocalEditVariantHeader>,
    max_dim: u32,
) -> (r: ThumbnailBaseStep)
    ensures
        r == thumbnail_base_step(thumbnail_header, full_header, thumbnail_entry, max_dim),
{
    match full_header {
        None => ThumbnailBaseStep::DecodeOriginal,
        Some(f) => {
            let expected = thumbnail_dimensions_for_image(f.width, f.height, max_dim);
            let header_current = match thumbnail_header {
                Some(th) => persisted_thumbnail_matches_generation_and_dimensions(&th, f.generation_id, expected),
                None => false,
            };
            if header_current {
                if let Some(te) = thumbnail_entry {
                    if persisted_thumbnail_matches_generation_and_dimensions(&te, f.generation_id, expected) {
                        return ThumbnailBaseStep::UseStoredThumbnail;
                    }
                }
            }
            ThumbnailBaseStep::RepairFromFull
        },
    }
}

} // verus!
