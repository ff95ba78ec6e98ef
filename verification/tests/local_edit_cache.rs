use photo::local_edits::{
    derive_from_full, repair_attempt_runs, repair_first_step, repair_second_step, RepairOutcome, RepairStep,
};
use photo::loading::{library_thumbnail_base_step, ThumbnailBaseStep};
use photo::local_edits::{
    encode_local_edit_cache, finalize_thumbnail_repair, last_thumbnail_look,
    legacy_local_edit_logical_dimensions, local_edit_cache_pixels, thumbnail_from_rendered_image,
    thumbnail_repair_decision, validate_local_edit_cache, local_edit_cache_dir_for_repo_root,
    LOCAL_EDIT_CACHE_DIR_NAME, FinalizeLocalEditThumbnailRepair,
    LastThumbnailLook, LocalEditCacheError, LocalEditCacheVariant,
    LocalEditThumbnailRepairDecision, LocalEditVariantHeader, RenderedImage,
};

fn schema2_file(key: &str, w: u32, h: u32, pixels: &[u8]) -> Vec<u8> {
    let mut out = b"PHOEDITS".to_vec();
    out.extend_from_slice(&2u32.to_le_bytes());
    out.extend_from_slice(&9u64.to_le_bytes());
    out.extend_from_slice(&100u64.to_le_bytes());
    out.extend_from_slice(&5u64.to_le_bytes());
    out.extend_from_slice(&7u32.to_le_bytes());
    out.extend_from_slice(&(key.len() as u32).to_le_bytes());
    out.extend_from_slice(&w.to_le_bytes());
    out.extend_from_slice(&h.to_le_bytes());
    out.extend_from_slice(&(pixels.len() as u64).to_le_bytes());
    out.extend_from_slice(key.as_bytes());
    out.extend_from_slice(pixels);
    out
}

#[test]
fn written_cache_validates_and_returns_pixels() {
    let pixels = [255u8, 0, 0, 255, 0, 255, 0, 255];
    let data = encode_local_edit_cache(42, 100, 5, 7, "/photos/frame.png", 2, 1, (4, 2), &pixels).unwrap();
    assert_eq!(data.len(), 68 + "/photos/frame.png".len() + 8);
    let header = validate_local_edit_cache(&data, "/photos/frame.png", 100, 5, 7).unwrap();
    assert_eq!(header.generation_id, 42);
    assert_eq!((header.width, header.height), (2, 1));
    assert_eq!(header.logical_dimensions, Some((4, 2)));
    assert_eq!(header.source_file_size, 100);
    assert_eq!(local_edit_cache_pixels(&data, &header), pixels.to_vec());
}

#[test]
fn cache_is_refused_after_the_source_changes() {
    let pixels = [1u8, 2, 3, 4];
    let data = encode_local_edit_cache(1, 100, 5, 7, "/a.png", 1, 1, (1, 1), &pixels).unwrap();
    assert_eq!(
        validate_local_edit_cache(&data, "/a.png", 101, 5, 7).unwrap_err(),
        LocalEditCacheError::SourceMetadataMismatch
    );
    assert_eq!(
        validate_local_edit_cache(&data, "/a.png", 100, 5, 8).unwrap_err(),
        LocalEditCacheError::SourceMetadataMismatch
    );
    assert_eq!(
        validate_local_edit_cache(&data, "/b.png", 100, 5, 7).unwrap_err(),
        LocalEditCacheError::PathKeyMismatch
    );
}

#[test]
fn damaged_cache_files_are_refused() {
    let pixels = [1u8, 2, 3, 4];
    let data = encode_local_edit_cache(1, 100, 5, 7, "/a.png", 1, 1, (1, 1), &pixels).unwrap();
    assert_eq!(
        validate_local_edit_cache(&data[..4], "/a.png", 100, 5, 7).unwrap_err(),
        LocalEditCacheError::ReadHeader
    );
    let mut bad_magic = data.clone();
    bad_magic[0] = b'X';
    assert_eq!(
        validate_local_edit_cache(&bad_magic, "/a.png", 100, 5, 7).unwrap_err(),
        LocalEditCacheError::MagicMismatch
    );
    let mut bad_schema = data.clone();
    bad_schema[8] = 9;
    assert_eq!(
        validate_local_edit_cache(&bad_schema, "/a.png", 100, 5, 7).unwrap_err(),
        LocalEditCacheError::SchemaMismatch
    );
    assert_eq!(
        validate_local_edit_cache(&data[..data.len() - 1], "/a.png", 100, 5, 7).unwrap_err(),
        LocalEditCacheError::FileLengthMismatch
    );
    assert_eq!(
        validate_local_edit_cache(&data[..30], "/a.png", 100, 5, 7).unwrap_err(),
        LocalEditCacheError::ReadField
    );
    let mut zero_logical = data.clone();
    zero_logical[52..56].copy_from_slice(&0u32.to_le_bytes());
    assert_eq!(
        validate_local_edit_cache(&zero_logical, "/a.png", 100, 5, 7).unwrap_err(),
        LocalEditCacheError::InvalidLogicalDimensions
    );
    let mut bad_pixels = data.clone();
    bad_pixels[60..68].copy_from_slice(&8u64.to_le_bytes());
    assert_eq!(
        validate_local_edit_cache(&bad_pixels, "/a.png", 100, 5, 7).unwrap_err(),
        LocalEditCacheError::PixelLengthMismatch
    );
}

#[test]
fn schema_two_files_have_no_logical_size() {
    let pixels = [9u8; 8];
    let data = schema2_file("/k", 2, 1, &pixels);
    let header = validate_local_edit_cache(&data, "/k", 100, 5, 7).unwrap();
    assert_eq!(header.generation_id, 9);
    assert_eq!(header.logical_dimensions, None);
    assert_eq!(header.pixels_offset, 62);
    assert_eq!(local_edit_cache_pixels(&data, &header), pixels.to_vec());
}

#[test]
fn legacy_logical_dimensions_follow_the_source() {
    let full = LocalEditCacheVariant::Full;
    assert_eq!(legacy_local_edit_logical_dimensions(LocalEditCacheVariant::Thumbnail, (300, 200), Some((100, 50))), (300, 200));
    assert_eq!(legacy_local_edit_logical_dimensions(full, (300, 200), None), (300, 200));
    assert_eq!(legacy_local_edit_logical_dimensions(full, (200, 300), Some((300, 200))), (200, 300));
    assert_eq!(legacy_local_edit_logical_dimensions(full, (300, 200), Some((100, 50))), (100, 50));
    assert_eq!(legacy_local_edit_logical_dimensions(full, (80, 40), Some((100, 50))), (80, 40));
}

#[test]
fn small_images_are_their_own_thumbnail() {
    let image = RenderedImage { pixels: vec![7u8; 120 * 80 * 4], width: 120, height: 80 };
    let thumbnail = thumbnail_from_rendered_image(&image, 200).unwrap();
    assert_eq!(thumbnail.width, 120);
    assert_eq!(thumbnail.height, 80);
    assert_eq!(thumbnail.pixels, image.pixels);
}

#[test]
fn large_images_are_resized_to_the_bound() {
    let image = RenderedImage { pixels: vec![200u8; 400 * 100 * 4], width: 400, height: 100 };
    let thumbnail = thumbnail_from_rendered_image(&image, 200).unwrap();
    assert_eq!((thumbnail.width, thumbnail.height), (200, 50));
    assert_eq!(thumbnail.pixels.len(), 200 * 50 * 4);
    assert!(thumbnail.pixels.iter().all(|&p| p == 200));
    let short = RenderedImage { pixels: vec![0u8; 10], width: 400, height: 100 };
    assert_eq!(
        thumbnail_from_rendered_image(&short, 200).unwrap_err(),
        "Failed to build thumbnail source image"
    );
}

#[test]
fn thumbnail_repair_decisions() {
    let full = LocalEditVariantHeader { generation_id: 5, width: 400, height: 200 };
    let good = LocalEditVariantHeader { generation_id: 5, width: 200, height: 100 };
    let stale = LocalEditVariantHeader { generation_id: 4, width: 200, height: 100 };
    assert_eq!(thumbnail_repair_decision(None, Some(good), Some(good), 200), LocalEditThumbnailRepairDecision::Missing);
    assert_eq!(thumbnail_repair_decision(Some(full), Some(good), Some(good), 200), LocalEditThumbnailRepairDecision::Return);
    assert_eq!(
        thumbnail_repair_decision(Some(full), Some(stale), None, 200),
        LocalEditThumbnailRepairDecision::Derive { generation_id: 5 }
    );
    assert_eq!(finalize_thumbnail_repair(Some(full), Some(good), 5, 200), FinalizeLocalEditThumbnailRepair::ReturnExisting);
    assert_eq!(finalize_thumbnail_repair(Some(full), Some(stale), 5, 200), FinalizeLocalEditThumbnailRepair::WriteDerived);
    assert_eq!(finalize_thumbnail_repair(Some(full), None, 4, 200), FinalizeLocalEditThumbnailRepair::Retry);
    assert_eq!(finalize_thumbnail_repair(None, Some(good), 5, 200), FinalizeLocalEditThumbnailRepair::Retry);
    assert_eq!(last_thumbnail_look(Some(full), Some(stale), Some(full), 200), LastThumbnailLook::DeriveFromFull);
    assert_eq!(last_thumbnail_look(Some(full), Some(stale), Some(stale), 200), LastThumbnailLook::Nothing);
    assert_eq!(last_thumbnail_look(Some(full), Some(good), None, 200), LastThumbnailLook::ReturnThumbnail);
}

fn patterned_rgba_pixels(width: u32, height: u32) -> Vec<u8> {
    let mut pixels = Vec::with_capacity((width * height * 4) as usize);
    for y in 0..height {
        for x in 0..width {
            pixels.extend_from_slice(&[(x * 17 % 256) as u8, (y * 29 % 256) as u8, ((x + y) * 7 % 256) as u8, 255]);
        }
    }
    pixels
}

#[test]
fn local_edit_cache_targets_a_visible_repo_local_directory_when_repo_root_is_known() {
    let repo_root = "/work/photo";
    assert_eq!(
        local_edit_cache_dir_for_repo_root(repo_root),
        format!("{repo_root}/{LOCAL_EDIT_CACHE_DIR_NAME}")
    );
}

#[test]
fn thumbnail_from_rendered_image_preserves_portrait_aspect_ratio_when_downscaling() {
    let portrait = RenderedImage { pixels: patterned_rgba_pixels(200, 400), width: 200, height: 400 };
    let thumbnail = thumbnail_from_rendered_image(&portrait, 200).unwrap();
    assert_eq!(thumbnail.width, 100);
    assert_eq!(thumbnail.height, 200);
}

#[test]
fn thumbnail_from_rendered_image_keeps_original_size_when_already_within_bounds() {
    let image = RenderedImage { pixels: patterned_rgba_pixels(120, 80), width: 120, height: 80 };
    let thumbnail = thumbnail_from_rendered_image(&image, 200).unwrap();
    assert_eq!(thumbnail.width, 120);
    assert_eq!(thumbnail.height, 80);
    assert_eq!(thumbnail.pixels, image.pixels);
}

// A legacy full-size bake (no stored logical size) of a 6x9 source whose
// pixels are 16x10: the source size is reported.
#[test]
fn legacy_persisted_local_edit_prefers_source_dimensions_when_baked_pixels_exceed_the_source() {
    assert_eq!(
        legacy_local_edit_logical_dimensions(LocalEditCacheVariant::Full, (16, 10), Some((6, 9))),
        (6, 9)
    );
}

#[test]
fn legacy_persisted_local_edit_keeps_baked_dimensions_when_the_aspect_ratio_changed() {
    assert_eq!(
        legacy_local_edit_logical_dimensions(LocalEditCacheVariant::Full, (2, 4), Some((4, 4))),
        (2, 4)
    );
}

#[test]
fn legacy_persisted_local_edit_keeps_baked_dimensions_when_a_crop_preserves_aspect_ratio() {
    assert_eq!(
        legacy_local_edit_logical_dimensions(LocalEditCacheVariant::Full, (3, 2), Some((6, 4))),
        (3, 2)
    );
}

#[test]
fn legacy_persisted_local_edit_keeps_baked_dimensions_when_rotation_swapped_the_axes() {
    assert_eq!(
        legacy_local_edit_logical_dimensions(LocalEditCacheVariant::Full, (9, 6), Some((6, 9))),
        (9, 6)
    );
}


fn header(generation_id: u64, width: u32, height: u32) -> LocalEditVariantHeader {
    LocalEditVariantHeader { generation_id, width, height }
}

#[test]
fn library_thumbnail_load_prefers_the_persisted_local_edit_thumbnail() {
    // A 1x2 bake (a rotated 2x1 image) with its current 1x2 thumbnail.
    let full = header(7, 1, 2);
    let thumb = header(7, 1, 2);
    assert_eq!(
        library_thumbnail_base_step(Some(thumb), Some(full), Some(thumb), 200),
        ThumbnailBaseStep::UseStoredThumbnail
    );
}

#[test]
fn library_thumbnail_ignores_a_generation_mismatch_even_when_dimensions_match() {
    let full = header(9, 300, 200);
    let stale_thumb = header(8, 200, 133);
    assert_eq!(
        library_thumbnail_base_step(Some(stale_thumb), Some(full), Some(stale_thumb), 200),
        ThumbnailBaseStep::RepairFromFull
    );
}

#[test]
fn library_thumbnail_ignores_a_same_generation_persisted_thumbnail_when_its_aspect_ratio_disagrees_with_the_full_copy() {
    let wide_full = header(4, 400, 200);
    let square_thumb = header(4, 2, 2);
    assert_eq!(
        library_thumbnail_base_step(Some(square_thumb), Some(wide_full), Some(square_thumb), 200),
        ThumbnailBaseStep::RepairFromFull
    );
    assert_eq!(
        library_thumbnail_base_step(Some(header(4, 200, 100)), Some(wide_full), Some(header(4, 200, 100)), 200),
        ThumbnailBaseStep::UseStoredThumbnail
    );
}

#[test]
fn library_thumbnail_without_a_bake_decodes_the_original() {
    assert_eq!(library_thumbnail_base_step(None, None, None, 200), ThumbnailBaseStep::DecodeOriginal);
    assert_eq!(
        library_thumbnail_base_step(Some(header(1, 2, 2)), None, None, 200),
        ThumbnailBaseStep::DecodeOriginal
    );
}

#[test]
fn repair_steps_retry_when_a_file_vanished() {
    assert_eq!(repair_first_step(LocalEditThumbnailRepairDecision::Missing, true), RepairStep::ShowNothing);
    assert_eq!(repair_first_step(LocalEditThumbnailRepairDecision::Return, true), RepairStep::ShowThumbnail);
    assert_eq!(repair_first_step(LocalEditThumbnailRepairDecision::Return, false), RepairStep::Retry);
    assert_eq!(
        repair_first_step(LocalEditThumbnailRepairDecision::Derive { generation_id: 7 }, false),
        RepairStep::Derive { generation_id: 7 }
    );
    assert!(derive_from_full(true, true));
    assert!(!derive_from_full(false, true));
    assert!(!derive_from_full(true, false));
    assert_eq!(repair_second_step(FinalizeLocalEditThumbnailRepair::ReturnExisting, true), RepairOutcome::ShowExisting);
    assert_eq!(repair_second_step(FinalizeLocalEditThumbnailRepair::ReturnExisting, false), RepairOutcome::Retry);
    assert_eq!(repair_second_step(FinalizeLocalEditThumbnailRepair::WriteDerived, false), RepairOutcome::ShowDerived);
    assert_eq!(repair_second_step(FinalizeLocalEditThumbnailRepair::Retry, true), RepairOutcome::Retry);
    assert!(repair_attempt_runs(7));
    assert!(!repair_attempt_runs(8));
}
