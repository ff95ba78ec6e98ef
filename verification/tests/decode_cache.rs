use photo::decode::{decoded_cache_dir_for_repo_root, embedded_preview_verdict, l8_to_rgba, raw_decode_verdict, rgb24_to_rgba, StepOutcome};
use photo::decode::{
    cache_files_oldest_first, decoded_cache_file_path, decoded_cache_needs_source_hash,
    encode_decoded_cache, format_raw_decode_error, path_uses_persisted_decoded_cache, pixel_len,
    prune_decoded_cache_plan, raw_decode_plan, read_decoded_cache, should_prune_after_write,
    CacheFileEntry, DecodedCacheError, EmbeddedImageKind, PruneError, RawDecodeStep,
    SourceFingerprint,
};

fn fingerprint(key: &str, size: u64, secs: u64) -> SourceFingerprint {
    SourceFingerprint { path_key: key.to_string(), file_size: size, modified_secs: secs, modified_nanos: 7 }
}

#[test]
fn svg_and_raw_sources_use_the_decoded_cache() {
    assert!(path_uses_persisted_decoded_cache("/a/b.SVG"));
    assert!(path_uses_persisted_decoded_cache("/a/b.svgz"));
    assert!(path_uses_persisted_decoded_cache("/a/b.dng"));
    assert!(path_uses_persisted_decoded_cache("/a/b.CR3"));
    assert!(!path_uses_persisted_decoded_cache("/a/b.png"));
    assert!(!path_uses_persisted_decoded_cache("/a/svg"));
}

#[test]
fn decoded_cache_round_trips() {
    let fp = fingerprint("/photos/x.dng", 1234, 99);
    let pixels = vec![1u8, 2, 3, 4, 5, 6, 7, 8];
    let data = encode_decoded_cache(&fp, 42, 2, 1, &pixels).unwrap();
    assert_eq!(data.len(), 68 + "/photos/x.dng".len() + 8);
    let image = read_decoded_cache(&data, &fp, None).unwrap().unwrap();
    assert_eq!((image.width, image.height), (2, 1));
    assert_eq!(image.pixels, pixels);
    assert!(!decoded_cache_needs_source_hash(&data, &fp));
}

#[test]
fn decoded_cache_checks_content_when_only_the_time_changed() {
    let fp = fingerprint("/photos/x.dng", 1234, 99);
    let data = encode_decoded_cache(&fp, 42, 1, 1, &[9, 9, 9, 9]).unwrap();
    let touched = fingerprint("/photos/x.dng", 1234, 100);
    assert!(decoded_cache_needs_source_hash(&data, &touched));
    assert_eq!(read_decoded_cache(&data, &touched, None).unwrap_err(), DecodedCacheError::SourceHashFailed);
    assert!(read_decoded_cache(&data, &touched, Some(42)).unwrap().is_some());
    assert!(read_decoded_cache(&data, &touched, Some(43)).unwrap().is_none());
    let resized = fingerprint("/photos/x.dng", 1235, 99);
    assert!(read_decoded_cache(&data, &resized, Some(42)).unwrap().is_none());
    let moved = fingerprint("/photos/y.dng", 1234, 99);
    assert!(read_decoded_cache(&data, &moved, Some(42)).unwrap().is_none());
}

#[test]
fn decoded_cache_refuses_damaged_files() {
    let fp = fingerprint("/k", 1, 1);
    let data = encode_decoded_cache(&fp, 0, 1, 1, &[1, 2, 3, 4]).unwrap();
    assert_eq!(read_decoded_cache(&data[..5], &fp, None).unwrap_err(), DecodedCacheError::Truncated);
    let mut other_magic = data.clone();
    other_magic[0] = b'X';
    assert!(read_decoded_cache(&other_magic, &fp, None).unwrap().is_none());
    let mut other_schema = data.clone();
    other_schema[8] = 2;
    assert!(read_decoded_cache(&other_schema, &fp, None).unwrap().is_none());
    let mut other_contract = data.clone();
    other_contract[12] = 3;
    assert!(read_decoded_cache(&other_contract, &fp, None).unwrap().is_none());
    let mut long_key = data.clone();
    long_key[20..24].copy_from_slice(&70_000u32.to_le_bytes());
    assert_eq!(
        read_decoded_cache(&long_key, &fp, None).unwrap_err(),
        DecodedCacheError::PathKeyTooLong { length: 70_000 }
    );
    let mut bad_utf8 = data.clone();
    bad_utf8[24] = 0xFF;
    assert_eq!(read_decoded_cache(&bad_utf8, &fp, None).unwrap_err(), DecodedCacheError::PathKeyNotUtf8);
    assert_eq!(read_decoded_cache(&data[..data.len() - 1], &fp, None).unwrap_err(), DecodedCacheError::Truncated);
    let mut wrong_len = data.clone();
    let n = wrong_len.len();
    wrong_len[n - 12..n - 4].copy_from_slice(&8u64.to_le_bytes());
    assert_eq!(
        read_decoded_cache(&wrong_len, &fp, None).unwrap_err(),
        DecodedCacheError::PixelLengthMismatch { expected: 4, got: 8 }
    );
}

#[test]
fn decoded_cache_write_refuses_wrong_pixel_counts() {
    let fp = fingerprint("/k", 1, 1);
    assert_eq!(
        encode_decoded_cache(&fp, 0, 2, 2, &[0; 15]).unwrap_err(),
        DecodedCacheError::PixelLengthMismatch { expected: 16, got: 15 }
    );
    assert_eq!(pixel_len(3, 5), Ok(60));
    assert_eq!(pixel_len(u32::MAX, u32::MAX), Err(DecodedCacheError::DimensionsOverflowed));
}

#[test]
fn decoded_cache_file_names_are_stable_hex() {
    let a = decoded_cache_file_path("/cache", "/photos/x.dng");
    let b = decoded_cache_file_path("/cache", "/photos/x.dng");
    let c = decoded_cache_file_path("/cache", "/photos/y.dng");
    assert_eq!(a, b);
    assert_ne!(a, c);
    assert!(a.starts_with("/cache/"));
    assert!(a.ends_with(".rgba"));
    assert_eq!(a.len(), "/cache/".len() + 16 + ".rgba".len());
}

fn entry(path: &str, len: u64, secs: i64) -> CacheFileEntry {
    CacheFileEntry { path: path.to_string(), len, modified_secs: secs, modified_nanos: 0 }
}

#[test]
fn prune_removes_oldest_cache_files_down_to_the_target() {
    let entries = vec![
        entry("c/new.rgba", 40, 30),
        entry("c/notes.txt", 500, 1),
        entry("c/old.rgba", 40, 10),
        entry("c/mid.rgba", 40, 20),
    ];
    assert_eq!(prune_decoded_cache_plan(&entries, 100, 50).unwrap(), vec!["c/old.rgba", "c/mid.rgba"]);
    assert!(prune_decoded_cache_plan(&entries, 120, 50).unwrap().is_empty());
    assert_eq!(
        prune_decoded_cache_plan(&entries, 50, 100).unwrap_err(),
        PruneError::TrimTargetExceedsBudget { trim_target: 100, max_bytes: 50 }
    );
    let sorted = cache_files_oldest_first(&entries);
    let names: Vec<&str> = sorted.iter().map(|e| e.path.as_str()).collect();
    assert_eq!(names, vec!["c/old.rgba", "c/mid.rgba", "c/new.rgba"]);
}

#[test]
fn prune_runs_every_eighth_write() {
    assert!(should_prune_after_write(8));
    assert!(should_prune_after_write(16));
    assert!(!should_prune_after_write(9));
}

#[test]
fn raw_decode_order_and_errors() {
    assert_eq!(
        raw_decode_plan(true),
        vec![
            RawDecodeStep::Embedded(EmbeddedImageKind::Thumbnail),
            RawDecodeStep::Embedded(EmbeddedImageKind::Preview),
            RawDecodeStep::Embedded(EmbeddedImageKind::FullImage),
            RawDecodeStep::RawPixels,
        ]
    );
    assert_eq!(raw_decode_plan(false)[0], RawDecodeStep::RawPixels);
    assert_eq!(EmbeddedImageKind::FullImage.label(), "full image");
    assert_eq!(format_raw_decode_error("bad", Some("worse")), "bad (after worse)");
    assert_eq!(format_raw_decode_error("bad", None), "bad");
}

#[test]
fn jpeg_samples_become_rgba() {
    assert_eq!(rgb24_to_rgba(&[1, 2, 3, 4, 5, 6, 7]), vec![1, 2, 3, 255, 4, 5, 6, 255]);
    assert_eq!(l8_to_rgba(&[9, 0]), vec![9, 9, 9, 255, 0, 0, 0, 255]);
    assert!(rgb24_to_rgba(&[]).is_empty());
}

fn failed(e: &str) -> StepOutcome {
    StepOutcome::Failed(e.to_string())
}

#[test]
fn raw_decode_stops_at_the_first_image() {
    // Full image: sensor data first; it failed, the embedded full image decoded.
    assert_eq!(
        raw_decode_verdict(false, &vec![failed("no pixels"), StepOutcome::Decoded]),
        Ok(1)
    );
    // Thumbnail: the embedded thumbnail decoded straight away.
    assert_eq!(raw_decode_verdict(true, &vec![StepOutcome::Decoded]), Ok(0));
}

#[test]
fn raw_decode_failure_reports_sensor_then_last_embedded_error() {
    let outcomes = vec![
        failed("Failed to read RAW pixel data: bad"),
        failed("Failed to extract RAW full image: x"),
        StepOutcome::Absent,
        failed("Failed to extract RAW thumbnail: y"),
    ];
    assert_eq!(
        raw_decode_verdict(false, &outcomes),
        Err("Failed to read RAW pixel data: bad (after Failed to extract RAW thumbnail: y)".to_string())
    );
    let outcomes = vec![
        StepOutcome::Absent,
        StepOutcome::Absent,
        StepOutcome::Absent,
        failed("Failed to develop RAW pixel data: z"),
    ];
    assert_eq!(
        raw_decode_verdict(true, &outcomes),
        Err("Failed to develop RAW pixel data: z".to_string())
    );
}

#[test]
fn embedded_preview_search_ends_as_the_file_allows() {
    assert_eq!(embedded_preview_verdict(&vec![StepOutcome::Absent, StepOutcome::Decoded]), Ok(Some(1)));
    assert_eq!(
        embedded_preview_verdict(&vec![StepOutcome::Absent, StepOutcome::Absent, StepOutcome::Absent]),
        Ok(None)
    );
    assert_eq!(
        embedded_preview_verdict(&vec![failed("a"), StepOutcome::Absent, failed("b")]),
        Err("b".to_string())
    );
}

#[test]
fn decoded_cache_dir_targets_a_visible_repo_local_directory_when_repo_root_is_known() {
    let repo_root = "/work/photo";
    let svg = "/work/photo/frame.svg";
    assert_eq!(
        decoded_cache_dir_for_repo_root(svg, repo_root),
        Some(format!("{repo_root}/decoded-cache"))
    );
}

#[test]
fn decoded_cache_dir_resolves_under_this_repo_root() {
    let repo_root = "/home/dev/photo";
    assert_eq!(
        decoded_cache_dir_for_repo_root("/tmp/elsewhere/frame.svg", repo_root),
        Some(format!("{repo_root}/decoded-cache"))
    );
}

#[test]
fn warm_persisted_decoded_cache_skips_unsupported_formats() {
    assert!(!path_uses_persisted_decoded_cache("/tmp/frame.png"));
    assert_eq!(decoded_cache_dir_for_repo_root("/tmp/frame.png", "/work/photo"), None);
}

#[test]
fn files_modified_together_keep_their_listing_order() {
    let entries = vec![
        entry("c/b.rgba", 40, 20),
        entry("c/a.rgba", 40, 20),
        entry("c/old.rgba", 40, 10),
        entry("c/c.rgba", 40, 20),
    ];
    let sorted = cache_files_oldest_first(&entries);
    let names: Vec<&str> = sorted.iter().map(|e| e.path.as_str()).collect();
    assert_eq!(names, vec!["c/old.rgba", "c/b.rgba", "c/a.rgba", "c/c.rgba"]);
    assert_eq!(prune_decoded_cache_plan(&entries, 100, 60).unwrap(), vec!["c/old.rgba", "c/b.rgba", "c/a.rgba"]);
}
