use photo::detail_load::DetailLoadStage;
use photo::harness_commands::{
    artifact_relative_path, load_stage_name, render_max_dim, RenderSource,
    harness_is_idle, import_files_verdict, import_folder_verdict, library_page_bounds, open_verdict,
    wait_idle_timeout, waiter_outcome, PendingWork, WaiterOutcome,
};
use photo::library::scan_folder_for_images;

fn strings(list: &[&str]) -> Vec<String> {
    list.iter().map(|s| s.to_string()).collect()
}

#[test]
fn import_files_requires_paths_and_open_requires_existence() {
    let refused = import_files_verdict(26, &Vec::new(), &Vec::new()).unwrap_err();
    assert_eq!(refused.id, 26);
    assert_eq!(refused.code, "invalid_params");
    assert_eq!(refused.message, "no paths given");

    let refused = open_verdict(27, "definitely/not/a/real/file.png", false).unwrap_err();
    assert_eq!(refused.code, "invalid_params");
    assert_eq!(refused.message, "path does not exist: definitely/not/a/real/file.png");
    assert!(open_verdict(27, "a.png", true).is_ok());
}

#[test]
fn import_files_rejects_paths_no_dialog_could_produce() {
    let paths = strings(&["/tmp/dir/real.png", "/tmp/dir/ghost.png"]);
    let refused = import_files_verdict(42, &paths, &vec![true, false]).unwrap_err();
    assert_eq!(refused.code, "invalid_params");
    assert!(refused.message.contains("ghost.png"));
    assert!(!refused.message.contains("real.png"));

    assert!(import_files_verdict(43, &strings(&["/tmp/dir/real.png"]), &vec![true]).is_ok());
}

#[test]
fn missing_import_paths_are_listed_in_order() {
    let paths = strings(&["a", "b", "c", "d"]);
    let refused = import_files_verdict(1, &paths, &vec![false, true, false, false]).unwrap_err();
    assert_eq!(
        refused.message,
        "paths a file dialog could never produce (missing or not files): a, c, d"
    );
}

#[test]
fn import_folder_adds_library_entries_like_the_dialog() {
    assert!(import_folder_verdict(24, "/photos", true).is_ok());
    let found = scan_folder_for_images(strings(&["/photos/b.jpg", "/photos/a.png", "/photos/notes.txt"]));
    assert_eq!(found.len(), 2);

    let refused = import_folder_verdict(25, "/photos/missing", false).unwrap_err();
    assert_eq!(refused.code, "invalid_params");
    assert_eq!(refused.message, "not a directory: /photos/missing");
}

#[test]
fn observe_library_pages_with_offset_and_limit() {
    let names = ["photo-0.png", "photo-1.png", "photo-2.png", "photo-3.png", "photo-4.png"];
    let (start, end) = library_page_bounds(names.len(), 1, Some(2));
    assert_eq!(start, 1);
    let page = &names[start..end];
    assert_eq!(page.len(), 2);
    assert_eq!(page[0], "photo-1.png");
    assert_eq!(page[1], "photo-2.png");
}

#[test]
fn library_pages_are_bounded() {
    assert_eq!(library_page_bounds(5, 9, None), (5, 5));
    assert_eq!(library_page_bounds(250, 0, None), (0, 100));
    assert_eq!(library_page_bounds(5000, 10, Some(4000)), (10, 1010));
    assert_eq!(library_page_bounds(5, 3, Some(10)), (3, 5));
}

#[test]
fn wait_idle_times_out_with_the_pending_report() {
    let busy = PendingWork {
        detail_loading: true,
        exif_loading: false,
        save_in_flight: false,
        persist_in_flight: false,
        persist_queued: 0,
        owed_bakes: 0,
    };
    assert!(!harness_is_idle(&busy));
    let timeout = wait_idle_timeout(Some(0));
    assert_eq!(timeout, 0);
    let now = 1_000;
    assert_eq!(waiter_outcome(harness_is_idle(&busy), now, now + timeout), WaiterOutcome::TimedOut);
}

#[test]
fn wait_idle_deadlines_and_answers() {
    assert_eq!(wait_idle_timeout(None), 30_000);
    assert_eq!(wait_idle_timeout(Some(900_000)), 600_000);
    assert_eq!(waiter_outcome(true, 10, 5), WaiterOutcome::Idle);
    assert_eq!(waiter_outcome(false, 4, 5), WaiterOutcome::Keep);
    let quiet = PendingWork {
        detail_loading: false,
        exif_loading: false,
        save_in_flight: false,
        persist_in_flight: false,
        persist_queued: 0,
        owed_bakes: 0,
    };
    assert!(harness_is_idle(&quiet));
    assert!(!harness_is_idle(&PendingWork { owed_bakes: 1, ..quiet }));
}

#[test]
fn artifacts_are_numbered_in_order() {
    assert_eq!(artifact_relative_path(1, "screenshot"), "artifacts/0001-screenshot.png");
    assert_eq!(
        artifact_relative_path(12, RenderSource::Current.artifact_label()),
        "artifacts/0012-render-current.png"
    );
    assert_eq!(artifact_relative_path(12345, "render-original"), "artifacts/12345-render-original.png");
    assert_eq!(RenderSource::Original.name(), "original");
}

#[test]
fn render_bounds_stay_in_range() {
    assert_eq!(render_max_dim(None), None);
    assert_eq!(render_max_dim(Some(10)), Some(64));
    assert_eq!(render_max_dim(Some(1600)), Some(1600));
    assert_eq!(render_max_dim(Some(100_000)), Some(16_384));
}

#[test]
fn load_stages_have_report_names() {
    assert_eq!(load_stage_name(DetailLoadStage::Idle), "idle");
    assert_eq!(load_stage_name(DetailLoadStage::PreviewWhileLoading), "preview_while_loading");
    assert_eq!(load_stage_name(DetailLoadStage::PreviewOnly), "preview_only");
    assert_eq!(load_stage_name(DetailLoadStage::Loading), "loading");
}
