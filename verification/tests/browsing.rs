use photo::browse::{
    window_title,
    active_collection_after_delete, collection_name_to_submit, detail_step, escape_action,
    is_double_click_event, key_command, position_label, step_wrapped_index, DetailStep, EscapeAction,
    KeyCommand, KeyInput, Tab,
};
use photo::collection::{CollectionStore, PhotoMenuAction};
use photo::library::{add_library_paths, image_file_dialog_extensions, scan_folder_for_images};
use photo::local_edits::{
    local_edit_cache_dir_for_repo_root, thumbnail_dimensions_for_image, LOCAL_EDIT_CACHE_DIR_NAME,
};
use photo::nav::image_extensions;

fn listing(dir: &str, names: &[&str]) -> Vec<String> {
    names.iter().map(|n| format!("{dir}/{n}")).collect()
}

fn file_name(path: &str) -> &str {
    path.rsplit('/').next().unwrap()
}

#[test]
fn scan_folder_finds_only_images() {
    let entries = listing("dir", &["photo.jpg", "notes.txt", "icon.png", "data.csv", "art.bmp"]);
    let results = scan_folder_for_images(entries);
    assert_eq!(results.len(), 3);
}

#[test]
fn scan_folder_finds_raw_images() {
    let entries = listing("dir", &["photo.dng", "roll.cr3", "notes.txt"]);
    let results = scan_folder_for_images(entries);
    assert_eq!(results.len(), 2);
}

#[test]
fn file_dialog_extensions_match_supported_image_extensions() {
    assert_eq!(image_file_dialog_extensions(), image_extensions());
}

#[test]
fn scan_folder_natural_sort_order() {
    let entries = listing("dir", &["img10.png", "img2.png", "img1.png"]);
    let results = scan_folder_for_images(entries);
    let names: Vec<&str> = results.iter().map(|p| file_name(p)).collect();
    assert_eq!(names, vec!["img1.png", "img2.png", "img10.png"]);
}

#[test]
fn scan_folder_empty_dir() {
    let results = scan_folder_for_images(Vec::new());
    assert!(results.is_empty());
}

#[test]
fn local_edit_cache_resolves_under_this_repo_root() {
    let repo_root = "/home/dev/photo";
    assert_eq!(
        local_edit_cache_dir_for_repo_root(repo_root),
        format!("{repo_root}/{LOCAL_EDIT_CACHE_DIR_NAME}")
    );
}

#[test]
fn thumbnail_dimensions_for_image_handles_zero_safely() {
    assert_eq!(thumbnail_dimensions_for_image(0, 0, 0), (0, 0));
    assert_eq!(thumbnail_dimensions_for_image(0, 400, 200), (0, 200));
    assert_eq!(thumbnail_dimensions_for_image(400, 0, 200), (200, 0));
}

#[test]
fn thumbnail_dimensions_scale_the_longer_side_to_the_bound() {
    assert_eq!(thumbnail_dimensions_for_image(400, 300, 200), (200, 150));
    assert_eq!(thumbnail_dimensions_for_image(300, 400, 200), (150, 200));
    assert_eq!(thumbnail_dimensions_for_image(10_000, 1, 200), (200, 1));
    assert_eq!(thumbnail_dimensions_for_image(120, 80, 200), (120, 80));
}

#[test]
fn scan_folder_no_duplicates_in_entries() {
    let paths = scan_folder_for_images(listing("dir", &["a.png", "b.png"]));

    let mut library: Vec<String> = Vec::new();
    add_library_paths(&mut library, &paths);
    // Add same paths again — should not grow
    add_library_paths(&mut library, &paths);
    assert_eq!(library.len(), 2);
}

#[test]
fn double_click_detection() {
    // Two clicks on the same index with no time between them.
    let t1 = 1_000u64;
    let t2 = t1;
    let mut last = Some((0usize, t1));
    assert!(is_double_click_event(&mut last, 0, t2));
    assert_eq!(last, None);
}

#[test]
fn create_collection_enters_rename_mode() {
    let mut store = CollectionStore::default();
    let name = store.next_default_name();
    assert_eq!(name, "New Collection");
    store.create(&name);
    let idx = store
        .collections
        .iter()
        .position(|c| c.name == name)
        .unwrap();
    assert_eq!(idx, 0);
    assert_eq!(store.collections.len(), 1);
}

#[test]
fn collection_rename_submit_updates_name() {
    let mut store = CollectionStore::default();
    store.create("Old Name");
    assert_eq!(store.collections[0].name, "Old Name");
    store.rename(0, "New Name");
    assert_eq!(store.collections[0].name, "New Name");
}

#[test]
fn collection_rename_empty_string_keeps_old_name() {
    let mut store = CollectionStore::default();
    store.create("Keep Me");
    if let Some(new_name) = collection_name_to_submit("") {
        store.rename(0, &new_name);
    }
    assert_eq!(store.collections[0].name, "Keep Me");
}

#[test]
fn collection_rename_submit_trims_the_name() {
    assert_eq!(collection_name_to_submit("  Trip \t"), Some("Trip".to_string()));
    assert_eq!(collection_name_to_submit(" \n "), None);
}

#[test]
fn context_menu_delete_adjusts_active_collection() {
    let mut store = CollectionStore::default();
    store.create("Alpha");
    store.create("Beta");
    store.create("Gamma");
    // Active collection is Gamma (2); Alpha (0) is deleted.
    let active: Option<usize> = Some(2);
    let delete_idx = 0;
    store.delete(delete_idx);
    let active = active_collection_after_delete(active, delete_idx);
    assert_eq!(active, Some(1)); // Gamma shifted from 2 to 1
    assert_eq!(store.collections.len(), 2);
}

#[test]
fn context_menu_delete_clears_active_if_same() {
    let mut store = CollectionStore::default();
    store.create("Only");
    let active: Option<usize> = Some(0);
    let delete_idx = 0;
    store.delete(delete_idx);
    let active = active_collection_after_delete(active, delete_idx);
    assert!(active.is_none());
    assert!(store.collections.is_empty());
}

#[test]
fn sidebar_double_click_sets_active_collection() {
    let index = 2;
    let t1 = 5_000u64;
    let mut last_click: Option<(usize, u64)> = Some((index, t1));
    let now = t1;
    let is_double_click = is_double_click_event(&mut last_click, index, now);
    assert!(is_double_click);
}

#[test]
fn sidebar_click_different_index_not_double() {
    let t1 = 5_000u64;
    let mut last_click: Option<(usize, u64)> = Some((1, t1));
    let now = t1;
    let is_double_click = is_double_click_event(&mut last_click, 2, now);
    assert!(!is_double_click);
    assert_eq!(last_click, Some((2, now)));
}

#[test]
fn slow_second_click_is_not_double() {
    let mut last_click: Option<(usize, u64)> = Some((3, 1_000));
    assert!(!is_double_click_event(&mut last_click, 3, 1_400));
    assert!(is_double_click_event(&mut last_click, 3, 1_799));
}

#[test]
fn collection_nav_next_wraps_around() {
    let total = 3;
    let photo_idx = step_wrapped_index(2, total, true);
    assert_eq!(photo_idx, 0); // wraps to first
}

#[test]
fn collection_nav_prev_wraps_around() {
    let total = 3;
    let photo_idx = step_wrapped_index(0, total, false);
    assert_eq!(photo_idx, 2); // wraps to last
}

#[test]
fn exit_collection_view_clears_active() {
    // Escape in the library while a collection is shown leaves the collection.
    let active_collection: Option<usize> = Some(2);
    let action = escape_action(false, false, Tab::Library, false, false, active_collection.is_some());
    assert_eq!(action, EscapeAction::ExitCollectionView);
    let result: Option<usize> = None;
    assert!(active_collection.is_some()); // was set before
    assert!(result.is_none()); // cleared after
}

#[test]
fn exit_collection_detail_returns_to_collection_grid() {
    // Escape on a photo opened from a collection goes back to the library tab,
    // keeping the collection active.
    let active_collection: Option<usize> = Some(1);
    let action = escape_action(false, false, Tab::Detail, false, true, active_collection.is_some());
    assert_eq!(action, EscapeAction::ExitCollectionDetail);
    let tab = Tab::Library;
    let collection_nav: Option<(usize, usize)> = None;
    assert_eq!(tab, Tab::Library);
    assert!(active_collection.is_some()); // stays set
    assert!(collection_nav.is_none()); // cleared
}

#[test]
fn remove_photo_from_collection_via_context() {
    let mut store = CollectionStore::default();
    store.create("My Photos");
    let path = "/test/photo.jpg";
    store.add_photo(0, path);
    assert_eq!(store.collections[0].photos.len(), 1);
    store.remove_photo(0, path);
    assert!(store.collections[0].photos.is_empty());
}

#[test]
fn collection_photo_double_click_sets_collection_nav() {
    let photo_index = 2;
    let col_idx: usize = 1;
    let t1 = 10_000u64;
    let mut last_thumb_click: Option<(usize, u64)> = Some((photo_index, t1));
    let now = t1;
    let is_double_click = is_double_click_event(&mut last_thumb_click, photo_index, now);
    assert!(is_double_click);
    // On double-click, collection_nav should be set
    let collection_nav = Some((col_idx, photo_index));
    assert_eq!(collection_nav, Some((1, 2)));
}

#[test]
fn status_bar_collection_nav_position_format() {
    let photo_idx = 2;
    let total = 5;
    let pos = position_label(photo_idx, total);
    assert_eq!(pos, "  3/5");
}

#[test]
fn library_photo_right_click_no_collections_no_menu() {
    // With no collections a right click on a library photo opens no menu.
    let store = CollectionStore::default();
    assert!(store.collections.is_empty());
}

#[test]
fn add_photo_to_collection_handler() {
    let mut store = CollectionStore::default();
    store.create("Favorites");
    let photo_path = "/test/sunset.jpg".to_string();
    store.add_photo(0, &photo_path);
    assert_eq!(store.collections[0].photos.len(), 1);
    assert!(store.collections[0].photos.contains(&photo_path));
}

#[test]
fn toggle_photo_in_collection_adds_when_absent() {
    let mut store = CollectionStore::default();
    store.create("Test");
    let path = "/test/photo.jpg".to_string();
    let contains = store.collections[0].photos.contains(&path);
    assert!(!contains);
    store.add_photo(0, &path);
    assert!(store.collections[0].photos.contains(&path));
}

#[test]
fn toggle_photo_in_collection_removes_when_present() {
    let mut store = CollectionStore::default();
    store.create("Test");
    let path = "/test/photo.jpg".to_string();
    store.add_photo(0, &path);
    assert!(store.collections[0].photos.contains(&path));
    store.remove_photo(0, &path);
    assert!(!store.collections[0].photos.contains(&path));
}

#[test]
fn escape_precedence() {
    assert_eq!(escape_action(true, true, Tab::Detail, true, true, true), EscapeAction::DismissContextMenu);
    assert_eq!(escape_action(false, true, Tab::Detail, true, true, true), EscapeAction::CancelRename);
    assert_eq!(escape_action(false, false, Tab::Detail, true, true, true), EscapeAction::CancelCrop);
    assert_eq!(escape_action(false, false, Tab::Detail, false, false, false), EscapeAction::BackToLibrary);
    assert_eq!(escape_action(false, false, Tab::Library, false, false, false), EscapeAction::Nothing);
}

#[test]
fn stepping_forward_then_back_returns() {
    for len in 1..6usize {
        for i in 0..len {
            let next = step_wrapped_index(i, len, true);
            assert_eq!(step_wrapped_index(next, len, false), i);
        }
    }
}

fn ch(text: &str) -> KeyInput {
    KeyInput::Character(text.to_string())
}

#[test]
fn key_bindings_follow_the_viewer_shortcuts() {
    assert_eq!(key_command(&KeyInput::Escape, false, false, Tab::Library), KeyCommand::Escape);
    assert_eq!(key_command(&KeyInput::ArrowRight, false, false, Tab::Detail), KeyCommand::Next);
    assert_eq!(key_command(&KeyInput::Space, false, false, Tab::Detail), KeyCommand::Next);
    assert_eq!(key_command(&KeyInput::Space, false, false, Tab::Library), KeyCommand::Nothing);
    assert_eq!(key_command(&KeyInput::Backspace, false, false, Tab::Detail), KeyCommand::Previous);
    assert_eq!(key_command(&ch("z"), true, false, Tab::Library), KeyCommand::Undo);
    assert_eq!(key_command(&ch("z"), true, true, Tab::Detail), KeyCommand::Redo);
    assert_eq!(key_command(&ch("y"), true, false, Tab::Detail), KeyCommand::Redo);
    assert_eq!(key_command(&ch("s"), true, false, Tab::Detail), KeyCommand::Save);
    assert_eq!(key_command(&ch("o"), true, false, Tab::Library), KeyCommand::Open);
    assert_eq!(key_command(&ch("z"), false, false, Tab::Detail), KeyCommand::Nothing);
    assert_eq!(key_command(&ch("0"), false, false, Tab::Detail), KeyCommand::FitZoom);
    assert_eq!(key_command(&ch("+"), false, false, Tab::Detail), KeyCommand::ZoomIn);
    assert_eq!(key_command(&ch("_"), false, false, Tab::Detail), KeyCommand::ZoomOut);
    assert_eq!(key_command(&ch("1"), false, false, Tab::Detail), KeyCommand::ActualSize);
    assert_eq!(key_command(&ch("1"), false, false, Tab::Library), KeyCommand::Nothing);
    assert_eq!(key_command(&KeyInput::Home, false, false, Tab::Detail), KeyCommand::FitZoom);
    assert_eq!(key_command(&KeyInput::Other, true, true, Tab::Detail), KeyCommand::Nothing);
}

#[test]
fn detail_steps_wrap_within_the_source_list() {
    let lens = vec![3, 0];
    assert_eq!(detail_step(Some((0, 2)), &lens, None, 0, true), DetailStep::Collection(0, 0));
    assert_eq!(detail_step(Some((0, 0)), &lens, Some(5), 9, false), DetailStep::Collection(0, 2));
    assert_eq!(detail_step(Some((0, 9)), &lens, None, 0, false), DetailStep::Collection(0, 1));
    assert_eq!(detail_step(Some((1, 0)), &lens, None, 0, true), DetailStep::Stay);
    assert_eq!(detail_step(Some((4, 0)), &lens, None, 0, true), DetailStep::Stay);
    assert_eq!(detail_step(None, &lens, Some(4), 5, true), DetailStep::Library(0));
    assert_eq!(detail_step(None, &lens, Some(7), 5, false), DetailStep::Library(3));
    assert_eq!(detail_step(None, &lens, Some(0), 0, true), DetailStep::Stay);
    assert_eq!(detail_step(None, &lens, None, 5, true), DetailStep::Folder);
}

#[test]
fn photo_context_menu_offers_each_collection() {
    let mut store = CollectionStore::default();
    store.create("Trips");
    store.create("Family");
    let photo = "/photos/beach.jpg";
    store.add_photo(1, photo);
    let menu = store.photo_menu(photo, true);
    assert_eq!(
        menu,
        vec![
            ("Add to Family".to_string(), PhotoMenuAction::Add(0)),
            ("\u{2713} Trips".to_string(), PhotoMenuAction::Toggle(1)),
        ]
    );
    assert!(store.photo_menu(photo, false).is_empty());
    assert!(CollectionStore::default().photo_menu(photo, true).is_empty());
}

#[test]
fn toggling_a_photo_adds_then_removes_it() {
    let mut store = CollectionStore::default();
    store.create("Trips");
    let photo = "/photos/beach.jpg";
    store.toggle_photo(0, photo, true);
    assert!(store.holds_photo(0, photo));
    store.toggle_photo(0, photo, true);
    assert!(!store.holds_photo(0, photo));
    store.toggle_photo(0, photo, false);
    assert!(!store.holds_photo(0, photo));
    store.toggle_photo(5, photo, true);
    assert_eq!(store.collections.len(), 1);
}

#[test]
fn stale_collection_nav_prev_clamps_to_last_valid_photo() {
    let mut store = CollectionStore::default();
    store.create("Favorites");
    store.add_photo(0, "only-photo.png");
    let lens: Vec<usize> = store.collections.iter().map(|c| c.photos.len()).collect();
    let step = detail_step(Some((0, 99)), &lens, None, 0, false);
    assert_eq!(step, DetailStep::Collection(0, 0));
    assert_eq!(store.collections[0].photos[0], "only-photo.png");
}

#[test]
fn stale_collection_nav_next_clamps_then_wraps() {
    let mut store = CollectionStore::default();
    store.create("Favorites");
    for photo in ["one.png", "two.png", "three.png"] {
        store.add_photo(0, photo);
    }
    let lens: Vec<usize> = store.collections.iter().map(|c| c.photos.len()).collect();
    let step = detail_step(Some((0, 99)), &lens, None, 0, true);
    assert_eq!(step, DetailStep::Collection(0, 0));
    assert_eq!(store.collections[0].photos[0], "one.png");
}

#[test]
fn stale_library_index_prev_clamps_to_last_valid_photo() {
    assert_eq!(detail_step(None, &Vec::new(), Some(99), 1, false), DetailStep::Library(0));
}

#[test]
fn stale_library_index_next_clamps_then_wraps() {
    assert_eq!(detail_step(None, &Vec::new(), Some(99), 3, true), DetailStep::Library(0));
}

#[test]
fn window_title_follows_the_screen() {
    assert_eq!(window_title(Tab::Library, 0, None, ""), "Photo - Library");
    assert_eq!(window_title(Tab::Library, 12, None, ""), "Photo - Library (12)");
    assert_eq!(window_title(Tab::Detail, 3, Some("b.jpg"), "a.jpg"), "Photo - b.jpg");
    assert_eq!(window_title(Tab::Detail, 0, None, "a.jpg"), "Photo - a.jpg");
    assert_eq!(window_title(Tab::Detail, 0, None, ""), "Photo");
}

fn library_with_entries(n: usize) -> Vec<String> {
    (0..n).map(|i| format!("/library/photo-{i}.jpg")).collect()
}

#[test]
fn add_photo_to_collection_targets_original_photo_after_library_reflow() {
    let mut library = library_with_entries(3);
    let mut store = CollectionStore::default();
    store.create("Favorites");
    let expected_path = library[1].clone();
    // The context menu keeps the photo's path, not its index.
    let menu_target = library[1].clone();
    library.remove(0);
    let in_library = library.contains(&menu_target);
    store.add_library_photo(0, &menu_target, in_library);
    assert_eq!(store.collections[0].photos, vec![expected_path]);
}

#[test]
fn stale_library_photo_add_action_ignores_removed_target() {
    let mut library = library_with_entries(2);
    let mut store = CollectionStore::default();
    store.create("Favorites");
    let target_path = library[1].clone();
    let removed = library.remove(1);
    assert_eq!(removed, target_path);
    let in_library = library.contains(&target_path);
    store.add_library_photo(0, &target_path, in_library);
    assert!(store.collections[0].photos.is_empty());
}

#[test]
fn stale_library_photo_toggle_action_ignores_removed_target() {
    let mut library = library_with_entries(2);
    let mut store = CollectionStore::default();
    store.create("Favorites");
    let target_path = library[1].clone();
    store.add_photo(0, &target_path);
    let removed = library.remove(1);
    assert_eq!(removed, target_path);
    let in_library = library.contains(&target_path);
    store.toggle_photo(0, &target_path, in_library);
    assert_eq!(store.collections[0].photos, vec![target_path]);
}

#[test]
fn stale_library_photo_add_action_ignores_removed_collection() {
    let library = library_with_entries(2);
    let mut store = CollectionStore::default();
    store.create("Favorites");
    let target_path = library[1].clone();
    store.delete(0);
    store.add_library_photo(0, &target_path, library.contains(&target_path));
    assert!(store.collections.is_empty());
}

#[test]
fn stale_library_photo_toggle_action_ignores_removed_collection() {
    let library = library_with_entries(2);
    let mut store = CollectionStore::default();
    store.create("Favorites");
    let target_path = library[1].clone();
    store.add_photo(0, &target_path);
    store.delete(0);
    store.toggle_photo(0, &target_path, library.contains(&target_path));
    assert!(store.collections.is_empty());
}

#[test]
fn toggle_photo_in_collection_targets_original_photo_after_library_reflow() {
    let mut library = library_with_entries(3);
    let mut store = CollectionStore::default();
    store.create("Favorites");
    let target_path = library[1].clone();
    store.add_photo(0, &target_path);
    library.remove(0);
    store.toggle_photo(0, &target_path, library.contains(&target_path));
    assert!(store.collections[0].photos.is_empty());
}

#[test]
fn remove_photo_from_collection_targets_original_photo_after_collection_reflow() {
    let mut store = CollectionStore::default();
    store.create("Favorites");
    let photos = ["one.png", "two.png", "three.png"];
    for photo in &photos {
        store.add_photo(0, photo);
    }
    // The context menu keeps the right-clicked photo's path.
    let menu_target = store.collections[0].photos[1].clone();
    store.remove_photo(0, photos[0]);
    store.remove_photo(0, &menu_target);
    assert_eq!(store.collections[0].photos, vec![photos[2].to_string()]);
}

#[test]
fn collection_name_trims_unicode_white_space() {
    assert_eq!(collection_name_to_submit("\u{3000}\tTrips\u{a0}\n"), Some("Trips".to_string()));
    assert_eq!(collection_name_to_submit("\u{2028}\u{85} "), None);
    assert_eq!(collection_name_to_submit("a\u{200b}"), Some("a\u{200b}".to_string()));
}

#[test]
fn stepping_back_from_a_later_index_needs_no_list() {
    assert_eq!(step_wrapped_index(3, 0, false), 2);
}
