use photo::nav::DirNav;

fn listing(names: &[&str]) -> Vec<String> {
    names.iter().map(|n| format!("/pictures/{n}")).collect()
}

#[test]
fn scans_only_image_files() {
    let nav = DirNav::from_listing("/pictures/photo.jpg", listing(&["photo.jpg", "notes.txt", "icon.png", "data.csv"]));
    assert_eq!(nav.count(), 2);
}

#[test]
fn natural_sort_order() {
    let nav = DirNav::from_listing("/pictures/img1.png", listing(&["img10.png", "img2.png", "img1.png"]));
    assert_eq!(nav.current_filename(), "img1.png");
    assert_eq!(nav.current_index(), 0);
}

#[test]
fn next_cycles_forward() {
    let mut nav = DirNav::from_listing("/pictures/a.png", listing(&["a.png", "b.png", "c.png"]));
    assert_eq!(nav.current_filename(), "a.png");

    let next = nav.next().unwrap();
    assert!(next.ends_with("b.png"));
    assert_eq!(nav.current_filename(), "b.png");

    nav.next();
    assert_eq!(nav.current_filename(), "c.png");

    nav.next();
    assert_eq!(nav.current_filename(), "a.png");
}

#[test]
fn prev_cycles_backward() {
    let mut nav = DirNav::from_listing("/pictures/a.png", listing(&["a.png", "b.png", "c.png"]));
    nav.prev();
    assert_eq!(nav.current_filename(), "c.png");

    nav.prev();
    assert_eq!(nav.current_filename(), "b.png");
}

#[test]
fn starts_at_given_file() {
    let nav = DirNav::from_listing("/pictures/b.png", listing(&["a.png", "b.png", "c.png"]));
    assert_eq!(nav.current_filename(), "b.png");
    assert_eq!(nav.current_index(), 1);
}

#[test]
fn empty_directory_returns_none() {
    let mut nav = DirNav::from_listing("/pictures/nonexistent.png", Vec::new());
    assert_eq!(nav.count(), 0);
    assert!(nav.next().is_none());
    assert!(nav.prev().is_none());
    assert_eq!(nav.current_filename(), "");
}

#[test]
fn case_insensitive_extensions() {
    let nav = DirNav::from_listing("/pictures/photo.JPG", listing(&["photo.JPG", "image.Png"]));
    assert_eq!(nav.count(), 2);
}

#[test]
fn file_names_of_paths() {
    assert_eq!(photo::nav::path_filename_str("/pictures/holiday/beach.png"), "beach.png");
    assert_eq!(photo::nav::path_filename_str("beach.png"), "beach.png");
    assert_eq!(photo::nav::path_filename_str(""), "");
}

#[test]
fn extensions_are_compared_after_unicode_lowercasing() {
    assert!(photo::nav::is_image_file("/pictures/PHOTO.JPEG"));
    assert!(photo::nav::is_raw_file("/pictures/frame.\u{212A}DC"));
    assert!(!photo::nav::is_image_file("/pictures/notes.TXT"));
    assert!(!photo::nav::is_image_file("/pictures/README"));
}
