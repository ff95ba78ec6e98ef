use photo::collection::CollectionStore;

#[test]
fn create_adds_collection_sorted() {
    let mut store = CollectionStore::default();
    store.create("Zebra");
    store.create("Alpha");
    assert_eq!(store.collections.len(), 2);
    assert_eq!(store.collections[0].name, "Alpha");
    assert_eq!(store.collections[1].name, "Zebra");
}

#[test]
fn create_empty_photos() {
    let mut store = CollectionStore::default();
    store.create("Test");
    assert!(store.collections[0].photos.is_empty());
}

#[test]
fn rename_resorts() {
    let mut store = CollectionStore::default();
    store.create("Alpha");
    store.create("Beta");
    store.rename(0, "Zeta");
    assert_eq!(store.collections[0].name, "Beta");
    assert_eq!(store.collections[1].name, "Zeta");
}

#[test]
fn rename_out_of_bounds_no_panic() {
    let mut store = CollectionStore::default();
    store.rename(99, "Nope");
    assert!(store.collections.is_empty());
}

#[test]
fn delete_removes_collection() {
    let mut store = CollectionStore::default();
    store.create("A");
    store.create("B");
    store.create("C");
    store.delete(1);
    assert_eq!(store.collections.len(), 2);
    assert_eq!(store.collections[0].name, "A");
    assert_eq!(store.collections[1].name, "C");
}

#[test]
fn delete_out_of_bounds_no_panic() {
    let mut store = CollectionStore::default();
    store.delete(0);
    assert!(store.collections.is_empty());
}

#[test]
fn add_photo_no_duplicates() {
    let mut store = CollectionStore::default();
    store.create("Test");
    let path = "/photo/a.jpg";
    store.add_photo(0, path);
    store.add_photo(0, path);
    assert_eq!(store.collections[0].photos.len(), 1);
}

#[test]
fn add_photo_out_of_bounds_no_panic() {
    let mut store = CollectionStore::default();
    store.add_photo(99, "/a.jpg");
    assert!(store.collections.is_empty());
}

#[test]
fn remove_photo_keeps_others() {
    let mut store = CollectionStore::default();
    store.create("Test");
    let a = "/photo/a.jpg";
    let b = "/photo/b.jpg";
    store.add_photo(0, a);
    store.add_photo(0, b);
    store.remove_photo(0, a);
    assert_eq!(store.collections[0].photos, vec![b.to_string()]);
}

#[test]
fn remove_photo_not_present_no_panic() {
    let mut store = CollectionStore::default();
    store.create("Test");
    store.remove_photo(0, "/not_here.jpg");
    assert!(store.collections[0].photos.is_empty());
}

#[test]
fn next_default_name_increments() {
    let mut store = CollectionStore::default();
    assert_eq!(store.next_default_name(), "New Collection");
    store.create("New Collection");
    assert_eq!(store.next_default_name(), "New Collection 2");
    store.create("New Collection 2");
    assert_eq!(store.next_default_name(), "New Collection 3");
}

#[test]
fn natural_order_sorts_numbered_names() {
    let mut store = CollectionStore::default();
    store.create("Trip 10");
    store.create("Trip 2");
    store.create("Trip 1");
    let names: Vec<String> = store.collections.iter().map(|c| c.name.clone()).collect();
    assert_eq!(names, vec!["Trip 1", "Trip 2", "Trip 10"]);
}

#[test]
fn next_default_name_fills_the_first_gap() {
    let mut store = CollectionStore::default();
    store.create("New Collection");
    store.create("New Collection 3");
    assert_eq!(store.next_default_name(), "New Collection 2");
}

#[test]
fn remove_photo_removes_every_copy_and_keeps_order() {
    let mut store = CollectionStore::default();
    store.create("Test");
    store.add_photo(0, "/a.jpg");
    store.add_photo(0, "/b.jpg");
    store.add_photo(0, "/c.jpg");
    store.remove_photo(0, "/b.jpg");
    assert_eq!(store.collections[0].photos, vec!["/a.jpg".to_string(), "/c.jpg".to_string()]);
}

#[test]
fn names_that_compare_equal_keep_their_order() {
    // natord skips white space, so "a b" and "ab" compare equal.
    let mut store = CollectionStore::default();
    store.create("ab");
    store.create("a b");
    store.create("Zed");
    let names: Vec<String> = store.collections.iter().map(|c| c.name.clone()).collect();
    assert_eq!(names, vec!["Zed", "ab", "a b"]);
    store.rename(99, "Nope");
    let again: Vec<String> = store.collections.iter().map(|c| c.name.clone()).collect();
    assert_eq!(again, names);
}
