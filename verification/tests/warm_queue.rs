use photo::library::{add_library_paths, filter_new_library_paths};
use photo::warm_queue::WarmQueue;

fn paths(names: &[&str]) -> Vec<String> {
    names.iter().map(|n| format!("/import/{n}")).collect()
}

/// What picking files does: the new ones join the library and the cache
/// warm queue.
fn pick_files(library: &mut Vec<String>, warm: &mut WarmQueue, picked: Vec<String>) -> Option<String> {
    let new_paths = filter_new_library_paths(library, picked);
    if new_paths.is_empty() {
        return None;
    }
    add_library_paths(library, &new_paths);
    warm.enqueue_paths(&new_paths)
}

#[test]
fn importing_files_starts_background_cache_warming_for_supported_formats() {
    let picked = paths(&["frame.dng", "frame.png", "overlay.svg"]);
    let (raw, png, svg) = (picked[0].clone(), picked[1].clone(), picked[2].clone());
    let mut library = Vec::new();
    let mut warm = WarmQueue::new();

    let started = pick_files(&mut library, &mut warm, picked);

    assert!(library.contains(&raw));
    assert!(library.contains(&png));
    assert!(library.contains(&svg));
    assert_eq!(started.as_deref(), Some(raw.as_str()));
    assert_eq!(warm.in_flight.as_deref(), Some(raw.as_str()));
    assert_eq!(warm.pending, vec![svg]);
}

#[test]
fn import_cache_warm_completion_advances_to_the_next_supported_image() {
    let picked = paths(&["frame.dng", "overlay.svg"]);
    let (raw, svg) = (picked[0].clone(), picked[1].clone());
    let mut library = Vec::new();
    let mut warm = WarmQueue::new();
    pick_files(&mut library, &mut warm, picked);
    assert_eq!(warm.in_flight.as_deref(), Some(raw.as_str()));

    let started = warm.complete(&raw);

    assert_eq!(started.as_deref(), Some(svg.as_str()));
    assert_eq!(warm.in_flight.as_deref(), Some(svg.as_str()));
    assert!(warm.pending.is_empty());
}

#[test]
fn import_cache_warm_failure_still_advances_to_the_next_supported_image() {
    let picked = paths(&["frame.dng", "overlay.svg"]);
    let (raw, svg) = (picked[0].clone(), picked[1].clone());
    let mut library = Vec::new();
    let mut warm = WarmQueue::new();
    pick_files(&mut library, &mut warm, picked);
    assert_eq!(warm.in_flight.as_deref(), Some(raw.as_str()));

    // A failed warm finishes the same way as a successful one.
    warm.complete(&raw);

    assert_eq!(warm.in_flight.as_deref(), Some(svg.as_str()));
    assert!(warm.pending.is_empty());
}

#[test]
fn importing_more_files_while_a_warm_is_in_flight_appends_to_the_queue() {
    let first_batch = vec!["/first/first.dng".to_string()];
    let first = first_batch[0].clone();
    let second_batch = vec!["/second/second.dng".to_string(), "/second/overlay.svg".to_string()];
    let (second, svg) = (second_batch[0].clone(), second_batch[1].clone());
    let mut library = Vec::new();
    let mut warm = WarmQueue::new();

    pick_files(&mut library, &mut warm, first_batch);
    assert_eq!(warm.in_flight.as_deref(), Some(first.as_str()));

    let started = pick_files(&mut library, &mut warm, second_batch);

    assert!(started.is_none());
    assert_eq!(warm.in_flight.as_deref(), Some(first.as_str()));
    assert_eq!(warm.pending, vec![second, svg]);
}

#[test]
fn a_finished_warm_of_another_image_keeps_the_running_one() {
    let mut warm = WarmQueue::new();
    warm.enqueue_paths(&paths(&["a.dng", "b.svg"]));
    assert_eq!(warm.in_flight.as_deref(), Some("/import/a.dng"));
    assert!(warm.complete("/import/other.dng").is_none());
    assert_eq!(warm.in_flight.as_deref(), Some("/import/a.dng"));
    assert_eq!(warm.pending, vec!["/import/b.svg".to_string()]);
}

#[test]
fn images_are_queued_once() {
    let mut warm = WarmQueue::new();
    warm.enqueue_paths(&paths(&["a.dng", "b.svg", "a.dng", "b.svg", "c.jpg", "D.SVGZ"]));
    assert_eq!(warm.in_flight.as_deref(), Some("/import/a.dng"));
    assert_eq!(warm.pending, vec!["/import/b.svg".to_string(), "/import/D.SVGZ".to_string()]);
    assert!(warm.waits("/import/b.svg"));
    assert!(!warm.waits("/import/a.dng"));
}
