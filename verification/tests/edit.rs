use photo::edit::{edited_save_path, UndoHistory};

#[test]
fn save_path_appends_edited() {
    let out = edited_save_path("/photos/sunset.jpg");
    assert_eq!(out, "/photos/sunset_edited.jpg");
}

#[test]
fn save_path_handles_no_extension() {
    let out = edited_save_path("/photos/image");
    assert_eq!(out, "/photos/image_edited");
}

#[test]
fn undo_then_redo_restores_the_committed_state() {
    let mut history = UndoHistory::new(1u32);
    history.current = 2;
    history.commit();
    assert!(history.can_undo());
    assert!(history.undo());
    assert_eq!(history.current, 1);
    assert!(history.can_redo());
    assert!(history.redo());
    assert_eq!(history.current, 2);
    assert!(!history.redo());
}

/// The slider values the history holds in the viewer, reduced to two.
#[derive(Debug, Clone, Copy, Default, PartialEq)]
struct Sliders {
    exposure: f32,
    contrast: f32,
}

impl Sliders {
    fn is_default(&self) -> bool {
        *self == Sliders::default()
    }
}

#[test]
fn undo_redo_basic_flow() {
    let mut h = UndoHistory::new(Sliders::default());
    assert!(!h.can_undo());
    assert!(!h.can_redo());

    h.current.exposure = 1.5;
    h.commit();
    assert!(h.can_undo());
    assert!(!h.can_redo());

    h.current.contrast = 50.0;
    h.commit();

    assert!(h.undo());
    assert_eq!(h.current.exposure, 1.5);
    assert_eq!(h.current.contrast, 0.0);
    assert!(h.can_redo());

    assert!(h.redo());
    assert_eq!(h.current.contrast, 50.0);
}

#[test]
fn undo_on_empty_returns_false() {
    let mut h = UndoHistory::new(Sliders::default());
    assert!(!h.undo());
}

#[test]
fn redo_on_empty_returns_false() {
    let mut h = UndoHistory::new(Sliders::default());
    assert!(!h.redo());
}

#[test]
fn new_edit_clears_redo_stack() {
    let mut h = UndoHistory::new(Sliders::default());
    h.current.exposure = 1.0;
    h.commit();
    h.current.exposure = 2.0;
    h.commit();

    h.undo();
    assert!(h.can_redo());

    h.current.exposure = 3.0;
    h.commit();
    assert!(!h.can_redo());
}

#[test]
fn reset_all_is_undoable() {
    let mut h = UndoHistory::new(Sliders::default());
    h.current.exposure = 2.5;
    h.current.contrast = -30.0;
    h.commit();

    h.reset_all(Sliders::default());
    assert!(h.current.is_default());
    assert!(h.can_undo());

    h.undo();
    assert_eq!(h.current.exposure, 2.5);
    assert_eq!(h.current.contrast, -30.0);
}

#[test]
fn live_state_is_read_and_set_without_touching_the_history() {
    let mut history = UndoHistory::new(1u32);
    assert_eq!(history.current(), 1);
    history.set_current(5);
    assert_eq!(history.current(), 5);
    assert!(!history.can_undo());
    history.commit();
    assert!(history.can_undo());
    history.undo();
    assert_eq!(history.current(), 1);
}
