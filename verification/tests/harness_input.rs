use photo::browse::{escape_action, key_command, EscapeAction, KeyCommand, KeyInput, Tab};
use photo::harness_input::{control_enabled, harness_click, harness_key, harness_slider, ClickAction, HarnessKey};
use photo::sliders::{slider_changed, slider_released, SliderGesture, SliderKind, SliderRelease};

#[test]
fn set_slider_rejects_unknown_kind_and_missing_image() {
    let refused = harness_slider(7, "sharpness", Tab::Detail, true).unwrap_err();
    assert_eq!(refused.id, 7);
    assert_eq!(refused.code, "invalid_params");

    let refused = harness_slider(8, "exposure", Tab::Library, false).unwrap_err();
    assert_eq!(refused.id, 8);
    assert_eq!(refused.code, "unavailable");
}

#[test]
fn click_rejects_unknown_and_dialog_controls() {
    let enabled = control_enabled("warp_drive", Tab::Library, false, false);
    let refused = harness_click(12, "warp_drive", None, enabled, false).unwrap_err();
    assert_eq!(refused.code, "invalid_params");

    let enabled = control_enabled("add_folder", Tab::Library, false, false);
    let refused = harness_click(13, "add_folder", None, enabled, false).unwrap_err();
    assert_eq!(refused.code, "unsupported");
}

#[test]
fn key_escape_backs_out_of_detail_and_ctrl_o_is_refused() {
    let key = harness_key(14, "escape", &Vec::new()).unwrap();
    assert_eq!(key_command(&key.key, key.command, key.shift, Tab::Detail), KeyCommand::Escape);
    assert_eq!(
        escape_action(false, false, Tab::Detail, false, false, false),
        EscapeAction::BackToLibrary
    );

    let refused = harness_key(15, "o", &vec!["ctrl".to_string()]).unwrap_err();
    assert_eq!(refused.id, 15);
    assert_eq!(refused.code, "unsupported");
}

#[test]
fn click_refuses_controls_the_list_advertises_as_disabled() {
    let enabled = control_enabled("rotate_cw", Tab::Library, false, false);
    assert_eq!(enabled, Some(false));
    let refused = harness_click(40, "rotate_cw", None, enabled, false).unwrap_err();
    assert_eq!(refused.code, "unavailable");

    let enabled = control_enabled("back", Tab::Library, false, false);
    let refused = harness_click(41, "back", None, enabled, false).unwrap_err();
    assert_eq!(refused.code, "unavailable");
    assert_eq!(
        refused.message,
        "control \"back\" is currently disabled \u{2014} check `enabled` in the observe controls list"
    );
}

#[test]
fn clicks_name_the_actions_of_their_buttons() {
    let on = Some(true);
    assert_eq!(harness_click(1, "save", None, on, false), Ok(ClickAction::Save));
    assert_eq!(harness_click(1, "back", None, on, true), Ok(ClickAction::ExitCollectionDetail));
    assert_eq!(harness_click(1, "back", None, on, false), Ok(ClickAction::BackToLibrary));
    assert_eq!(harness_click(1, "rotate_ccw", None, on, false), Ok(ClickAction::RotateCounterclockwise));
    assert_eq!(
        harness_click(1, "crop_aspect", Some("Square".to_string()), on, false),
        Ok(ClickAction::CropAspect(true))
    );
    assert_eq!(
        harness_click(1, "lens_profile", Some("Auto".to_string()), on, false),
        Ok(ClickAction::LensProfile("Auto".to_string()))
    );
    let refused = harness_click(2, "crop_aspect", Some("Wide".to_string()), on, false).unwrap_err();
    assert_eq!(refused.message, "crop_aspect needs value \"Freeform\" or \"Square\", got Some(\"Wide\")");
    let refused = harness_click(3, "crop_aspect", None, on, false).unwrap_err();
    assert_eq!(refused.message, "crop_aspect needs value \"Freeform\" or \"Square\", got None");
    let refused = harness_click(4, "lens_profile", None, on, false).unwrap_err();
    assert_eq!(refused.code, "invalid_params");
    let refused = harness_click(5, "warp", None, None, false).unwrap_err();
    assert_eq!(refused.message, "unknown control \"warp\"; see the controls list in `observe`");
}

#[test]
fn keys_and_modifiers_are_read_case_blind() {
    assert_eq!(
        harness_key(1, "Z", &vec!["Ctrl".to_string(), "SHIFT".to_string()]),
        Ok(HarnessKey {
            key: KeyInput::Character("z".to_string()),
            command: true,
            shift: true,
            alt: false
        })
    );
    assert_eq!(harness_key(1, "ArrowLeft", &Vec::new()).unwrap().key, KeyInput::ArrowLeft);
    assert_eq!(harness_key(1, "esc", &vec!["alt".to_string()]).unwrap().alt, true);
    let refused = harness_key(2, "left", &vec!["Meta".to_string()]).unwrap_err();
    assert_eq!(refused.message, "unknown modifier \"meta\"; use ctrl, shift, or alt");
    let refused = harness_key(3, "PageUp", &Vec::new()).unwrap_err();
    assert_eq!(
        refused.message,
        "unknown key \"pageup\"; use a single character or escape/left/right/space/backspace/home"
    );
    assert!(harness_key(4, "o", &Vec::new()).is_ok());
}

#[test]
fn slider_names_are_matched_ignoring_case() {
    assert_eq!(harness_slider(1, "Exposure", Tab::Detail, true), Ok(SliderKind::Exposure));
    let refused = harness_slider(2, "sharpness", Tab::Detail, true).unwrap_err();
    assert_eq!(
        refused.message,
        "unknown slider \"sharpness\"; valid kinds: exposure, contrast, highlights, shadows, whites, blacks, temperature, tint, vibrance, saturation, clarity, dehaze"
    );
    assert_eq!(
        harness_slider(3, "tint", Tab::Detail, false).unwrap_err().message,
        "no image open in Detail \u{2014} sliders only exist there"
    );
}

#[test]
fn control_list_enables_by_screen() {
    assert_eq!(control_enabled("save", Tab::Detail, true, true), Some(true));
    assert_eq!(control_enabled("save", Tab::Detail, true, false), Some(false));
    assert_eq!(control_enabled("back", Tab::Detail, false, false), Some(true));
    assert_eq!(control_enabled("crop", Tab::Detail, true, false), Some(true));
    assert_eq!(control_enabled("crop", Tab::Detail, false, false), Some(false));
    assert_eq!(control_enabled("add_files", Tab::Library, false, false), Some(true));
    assert_eq!(control_enabled("zoom", Tab::Detail, true, true), None);
}


/// A harness drag: the release memory is cleared first, then two change
/// events and a release, as a real drag produces them.
fn harness_drag(g: &mut SliderGesture, kind: SliderKind, now_ms: u64) -> (bool, SliderRelease) {
    g.last_release = None;
    let first = slider_changed(g, kind);
    let second = slider_changed(g, kind);
    assert!(!first);
    (second, slider_released(g, kind, now_ms))
}

#[test]
fn consecutive_set_sliders_do_not_trigger_double_click_reset() {
    let mut g = SliderGesture { drag: None, last_release: None };
    assert_eq!(harness_drag(&mut g, SliderKind::Contrast, 1_000), (true, SliderRelease::Commit));
    assert_eq!(harness_drag(&mut g, SliderKind::Contrast, 1_050), (true, SliderRelease::Commit));
}

#[test]
fn slider_gestures_tell_drags_clicks_and_double_clicks_apart() {
    let mut g = SliderGesture { drag: None, last_release: None };
    // A click on the track: one change, then the release.
    assert!(!slider_changed(&mut g, SliderKind::Exposure));
    assert_eq!(slider_released(&mut g, SliderKind::Exposure, 100), SliderRelease::Nothing);
    // A second release soon after on the same slider resets it.
    assert_eq!(slider_released(&mut g, SliderKind::Exposure, 300), SliderRelease::ResetToZero);
    assert_eq!(g.last_release, None);
    // A drag: from the second change on the value applies.
    assert!(!slider_changed(&mut g, SliderKind::Tint));
    assert!(slider_changed(&mut g, SliderKind::Tint));
    assert!(slider_changed(&mut g, SliderKind::Tint));
    assert_eq!(slider_released(&mut g, SliderKind::Tint, 1_000), SliderRelease::Commit);
    // Switching sliders restarts the count; a late second release is no double click.
    assert!(!slider_changed(&mut g, SliderKind::Exposure));
    assert_eq!(slider_released(&mut g, SliderKind::Tint, 1_500), SliderRelease::Nothing);
}

#[test]
fn slider_double_click_release_resets_each_slider_kind() {
    let kinds = [
        SliderKind::Exposure,
        SliderKind::Contrast,
        SliderKind::Highlights,
        SliderKind::Shadows,
        SliderKind::Whites,
        SliderKind::Blacks,
        SliderKind::Temperature,
        SliderKind::Tint,
        SliderKind::Vibrance,
        SliderKind::Saturation,
        SliderKind::Clarity,
        SliderKind::Dehaze,
    ];
    for kind in kinds {
        let mut g = SliderGesture { drag: None, last_release: None };
        assert_eq!(slider_released(&mut g, kind, 1_000), SliderRelease::Nothing);
        assert_eq!(slider_released(&mut g, kind, 1_001), SliderRelease::ResetToZero);
    }
}
