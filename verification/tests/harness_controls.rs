use photo::browse::Tab;
use photo::harness_controls::{harness_controls, ControlKind};

#[test]
fn controls_list_sliders_buttons_choosers_and_keys_in_order() {
    let controls = harness_controls(Tab::Detail, true, false, true, 3);
    assert_eq!(controls.len(), 32);
    assert_eq!(controls[0].id, "exposure");
    assert_eq!(controls[0].label, "Exposure");
    assert_eq!(controls[0].kind, ControlKind::Slider);
    assert!(controls[0].enabled);
    assert_eq!(controls[6].label, "Temp");
    let save = &controls[12];
    assert_eq!((save.id.as_str(), save.kind, save.enabled), ("save", ControlKind::Button, false));
    assert_eq!(controls[14].label, "Rotate +90\u{b0}");
    assert_eq!(controls[16].label, "Finish Crop");
    assert_eq!(controls[19].kind, ControlKind::Toggle);
    assert_eq!(controls[21].id, "lens_profile");
    assert_eq!(controls[21].label, "Lens Profile (3 database profiles; pass the exact \"Maker Model\" string)");
    assert_eq!(controls[22].id, "escape");
    assert_eq!(controls[31].id, "-");
    assert!(controls.iter().skip(22).all(|c| c.kind == ControlKind::Key && c.enabled));
}

#[test]
fn controls_on_the_library_screen() {
    let controls = harness_controls(Tab::Library, false, false, false, 0);
    assert!(controls.iter().take(12).all(|c| !c.enabled));
    assert_eq!(controls[16].label, "Crop");
    let enabled: Vec<&str> = controls.iter().filter(|c| c.enabled).map(|c| c.id.as_str()).collect();
    assert_eq!(enabled, vec!["escape"]);
}
