//! The controls the harness reports to a client: each control's id, kind,
//! label and whether it can be used now. (Slider ranges, steps and values
//! are floating point and are added by the caller.)

use vstd::prelude::*;
use crate::browse::Tab;
use crate::sliders::{all_slider_kinds, kind_at, slider_label, slider_label_text, slider_name, slider_name_str};
use crate::text::{chars_of, decimal, extend_chars, push_decimal, string_of};

verus! {

/// What sort of control an entry is.
#[derive(Debug, Clone, Copy, PartialEq, Eq, Structural)]
pub enum ControlKind {
    Slider,
    Button,
    Toggle,
    Select,
    Key,
}

/// One reported control.
pub struct ControlEntry {
    pub id: String,
    pub kind: ControlKind,
    pub label: String,
    pub enabled: bool,
}

pub struct ControlEntryView {
    pub id: Seq<char>,
    pub kind: ControlKind,
    pub label: Seq<char>,
    pub enabled: bool,
}

impl View for ControlEntry {
    type V = ControlEntryView;

    open spec fn view(&self) -> ControlEntryView {
        ControlEntryView { id: self.id@, kind: self.kind, label: self.label@, enabled: self.enabled }
    }
}

pub open spec fn control(id: Seq<char>, kind: ControlKind, label: Seq<char>, enabled: bool) -> ControlEntryView {
    ControlEntryView { id, kind, label, enabled }
}

pub open spec fn entry_views(s: Seq<ControlEntry>) -> Seq<ControlEntryView> {
    s.map_values(|e: ControlEntry| e@)
}

/// The lens profile chooser's label, with the size of the database.
pub open spec fn lens_profile_label(lens_profiles: nat) -> Seq<char> {
    "Lens Profile ("@ + decimal(lens_profiles) + " database profiles; pass the exact \"Maker Model\" string)"@
}

/// One slider control per slider, in panel order.
pub open spec fn slider_controls(n: nat, active: bool) -> Seq<ControlEntryView> {
    Seq::new(n, |i: int| control(slider_name(all_slider_kinds()[i]), ControlKind::Slider, slider_label_text(all_slider_kinds()[i]), active))
}

/// The reported controls: the sliders, the editing buttons, the lens
/// toggle, the two choosers and the keyboard keys. Editing controls can be
/// used on the detail screen with an image open, "save" when a save request
/// can be made, "back" and the navigation keys on the detail screen, and
/// Escape always.
pub open spec fn control_list(tab: Tab, image_open: bool, can_save: bool, crop_mode: bool, lens_profiles: nat) -> Seq<ControlEntryView> {
    let detail = tab == Tab::Detail;
    let active = detail && image_open;
    slider_controls(12, active) + seq![
        control("save"@, ControlKind::Button, "Save"@, can_save),
        control("back"@, ControlKind::Button, "Back to Library"@, detail),
        control("rotate_cw"@, ControlKind::Button, "Rotate +90°"@, active),
        control("rotate_ccw"@, ControlKind::Button, "Rotate -90°"@, active),
        control("crop"@, ControlKind::Button, (if crop_mode { "Finish Crop"@ } else { "Crop"@ }), active),
        control("crop_clear"@, ControlKind::Button, "Clear Crop"@, active),
        control("reset_all"@, ControlKind::Button, "Reset All"@, active),
        control("lens_correction"@, ControlKind::Toggle, "Lens Correction"@, active),
        control("crop_aspect"@, ControlKind::Select, "Crop Aspect"@, active),
        control("lens_profile"@, ControlKind::Select, lens_profile_label(lens_profiles), active),
        control("escape"@, ControlKind::Key, "Back / cancel crop / dismiss"@, true),
        control("right"@, ControlKind::Key, "Next image (also: space)"@, detail),
        control("left"@, ControlKind::Key, "Previous image (also: backspace)"@, detail),
        control("z+ctrl"@, ControlKind::Key, "Undo"@, active),
        control("y+ctrl"@, ControlKind::Key, "Redo"@, active),
        control("s+ctrl"@, ControlKind::Key, "Save edited copy"@, active),
        control("f"@, ControlKind::Key, "Fit to window (also: 0, home)"@, detail),
        control("1"@, ControlKind::Key, "Actual size"@, detail),
        control("="@, ControlKind::Key, "Zoom in (also: +)"@, detail),
        control("-"@, ControlKind::Key, "Zoom out (also: _)"@, detail),
    ]
}

fn lens_profile_label_string(lens_profiles: usize) -> (s: String)
    ensures
        s@ == lens_profile_label(lens_profiles as nat),
{
    let mut out = chars_of("Lens Profile (");
    push_decimal(&mut out, lens_profiles as u64);
    let tail = chars_of(" database profiles; pass the exact \"Maker Model\" string)");
    extend_chars(&mut out, &tail);
    string_of(&out)
}

pub fn harness_controls(tab: Tab, image_open: bool, can_save: bool, crop_mode: bool, lens_profiles: usize) -> (r: Vec<ControlEntry>)
    ensures
        entry_views(r@) == control_list(tab, image_open, can_save, crop_mode, lens_profiles as nat),
{
    let detail = match tab {
        Tab::Detail => true,
        Tab::Library => false,
    };
    let active = detail && image_open;
    let mut out: Vec<ControlEntry> = Vec::new();
    let mut i: usize = 0;
    while i < 12
        invariant
            i <= 12,
            entry_views(out@) == slider_controls(i as nat, active),
        decreases 12 - i,
    {
        let kind = kind_at(i);
        let e = ControlEntry { id: String::from_str(slider_name_str(kind)), kind: ControlKind::Slider, label: String::from_str(slider_label(kind)), enabled: active };
        assert(e@ == slider_controls((i + 1) as nat, active)[i as int]);
        let ghost before = out@;
        out.push(e);
        assert(entry_views(out@) =~= entry_views(before).push(e@));
        assert(entry_views(out@) =~= slider_controls((i + 1) as nat, active));
        i = i + 1;
    }
    let ghost sliders = entry_views(out@);
    let lens_label = lens_profile_label_string(lens_profiles);
    out.push(ControlEntry { id: String::from_str("save"), kind: ControlKind::Button, label: String::from_str("Save"), enabled: can_save });
    out.push(ControlEntry { id: String::from_str("back"), kind: ControlKind::Button, label: String::from_str("Back to Library"), enabled: detail });
    out.push(ControlEntry { id: String::from_str("rotate_cw"), kind: ControlKind::Button, label: String::from_str("Rotate +90°"), enabled: active });
    out.push(ControlEntry { id: String::from_str("rotate_ccw"), kind: ControlKind::Button, label: String::from_str("Rotate -90°"), enabled: active });
    out.push(ControlEntry { id: String::from_str("crop"), kind: ControlKind::Button, label: String::from_str(if crop_mode { "Finish Crop" } else { "Crop" }), enabled: active });
    out.push(ControlEntry { id: String::from_str("crop_clear"), kind: ControlKind::Button, label: String::from_str("Clear Crop"), enabled: active });
    out.push(ControlEntry { id: String::from_str("reset_all"), kind: ControlKind::Button, label: String::from_str("Reset All"), enabled: active });
    out.push(ControlEntry { id: String::from_str("lens_correction"), kind: ControlKind::Toggle, label: String::from_str("Lens Correction"), enabled: active });
    out.push(ControlEntry { id: String::from_str("crop_aspect"), kind: ControlKind::Select, label: String::from_str("Crop Aspect"), enabled: active });
    out.push(ControlEntry { id: String::from_str("lens_profile"), kind: ControlKind::Select, label: lens_label, enabled: active });
    out.push(ControlEntry { id: String::from_str("escape"), kind: ControlKind::Key, label: String::from_str("Back / cancel crop / dismiss"), enabled: true });
    out.push(ControlEntry { id: String::from_str("right"), kind: ControlKind::Key, label: String::from_str("Next image (also: space)"), enabled: detail });
    out.push(ControlEntry { id: String::from_str("left"), kind: ControlKind::Key, label: String::from_str("Previous image (also: backspace)"), enabled: detail });
    out.push(ControlEntry { id: String::from_str("z+ctrl"), kind: ControlKind::Key, label: String::from_str("Undo"), enabled: active });
    out.push(ControlEntry { id: String::from_str("y+ctrl"), kind: ControlKind::Key, label: String::from_str("Redo"), enabled: active });
    out.push(ControlEntry { id: String::from_str("s+ctrl"), kind: ControlKind::Key, label: String::from_str("Save edited copy"), enabled: active });
    out.push(ControlEntry { id: String::from_str("f"), kind: ControlKind::Key, label: String::from_str("Fit to window (also: 0, home)"), enabled: detail });
    out.push(ControlEntry { id: String::from_str("1"), kind: ControlKind::Key, label: String::from_str("Actual size"), enabled: detail });
    out.push(ControlEntry { id: String::from_str("="), kind: ControlKind::Key, label: String::from_str("Zoom in (also: +)"), enabled: detail });
    out.push(ControlEntry { id: String::from_str("-"), kind: ControlKind::Key, label: String::from_str("Zoom out (also: _)"), enabled: detail });
    assert(entry_views(out@) =~= control_list(tab, image_open, can_save, crop_mode, lens_profiles as nat));
    out
}

} // verus!
