//! The harness's action commands read as the user input they stand for:
//! a named key with modifiers, a click on a named control, a slider by
//! name. Each is either the input a real user could give, or the failure
//! the channel answers with.

use vstd::prelude::*;
use crate::browse::{KeyInput, Tab};
use crate::control::{debug_quoted, debug_text};
use crate::harness::HarnessFailure;
use crate::sliders::{parse_slider_kind, slider_for_name, slider_names_joined, slider_names_list, SliderKind};
use crate::text::{ascii_lowercase, chars_equal, chars_of, extend_chars, string_of, to_ascii_lowercase};

verus! {

/// A key press as the harness asks for it.
#[derive(Debug, Clone, PartialEq, Eq)]
pub struct HarnessKey {
    pub key: KeyInput,
    /// Ctrl (the platform's command modifier).
    pub command: bool,
    pub shift: bool,
    pub alt: bool,
}

/// The answer `(code, message)` the channel gives for a refused action.
pub open spec fn refusal(id: u64, code: Seq<char>, message: Seq<char>, f: HarnessFailure) -> bool {
    f.id == id && f.code@ == code && f.message@ == message
}

fn refuse(id: u64, code: &str, message: Vec<char>) -> (f: HarnessFailure)
    ensures
        refusal(id, code@, message@, f),
{
    HarnessFailure { id, code: String::from_str(code), message: string_of(&message) }
}

fn same(a: &[char], b: &str) -> (r: bool)
    ensures
        r == (a@ == b@),
{
    let bc = chars_of(b);
    chars_equal(a, &bc)
}

/// The modifier flags `(command, shift, alt)` that the modifier names set,
/// or the first name (lowercased) that is none of ctrl, control, command,
/// shift or alt.
pub open spec fn modifier_flags(mods: Seq<Seq<char>>) -> Result<(bool, bool, bool), Seq<char>>
    decreases mods.len(),
{
    if mods.len() == 0 {
        Ok((false, false, false))
    } else {
        match modifier_flags(mods.drop_last()) {
            Err(e) => Err(e),
            Ok((c, s, a)) => {
                let l = ascii_lowercase(mods.last());
                if l == "ctrl"@ || l == "control"@ || l == "command"@ {
                    Ok((true, s, a))
                } else if l == "shift"@ {
                    Ok((c, true, a))
                } else if l == "alt"@ {
                    Ok((c, s, true))
                } else {
                    Err(l)
                }
            },
        }
    }
}

/// Whether the (lowercased) key name `l` names the key `k`: a named key,
/// or the one character it types.
pub open spec fn names_key(l: Seq<char>, k: KeyInput) -> bool {
    if l == "escape"@ || l == "esc"@ {
        k == KeyInput::Escape
    } else if l == "left"@ || l == "arrowleft"@ {
        k == KeyInput::ArrowLeft
    } else if l == "right"@ || l == "arrowright"@ {
        k == KeyInput::ArrowRight
    } else if l == "space"@ {
        k == KeyInput::Space
    } else if l == "backspace"@ {
        k == KeyInput::Backspace
    } else if l == "home"@ {
        k == KeyInput::Home
    } else {
        l.len() == 1 && (k matches KeyInput::Character(c) && c@ == l)
    }
}

/// Whether `l` names any key.
pub open spec fn known_key_name(l: Seq<char>) -> bool {
    ||| l == "escape"@ || l == "esc"@ || l == "left"@ || l == "arrowleft"@
    ||| l == "right"@ || l == "arrowright"@ || l == "space"@ || l == "backspace"@
    ||| l == "home"@ || l.len() == 1
}

/// What `key` with modifiers `mods` comes to: the key press, or the
/// refusal (bad modifier first, then bad key name, then Ctrl+O, which
/// would open a native dialog).
pub open spec fn harness_key_ok(name: Seq<char>, mods: Seq<Seq<char>>, k: HarnessKey) -> bool {
    &&& modifier_flags(mods) matches Ok((c, s, a)) && k.command == c && k.shift == s && k.alt == a
    &&& names_key(ascii_lowercase(name), k.key)
    &&& !(k.command && ascii_lowercase(name) == "o"@)
}

pub open spec fn harness_key_refused(id: u64, name: Seq<char>, mods: Seq<Seq<char>>, f: HarnessFailure) -> bool {
    match modifier_flags(mods) {
        Err(bad) => refusal(
            id,
            "invalid_params"@,
            "unknown modifier "@ + debug_text(bad) + "; use ctrl, shift, or alt"@,
            f,
        ),
        Ok((c, _, _)) => if !known_key_name(ascii_lowercase(name)) {
            refusal(
                id,
                "invalid_params"@,
                "unknown key "@ + debug_text(ascii_lowercase(name))
                    + "; use a single character or escape/left/right/space/backspace/home"@,
                f,
            )
        } else {
            c && ascii_lowercase(name) == "o"@ && refusal(
                id,
                "unsupported"@,
                "ctrl+o opens a native file dialog the harness cannot drive; use the open command"@,
                f,
            )
        },
    }
}

fn modifiers_of(mods: &Vec<String>) -> (r: Result<(bool, bool, bool), Vec<char>>)
    ensures
        match r {
            Ok(flags) => modifier_flags(mods@.map_values(|m: String| m@)) == Ok::<(bool, bool, bool), Seq<char>>(flags),
            Err(bad) => modifier_flags(mods@.map_values(|m: String| m@)) == Err::<(bool, bool, bool), Seq<char>>(bad@),
        },
{
    let ghost all = mods@.map_values(|m: String| m@);
    let mut command = false;
    let mut shift = false;
    let mut alt = false;
    let mut i: usize = 0;
    while i < mods.len()
        invariant
            i <= mods@.len(),
            all == mods@.map_values(|m: String| m@),
            modifier_flags(all.subrange(0, i as int)) == Ok::<(bool, bool, bool), Seq<char>>((command, shift, alt)),
        decreases mods.len() - i,
    {
        let l = to_ascii_lowercase(&chars_of(mods[i].as_str()));
        let ghost pre = all.subrange(0, i + 1);
        assert(pre.drop_last() == all.subrange(0, i as int));
        assert(pre.last() == mods@[i as int]@);
        if same(&l, "ctrl") || same(&l, "control") || same(&l, "command") {
            command = true;
        } else if same(&l, "shift") {
            shift = true;
        } else if same(&l, "alt") {
            alt = true;
        } else {
            proof {
                lemma_error_persists(all, (i + 1) as int, l@);
            }
            return Err(l);
        }
        i = i + 1;
    }
    assert(all.subrange(0, mods@.len() as int) == all);
    Ok((command, shift, alt))
}

proof fn lemma_error_persists(all: Seq<Seq<char>>, n: int, bad: Seq<char>)
    requires
        0 <= n <= all.len(),
        modifier_flags(all.subrange(0, n)) == Err::<(bool, bool, bool), Seq<char>>(bad),
    ensures
        modifier_flags(all) == Err::<(bool, bool, bool), Seq<char>>(bad),
    decreases all.len() - n,
{
    if n == all.len() {
        assert(all.subrange(0, n) == all);
    } else {
        let pre = all.subrange(0, n + 1);
        assert(pre.drop_last() == all.subrange(0, n));
        lemma_error_persists(all, n + 1, bad);
    }
}

fn key_of(l: &Vec<char>) -> (r: Option<KeyInput>)
    ensures
        match r {
            Some(k) => names_key(l@, k),
            None => !known_key_name(l@),
        },
{
    if same(l, "escape") || same(l, "esc") {
        Some(KeyInput::Escape)
    } else if same(l, "left") || same(l, "arrowleft") {
        Some(KeyInput::ArrowLeft)
    } else if same(l, "right") || same(l, "arrowright") {
        Some(KeyInput::ArrowRight)
    } else if same(l, "space") {
        Some(KeyInput::Space)
    } else if same(l, "backspace") {
        Some(KeyInput::Backspace)
    } else if same(l, "home") {
        Some(KeyInput::Home)
    } else if l.len() == 1 {
        Some(KeyInput::Character(string_of(l)))
    } else {
        None
    }
}

/// The key press the harness `key` command asks for.
pub fn harness_key(id: u64, name: &str, mods: &Vec<String>) -> (r: Result<HarnessKey, HarnessFailure>)
    ensures
        match r {
            Ok(k) => harness_key_ok(name@, mods@.map_values(|m: String| m@), k),
            Err(f) => harness_key_refused(id, name@, mods@.map_values(|m: String| m@), f),
        },
{
    let (command, shift, alt) = match modifiers_of(mods) {
        Ok(flags) => flags,
        Err(bad) => {
            let mut msg = chars_of("unknown modifier ");
            let q = chars_of(debug_quoted(string_of(&bad).as_str()).as_str());
            extend_chars(&mut msg, &q);
            let tail = chars_of("; use ctrl, shift, or alt");
            extend_chars(&mut msg, &tail);
            return Err(refuse(id, "invalid_params", msg));
        },
    };
    let lowered = to_ascii_lowercase(&chars_of(name));
    let key = match key_of(&lowered) {
        Some(k) => k,
        None => {
            let mut msg = chars_of("unknown key ");
            let q = chars_of(debug_quoted(string_of(&lowered).as_str()).as_str());
            extend_chars(&mut msg, &q);
            let tail = chars_of("; use a single character or escape/left/right/space/backspace/home");
            extend_chars(&mut msg, &tail);
            return Err(refuse(id, "invalid_params", msg));
        },
    };
    if command && same(&lowered, "o") {
        let msg = chars_of("ctrl+o opens a native file dialog the harness cannot drive; use the open command");
        return Err(refuse(id, "unsupported", msg));
    }
    Ok(HarnessKey { key, command, shift, alt })
}

/// A click on a named control, as the user action it stands for.
#[derive(Debug, Clone, PartialEq, Eq)]
pub enum ClickAction {
    Save,
    /// "back" while a collection photo is open.
    ExitCollectionDetail,
    /// "back" otherwise.
    BackToLibrary,
    RotateClockwise,
    RotateCounterclockwise,
    ToggleLensCorrection,
    ToggleCropMode,
    ClearCrop,
    ResetAll,
    /// The crop aspect picked: `true` for Square, `false` for Freeform.
    CropAspect(bool),
    LensProfile(String),
}

/// `format!("{:?}")` of an optional text.
pub open spec fn debug_option(v: Option<Seq<char>>) -> Seq<char> {
    match v {
        Some(s) => "Some("@ + debug_text(s) + ")"@,
        None => "None"@,
    }
}

/// What a click on `control` (with its `value`) comes to: the action, or
/// the refusal. `enabled` is whether the observe list advertises the
/// control as enabled (`None` when it does not list it).
pub open spec fn click_decision(
    id: u64,
    control: Seq<char>,
    value: Option<Seq<char>>,
    enabled: Option<bool>,
    in_collection_nav: bool,
    r: Result<ClickAction, HarnessFailure>,
) -> bool {
    if enabled == Some(false) {
        r matches Err(f) && refusal(
            id,
            "unavailable"@,
            "control "@ + debug_text(control)
                + " is currently disabled \u{2014} check `enabled` in the observe controls list"@,
            f,
        )
    } else if control == "save"@ {
        r == Ok::<ClickAction, HarnessFailure>(ClickAction::Save)
    } else if control == "back"@ {
        r == Ok::<ClickAction, HarnessFailure>(
            if in_collection_nav { ClickAction::ExitCollectionDetail } else { ClickAction::BackToLibrary },
        )
    } else if control == "rotate_cw"@ {
        r == Ok::<ClickAction, HarnessFailure>(ClickAction::RotateClockwise)
    } else if control == "rotate_ccw"@ {
        r == Ok::<ClickAction, HarnessFailure>(ClickAction::RotateCounterclockwise)
    } else if control == "lens_correction"@ {
        r == Ok::<ClickAction, HarnessFailure>(ClickAction::ToggleLensCorrection)
    } else if control == "crop"@ {
        r == Ok::<ClickAction, HarnessFailure>(ClickAction::ToggleCropMode)
    } else if control == "crop_clear"@ {
        r == Ok::<ClickAction, HarnessFailure>(ClickAction::ClearCrop)
    } else if control == "reset_all"@ {
        r == Ok::<ClickAction, HarnessFailure>(ClickAction::ResetAll)
    } else if control == "crop_aspect"@ {
        if value == Some("Freeform"@) {
            r == Ok::<ClickAction, HarnessFailure>(ClickAction::CropAspect(false))
        } else if value == Some("Square"@) {
            r == Ok::<ClickAction, HarnessFailure>(ClickAction::CropAspect(true))
        } else {
            r matches Err(f) && refusal(
                id,
                "invalid_params"@,
                "crop_aspect needs value \"Freeform\" or \"Square\", got "@ + debug_option(value),
                f,
            )
        }
    } else if control == "lens_profile"@ {
        match value {
            Some(v) => r matches Ok(ClickAction::LensProfile(p)) && p@ == v,
            None => r matches Err(f) && refusal(
                id,
                "invalid_params"@,
                "lens_profile needs a value (\"Auto\", \"None\", or \"<Maker> <Model>\")"@,
                f,
            ),
        }
    } else if control == "add_folder"@ || control == "add_files"@ {
        r matches Err(f) && refusal(
            id,
            "unsupported"@,
            "opens a native file dialog the harness cannot drive; use import_files / import_folder"@,
            f,
        )
    } else {
        r matches Err(f) && refusal(
            id,
            "invalid_params"@,
            "unknown control "@ + debug_text(control) + "; see the controls list in `observe`"@,
            f,
        )
    }
}

pub open spec fn opt_text(v: Option<String>) -> Option<Seq<char>> {
    match v {
        Some(s) => Some(s@),
        None => None,
    }
}

/// The harness `click` command.
pub fn harness_click(
    id: u64,
    control: &str,
    value: Option<String>,
    enabled: Option<bool>,
    in_collection_nav: bool,
) -> (r: Result<ClickAction, HarnessFailure>)
    ensures
        click_decision(id, control@, opt_text(value), enabled, in_collection_nav, r),
{
    let c = chars_of(control);
    let disabled = match enabled {
        Some(e) => !e,
        None => false,
    };
    if disabled {
        let mut msg = chars_of("control ");
        let q = chars_of(debug_quoted(control).as_str());
        extend_chars(&mut msg, &q);
        let tail = chars_of(" is currently disabled \u{2014} check `enabled` in the observe controls list");
        extend_chars(&mut msg, &tail);
        return Err(refuse(id, "unavailable", msg));
    }
    if same(&c, "save") {
        Ok(ClickAction::Save)
    } else if same(&c, "back") {
        Ok(if in_collection_nav { ClickAction::ExitCollectionDetail } else { ClickAction::BackToLibrary })
    } else if same(&c, "rotate_cw") {
        Ok(ClickAction::RotateClockwise)
    } else if same(&c, "rotate_ccw") {
        Ok(ClickAction::RotateCounterclockwise)
    } else if same(&c, "lens_correction") {
        Ok(ClickAction::ToggleLensCorrection)
    } else if same(&c, "crop") {
        Ok(ClickAction::ToggleCropMode)
    } else if same(&c, "crop_clear") {
        Ok(ClickAction::ClearCrop)
    } else if same(&c, "reset_all") {
        Ok(ClickAction::ResetAll)
    } else if same(&c, "crop_aspect") {
        match value {
            Some(v) => {
                let vc = chars_of(v.as_str());
                if same(&vc, "Freeform") {
                    Ok(ClickAction::CropAspect(false))
                } else if same(&vc, "Square") {
                    Ok(ClickAction::CropAspect(true))
                } else {
                    let mut msg = chars_of("crop_aspect needs value \"Freeform\" or \"Square\", got Some(");
                    let q = chars_of(debug_quoted(v.as_str()).as_str());
                    extend_chars(&mut msg, &q);
                    msg.push(')');
                    proof {
                        reveal_strlit("crop_aspect needs value \"Freeform\" or \"Square\", got Some(");
                        reveal_strlit("crop_aspect needs value \"Freeform\" or \"Square\", got ");
                        reveal_strlit("Some(");
                        reveal_strlit(")");
                        assert(msg@ =~= "crop_aspect needs value \"Freeform\" or \"Square\", got "@ + debug_option(Some(v@)));
                    }
                    Err(refuse(id, "invalid_params", msg))
                }
            },
            None => {
                let msg = chars_of("crop_aspect needs value \"Freeform\" or \"Square\", got None");
                proof {
                    reveal_strlit("crop_aspect needs value \"Freeform\" or \"Square\", got None");
                    reveal_strlit("crop_aspect needs value \"Freeform\" or \"Square\", got ");
                    reveal_strlit("None");
                    assert(msg@ =~= "crop_aspect needs value \"Freeform\" or \"Square\", got "@ + debug_option(None));
                }
                Err(refuse(id, "invalid_params", msg))
            },
        }
    } else if same(&c, "lens_profile") {
        match value {
            Some(v) => Ok(ClickAction::LensProfile(v)),
            None => Err(refuse(
                id,
                "invalid_params",
                chars_of("lens_profile needs a value (\"Auto\", \"None\", or \"<Maker> <Model>\")"),
            )),
        }
    } else if same(&c, "add_folder") || same(&c, "add_files") {
        Err(refuse(
            id,
            "unsupported",
            chars_of("opens a native file dialog the harness cannot drive; use import_files / import_folder"),
        ))
    } else {
        let mut msg = chars_of("unknown control ");
        let q = chars_of(debug_quoted(control).as_str());
        extend_chars(&mut msg, &q);
        let tail = chars_of("; see the controls list in `observe`");
        extend_chars(&mut msg, &tail);
        Err(refuse(id, "invalid_params", msg))
    }
}

/// The slider the harness `set_slider` command moves, or its refusal: an
/// unknown name first, then no image open in the detail view.
pub fn harness_slider(id: u64, kind: &str, tab: Tab, image_open: bool) -> (r: Result<SliderKind, HarnessFailure>)
    ensures
        match slider_for_name(kind@) {
            None => r matches Err(f) && refusal(
                id,
                "invalid_params"@,
                "unknown slider "@ + debug_text(kind@) + "; valid kinds: "@ + slider_names_joined(12),
                f,
            ),
            Some(k) => if tab == Tab::Detail && image_open {
                r == Ok::<SliderKind, HarnessFailure>(k)
            } else {
                r matches Err(f) && refusal(
                    id,
                    "unavailable"@,
                    "no image open in Detail \u{2014} sliders only exist there"@,
                    f,
                )
            },
        },
{
    match parse_slider_kind(kind) {
        None => {
            let mut msg = chars_of("unknown slider ");
            let q = chars_of(debug_quoted(kind).as_str());
            extend_chars(&mut msg, &q);
            let sep = chars_of("; valid kinds: ");
            extend_chars(&mut msg, &sep);
            let names = chars_of(slider_names_list().as_str());
            extend_chars(&mut msg, &names);
            Err(refuse(id, "invalid_params", msg))
        },
        Some(k) => {
            let detail = match tab {
                Tab::Detail => true,
                Tab::Library => false,
            };
            if detail && image_open {
                Ok(k)
            } else {
                Err(refuse(id, "unavailable", chars_of("no image open in Detail \u{2014} sliders only exist there")))
            }
        },
    }
}

/// Whether the observe list advertises `control` as enabled: `save` when
/// there is something to save, `back` on the detail view, the editing
/// controls with an image open there, the dialog openers always (they are
/// refused with an explanation); `None` for a name it does not list.
pub open spec fn control_enabled_spec(control: Seq<char>, tab: Tab, image_open: bool, can_save: bool) -> Option<bool> {
    if control == "save"@ {
        Some(can_save)
    } else if control == "back"@ {
        Some(tab == Tab::Detail)
    } else if control == "rotate_cw"@ || control == "rotate_ccw"@ || control == "lens_correction"@
        || control == "crop"@ || control == "crop_clear"@ || control == "reset_all"@
        || control == "crop_aspect"@ || control == "lens_profile"@ {
        Some(tab == Tab::Detail && image_open)
    } else if control == "add_folder"@ || control == "add_files"@ {
        Some(true)
    } else {
        None
    }
}

pub fn control_enabled(control: &str, tab: Tab, image_open: bool, can_save: bool) -> (r: Option<bool>)
    ensures
        r == control_enabled_spec(control@, tab, image_open, can_save),
{
    let c = chars_of(control);
    let detail = match tab {
        Tab::Detail => true,
        Tab::Library => false,
    };
    if same(&c, "save") {
        Some(can_save)
    } else if same(&c, "back") {
        Some(detail)
    } else if same(&c, "rotate_cw") || same(&c, "rotate_ccw") || same(&c, "lens_correction")
        || same(&c, "crop") || same(&c, "crop_clear") || same(&c, "reset_all")
        || same(&c, "crop_aspect") || same(&c, "lens_profile") {
        Some(detail && image_open)
    } else if same(&c, "add_folder") || same(&c, "add_files") {
        Some(true)
    } else {
        None
    }
}

} // verus!
