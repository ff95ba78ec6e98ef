//! Names of the adjustment sliders.

use vstd::prelude::*;
use crate::text::{chars_of, string_of, to_ascii_lowercase, ascii_lowercase};

verus! {

/// One adjustment slider.
#[derive(Debug, Clone, Copy, PartialEq, Eq, Structural)]
pub enum SliderKind {
    Exposure,
    Contrast,
    Highlights,
    Shadows,
    Whites,
    Blacks,
    Temperature,
    Tint,
    Vibrance,
    Saturation,
    Clarity,
    Dehaze,
}

/// The lower-case name a slider is addressed by.
pub open spec fn slider_name(kind: SliderKind) -> Seq<char> {
    match kind {
        SliderKind::Exposure => "exposure"@,
        SliderKind::Contrast => "contrast"@,
        SliderKind::Highlights => "highlights"@,
        SliderKind::Shadows => "shadows"@,
        SliderKind::Whites => "whites"@,
        SliderKind::Blacks => "blacks"@,
        SliderKind::Temperature => "temperature"@,
        SliderKind::Tint => "tint"@,
        SliderKind::Vibrance => "vibrance"@,
        SliderKind::Saturation => "saturation"@,
        SliderKind::Clarity => "clarity"@,
        SliderKind::Dehaze => "dehaze"@,
    }
}

/// The label shown next to a slider.
pub open spec fn slider_label_text(kind: SliderKind) -> Seq<char> {
    match kind {
        SliderKind::Exposure => "Exposure"@,
        SliderKind::Contrast => "Contrast"@,
        SliderKind::Highlights => "Highlights"@,
        SliderKind::Shadows => "Shadows"@,
        SliderKind::Whites => "Whites"@,
        SliderKind::Blacks => "Blacks"@,
        SliderKind::Temperature => "Temp"@,
        SliderKind::Tint => "Tint"@,
        SliderKind::Vibrance => "Vibrance"@,
        SliderKind::Saturation => "Saturation"@,
        SliderKind::Clarity => "Clarity"@,
        SliderKind::Dehaze => "Dehaze"@,
    }
}

/// Every slider, in panel order.
pub open spec fn all_slider_kinds() -> Seq<SliderKind> {
    seq![
        SliderKind::Exposure, SliderKind::Contrast, SliderKind::Highlights, SliderKind::Shadows,
        SliderKind::Whites, SliderKind::Blacks, SliderKind::Temperature, SliderKind::Tint,
        SliderKind::Vibrance, SliderKind::Saturation, SliderKind::Clarity, SliderKind::Dehaze,
    ]
}

/// The slider whose name is `name` ignoring ASCII case, if any.
pub open spec fn slider_for_name(name: Seq<char>) -> Option<SliderKind> {
    let lowered = ascii_lowercase(name);
    if exists|i: int| 0 <= i < 12 && slider_name(#[trigger] all_slider_kinds()[i]) == lowered {
        Some(
            all_slider_kinds()[choose|i: int|
                0 <= i < 12 && slider_name(#[trigger] all_slider_kinds()[i]) == lowered],
        )
    } else {
        None
    }
}

/// The lower-case name of a slider.
pub fn slider_name_str(kind: SliderKind) -> (s: &'static str)
    ensures
        s@ == slider_name(kind),
{
    match kind {
        SliderKind::Exposure => "exposure",
        SliderKind::Contrast => "contrast",
        SliderKind::Highlights => "highlights",
        SliderKind::Shadows => "shadows",
        SliderKind::Whites => "whites",
        SliderKind::Blacks => "blacks",
        SliderKind::Temperature => "temperature",
        SliderKind::Tint => "tint",
        SliderKind::Vibrance => "vibrance",
        SliderKind::Saturation => "saturation",
        SliderKind::Clarity => "clarity",
        SliderKind::Dehaze => "dehaze",
    }
}

pub(crate) fn kind_at(i: usize) -> (k: SliderKind)
    requires
        i < 12,
    ensures
        k == all_slider_kinds()[i as int],
{
    match i {
        0 => SliderKind::Exposure,
        1 => SliderKind::Contrast,
        2 => SliderKind::Highlights,
        3 => SliderKind::Shadows,
        4 => SliderKind::Whites,
        5 => SliderKind::Blacks,
        6 => SliderKind::Temperature,
        7 => SliderKind::Tint,
        8 => SliderKind::Vibrance,
        9 => SliderKind::Saturation,
        10 => SliderKind::Clarity,
        _ => SliderKind::Dehaze,
    }
}

proof fn lemma_slider_names_distinct()
    ensures
        forall|i: int, j: int|
            0 <= i < 12 && 0 <= j < 12 && slider_name(#[trigger] all_slider_kinds()[i]) == slider_name(
                #[trigger] all_slider_kinds()[j],
            ) ==> i == j,
{
    reveal_strlit("exposure");
    reveal_strlit("contrast");
    reveal_strlit("highlights");
    reveal_strlit("shadows");
    reveal_strlit("whites");
    reveal_strlit("blacks");
    reveal_strlit("temperature");
    reveal_strlit("tint");
    reveal_strlit("vibrance");
    reveal_strlit("saturation");
    reveal_strlit("clarity");
    reveal_strlit("dehaze");
    assert forall|i: int, j: int|
        0 <= i < 12 && 0 <= j < 12 && slider_name(#[trigger] all_slider_kinds()[i]) == slider_name(
            #[trigger] all_slider_kinds()[j],
        ) implies i == j by {
        let a = slider_name(all_slider_kinds()[i]);
        let b = slider_name(all_slider_kinds()[j]);
        if i != j {
            assert(a.len() != b.len() || a[0] != b[0] || a[1] != b[1] || a[2] != b[2]);
        }
    }
}

/// Finds the slider named `name` (ASCII case is ignored).
pub fn parse_slider_kind(name: &str) -> (r: Option<SliderKind>)
    ensures
        r == slider_for_name(name@),
{
    let lowered = to_ascii_lowercase(&chars_of(name));
    proof { lemma_slider_names_distinct(); }
    let mut i: usize = 0;
    while i < 12
        invariant
            i <= 12,
            lowered@ == ascii_lowercase(name@),
            forall|j: int| 0 <= j < i ==> slider_name(#[trigger] all_slider_kinds()[j]) != lowered@,
        decreases 12 - i,
    {
        let k = kind_at(i);
        let candidate = chars_of(slider_name_str(k));
        if crate::text::chars_equal(&candidate, &lowered) {
            assert(slider_name(all_slider_kinds()[i as int]) == lowered@);
            proof {
                lemma_slider_names_distinct();
                let j = choose|j: int|
                    0 <= j < 12 && slider_name(#[trigger] all_slider_kinds()[j]) == lowered@;
                assert(slider_name(all_slider_kinds()[j]) == slider_name(all_slider_kinds()[i as int]));
                assert(j == i);
            }
            return Some(k);
        }
        i = i + 1;
    }
    None
}

/// The label shown next to a slider.
pub fn slider_label(kind: SliderKind) -> (s: &'static str)
    ensures
        s@ == slider_label_text(kind),
{
    match kind {
        SliderKind::Exposure => "Exposure",
        SliderKind::Contrast => "Contrast",
        SliderKind::Highlights => "Highlights",
        SliderKind::Shadows => "Shadows",
        SliderKind::Whites => "Whites",
        SliderKind::Blacks => "Blacks",
        SliderKind::Temperature => "Temp",
        SliderKind::Tint => "Tint",
        SliderKind::Vibrance => "Vibrance",
        SliderKind::Saturation => "Saturation",
        SliderKind::Clarity => "Clarity",
        SliderKind::Dehaze => "Dehaze",
    }
}

/// The valid names, comma separated, for error messages.
pub fn slider_names_list() -> (s: String)
    ensures
        s@ == slider_names_joined(12),
{
    let mut out: Vec<char> = Vec::new();
    let mut i: usize = 0;
    while i < 12
        invariant
            i <= 12,
            out@ == slider_names_joined(i as nat),
        decreases 12 - i,
    {
        if i > 0 {
            out.push(',');
            out.push(' ');
        }
        let name = chars_of(slider_name_str(kind_at(i)));
        crate::text::extend_chars(&mut out, &name);
        assert(out@ =~= slider_names_joined((i + 1) as nat));
        i = i + 1;
    }
    string_of(&out)
}

/// The first `n` slider names joined with ", ".
pub open spec fn slider_names_joined(n: nat) -> Seq<char>
    decreases n,
{
    if n == 0 {
        Seq::empty()
    } else if n == 1 {
        slider_name(all_slider_kinds()[0])
    } else {
        slider_names_joined((n - 1) as nat) + seq![',', ' '] + slider_name(all_slider_kinds()[n - 1])
    }
}

/// Every slider's own name finds that slider again.
pub proof fn law_slider_names_round_trip(kind: SliderKind)
    ensures
        slider_for_name(slider_name(kind)) == Some(kind),
{
    lemma_slider_names_distinct();
    reveal_strlit("exposure");
    reveal_strlit("contrast");
    reveal_strlit("highlights");
    reveal_strlit("shadows");
    reveal_strlit("whites");
    reveal_strlit("blacks");
    reveal_strlit("temperature");
    reveal_strlit("tint");
    reveal_strlit("vibrance");
    reveal_strlit("saturation");
    reveal_strlit("clarity");
    reveal_strlit("dehaze");
    let n = slider_name(kind);
    assert(ascii_lowercase(n) =~= n);
    let i: int = match kind {
        SliderKind::Exposure => 0,
        SliderKind::Contrast => 1,
        SliderKind::Highlights => 2,
        SliderKind::Shadows => 3,
        SliderKind::Whites => 4,
        SliderKind::Blacks => 5,
        SliderKind::Temperature => 6,
        SliderKind::Tint => 7,
        SliderKind::Vibrance => 8,
        SliderKind::Saturation => 9,
        SliderKind::Clarity => 10,
        SliderKind::Dehaze => 11,
    };
    assert(all_slider_kinds()[i] == kind);
}


/// The slider being dragged and how many change events it has sent.
pub struct SliderGesture {
    pub drag: Option<(SliderKind, u64)>,
    /// The slider last released and when (milliseconds).
    pub last_release: Option<(SliderKind, u64)>,
}

/// A change event of `kind` after `drag`: the drag it continues (or
/// starts), counted.
pub open spec fn dragged(drag: Option<(SliderKind, u64)>, kind: SliderKind) -> (SliderKind, u64) {
    match drag {
        Some((k, c)) => if k == kind {
            (kind, if c < u64::MAX { (c + 1) as u64 } else { u64::MAX })
        } else {
            (kind, 1u64)
        },
        None => (kind, 1u64),
    }
}

/// A slider change event. The value is applied from the second event of a
/// drag on: a lone event is a click on the track, not a drag.
pub fn slider_changed(g: &mut SliderGesture, kind: SliderKind) -> (apply: bool)
    ensures
        final(g).drag == Some(dragged(old(g).drag, kind)),
        final(g).last_release == old(g).last_release,
        apply == (dragged(old(g).drag, kind).1 >= 2),
{
    let count: u64 = match g.drag {
        Some((k, c)) => if k == kind {
            if c < u64::MAX { c + 1 } else { u64::MAX }
        } else {
            1
        },
        None => 1,
    };
    g.drag = Some((kind, count));
    count >= 2
}

/// What a slider release does.
#[derive(Debug, Clone, Copy, PartialEq, Eq, Structural)]
pub enum SliderRelease {
    /// A second release of the same slider within the double-click window:
    /// the slider goes back to zero, as a committed edit.
    ResetToZero,
    /// The end of a drag: the edit is committed.
    Commit,
    /// A click on the track: nothing to commit.
    Nothing,
}

/// Releases within this many milliseconds on the same slider form a
/// double click.
pub const SLIDER_DOUBLE_CLICK_MS: u64 = 400;

pub open spec fn release_is_double(last: Option<(SliderKind, u64)>, kind: SliderKind, now_ms: u64) -> bool {
    match last {
        Some((k, at)) => k == kind && (if now_ms >= at { now_ms - at } else { 0 }) < SLIDER_DOUBLE_CLICK_MS,
        None => false,
    }
}

/// A slider release at `now_ms`.
pub fn slider_released(g: &mut SliderGesture, kind: SliderKind, now_ms: u64) -> (r: SliderRelease)
    ensures
        final(g).drag is None,
        release_is_double(old(g).last_release, kind, now_ms) ==> r == SliderRelease::ResetToZero
            && final(g).last_release is None,
        !release_is_double(old(g).last_release, kind, now_ms) ==> final(g).last_release == Some((kind, now_ms)) && r
            == (if old(g).drag matches Some((k, c)) && k == kind && c >= 2 {
            SliderRelease::Commit
        } else {
            SliderRelease::Nothing
        }),
{
    let was_drag = match g.drag {
        Some((k, c)) => k == kind && c >= 2,
        None => false,
    };
    g.drag = None;
    let double = match g.last_release {
        Some((k, at)) => {
            let elapsed = if now_ms >= at { now_ms - at } else { 0 };
            k == kind && elapsed < SLIDER_DOUBLE_CLICK_MS
        },
        None => false,
    };
    if double {
        g.last_release = None;
        SliderRelease::ResetToZero
    } else {
        g.last_release = Some((kind, now_ms));
        if was_drag { SliderRelease::Commit } else { SliderRelease::Nothing }
    }
}

} // verus!
