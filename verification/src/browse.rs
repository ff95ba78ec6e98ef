//! Decisions of the browsing screens: tabs, wrapped stepping through a
//! list, click pairing, the active collection after a delete, the name
//! submitted from the rename field, the position label and the Escape key.

use vstd::prelude::*;
use crate::text::{push_decimal, decimal, string_of, trim_text, trimmed, chars_of, extend_chars};

verus! {

/// The two screens.
#[derive(Debug, Clone, Copy, PartialEq, Eq, Structural)]
pub enum Tab {
    Library,
    Detail,
}

/// Two clicks on the same item closer than this form a double click.
pub const DOUBLE_CLICK_WINDOW_MS: u64 = 400;

/// The index one step forward or back in a list of `len` items, wrapping
/// at both ends.
pub open spec fn stepped_index(current: int, len: int, forward: bool) -> int {
    if forward {
        (current + 1) % len
    } else if current == 0 {
        len - 1
    } else {
        current - 1
    }
}

pub fn step_wrapped_index(current: usize, len: usize, forward: bool) -> (r: usize)
    requires
        forward ==> len > 0 && current < usize::MAX,
        !forward && current == 0 ==> len > 0,
    ensures
        r == stepped_index(current as int, len as int, forward),
        current < len ==> r < len,
{
    if forward {
        (current + 1) % len
    } else if current == 0 {
        len - 1
    } else {
        current - 1
    }
}

/// Stepping forward then back (or back then forward) returns to the
/// starting index of a list.
pub proof fn law_step_round_trip(current: int, len: int)
    requires
        0 <= current < len,
    ensures
        stepped_index(stepped_index(current, len, true), len, false) == current,
        stepped_index(stepped_index(current, len, false), len, true) == current,
{
    if current + 1 < len {
        assert((current + 1) % len == current + 1) by (nonlinear_arith)
            requires
                0 <= current + 1 < len,
        ;
    } else {
        assert((current + 1) % len == 0) by (nonlinear_arith)
            requires
                current + 1 == len,
                len > 0,
        ;
    }
    if current == 0 {
        assert(len % len == 0) by (nonlinear_arith)
            requires
                len > 0,
        ;
    } else {
        assert(current % len == current) by (nonlinear_arith)
            requires
                0 <= current < len,
        ;
    }
}

/// A stale position clamped into a list of `len` items; `None` for an
/// empty list.
pub fn clamped_index(index: usize, len: usize) -> (r: Option<usize>)
    ensures
        len == 0 ==> r is None,
        len > 0 ==> r == Some(if index < len { index } else { (len - 1) as usize }),
{
    if len == 0 {
        None
    } else if index < len - 1 {
        Some(index)
    } else {
        Some(len - 1)
    }
}

/// Whether a click on `index` at `now_ms` completes a double click after
/// `last`, the item and time of the previous unpaired click. Time that
/// runs backwards counts as no time.
pub open spec fn is_double_click(last: Option<(usize, u64)>, index: usize, now_ms: u64) -> bool {
    match last {
        Some((prev, at)) => prev == index && (if now_ms >= at { now_ms - at } else { 0 })
            < DOUBLE_CLICK_WINDOW_MS,
        None => false,
    }
}

/// Records a click: a double click clears the pending click, any other
/// click becomes the pending one.
pub fn is_double_click_event(last: &mut Option<(usize, u64)>, index: usize, now_ms: u64) -> (double: bool)
    ensures
        double == is_double_click(*old(last), index, now_ms),
        double ==> *final(last) == None::<(usize, u64)>,
        !double ==> *final(last) == Some((index, now_ms)),
{
    let double = match *last {
        Some((prev, at)) => {
            let elapsed = if now_ms >= at { now_ms - at } else { 0 };
            prev == index && elapsed < DOUBLE_CLICK_WINDOW_MS
        },
        None => false,
    };
    if double {
        *last = None;
    } else {
        *last = Some((index, now_ms));
    }
    double
}

/// The active collection after the collection at `deleted` was deleted:
/// cleared when it was the deleted one, moved down when it came after it.
pub open spec fn active_after_delete(active: Option<usize>, deleted: usize) -> Option<usize> {
    match active {
        Some(a) => if a == deleted {
            None
        } else if a > deleted {
            Some((a - 1) as usize)
        } else {
            Some(a)
        },
        None => None,
    }
}

pub fn active_collection_after_delete(active: Option<usize>, deleted: usize) -> (r: Option<usize>)
    ensures
        r == active_after_delete(active, deleted),
{
    match active {
        Some(a) => {
            if a == deleted {
                None
            } else if a > deleted {
                Some(a - 1)
            } else {
                Some(a)
            }
        },
        None => None,
    }
}

/// After a delete the active collection still names the collection it
/// named before (the one at its old position in the old list).
pub proof fn law_active_follows_its_collection<T>(before: Seq<T>, active: usize, deleted: usize)
    requires
        deleted < before.len(),
        active < before.len(),
    ensures
        active_after_delete(Some(active), deleted) matches Some(a) ==> (a < before.len() - 1
            && before.remove(deleted as int)[a as int] == before[active as int]),
        active_after_delete(Some(active), deleted) is None ==> active == deleted,
{
}

/// The name submitted from the rename field: the trimmed text, or `None`
/// when nothing is left, in which case the collection keeps its name.
pub fn collection_name_to_submit(buffer: &str) -> (r: Option<String>)
    ensures
        trimmed(buffer@).len() == 0 ==> r is None,
        trimmed(buffer@).len() > 0 ==> (r matches Some(name) && name@ == trimmed(buffer@)),
{
    let name = trim_text(buffer);
    if name.unicode_len() == 0 {
        None
    } else {
        Some(name)
    }
}

/// "  <position>/<total>", position counted from 1.
pub open spec fn position_label_text(index: nat, total: nat) -> Seq<char> {
    seq![' ', ' '] + decimal(index + 1) + seq!['/'] + decimal(total)
}

pub fn position_label(index: usize, total: usize) -> (r: String)
    requires
        index < usize::MAX,
    ensures
        r@ == position_label_text(index as nat, total as nat),
{
    let mut out: Vec<char> = Vec::new();
    out.push(' ');
    out.push(' ');
    push_decimal(&mut out, (index + 1) as u64);
    out.push('/');
    push_decimal(&mut out, total as u64);
    assert(out@ =~= position_label_text(index as nat, total as nat));
    string_of(&out)
}

/// "Photo - ", the start of most window titles.
pub open spec fn title_prefix() -> Seq<char> {
    seq!['P', 'h', 'o', 't', 'o', ' ', '-', ' ']
}

pub open spec fn library_word() -> Seq<char> {
    seq!['L', 'i', 'b', 'r', 'a', 'r', 'y']
}

/// The window title: on the library screen "Photo - Library", with the
/// photo count in brackets when there are photos; on the detail screen
/// "Photo - " and the open library entry's file name (`entry_name`), else
/// the directory navigator's current file name (`nav_name`, empty when it
/// has none), else "Photo".
pub open spec fn title_text(
    tab: Tab,
    library_len: nat,
    entry_name: Option<Seq<char>>,
    nav_name: Seq<char>,
) -> Seq<char> {
    match tab {
        Tab::Library => if library_len == 0 {
            title_prefix() + library_word()
        } else {
            title_prefix() + library_word() + seq![' ', '('] + decimal(library_len) + seq![')']
        },
        Tab::Detail => match entry_name {
            Some(n) => title_prefix() + n,
            None => if nav_name.len() > 0 {
                title_prefix() + nav_name
            } else {
                seq!['P', 'h', 'o', 't', 'o']
            },
        },
    }
}

fn push_title_start(out: &mut Vec<char>)
    ensures
        final(out)@ == old(out)@ + seq!['P', 'h', 'o', 't', 'o'],
{
    out.push('P');
    out.push('h');
    out.push('o');
    out.push('t');
    out.push('o');
}

pub fn window_title(tab: Tab, library_len: usize, entry_name: Option<&str>, nav_name: &str) -> (t: String)
    ensures
        t@ == title_text(
            tab,
            library_len as nat,
            match entry_name {
                Some(n) => Some(n@),
                None => None,
            },
            nav_name@,
        ),
{
    let mut out: Vec<char> = Vec::new();
    push_title_start(&mut out);
    match tab {
        Tab::Library => {
            out.push(' ');
            out.push('-');
            out.push(' ');
            out.push('L');
            out.push('i');
            out.push('b');
            out.push('r');
            out.push('a');
            out.push('r');
            out.push('y');
            if library_len > 0 {
                out.push(' ');
                out.push('(');
                push_decimal(&mut out, library_len as u64);
                out.push(')');
            }
        },
        Tab::Detail => {
            let name: Option<&str> = match entry_name {
                Some(n) => Some(n),
                None => if nav_name.unicode_len() > 0 {
                    Some(nav_name)
                } else {
                    None
                },
            };
            if let Some(n) = name {
                out.push(' ');
                out.push('-');
                out.push(' ');
                let cs = chars_of(n);
                extend_chars(&mut out, cs.as_slice());
            }
        },
    }
    let ghost e = match entry_name {
        Some(n) => Some(n@),
        None => None,
    };
    assert(out@ =~= title_text(tab, library_len as nat, e, nav_name@));
    string_of(&out)
}

/// What Escape does, the first that applies.
#[derive(Debug, Clone, Copy, PartialEq, Eq, Structural)]
pub enum EscapeAction {
    DismissContextMenu,
    CancelRename,
    CancelCrop,
    /// Leave a photo opened from a collection, back to the collection.
    ExitCollectionDetail,
    /// Leave the collection, back to the whole library.
    ExitCollectionView,
    BackToLibrary,
    Nothing,
}

pub open spec fn escape_decision(
    context_menu_open: bool,
    renaming: bool,
    tab: Tab,
    crop_mode: bool,
    in_collection_nav: bool,
    active_collection: bool,
) -> EscapeAction {
    if context_menu_open {
        EscapeAction::DismissContextMenu
    } else if renaming {
        EscapeAction::CancelRename
    } else if tab == Tab::Detail && crop_mode {
        EscapeAction::CancelCrop
    } else if tab == Tab::Detail && in_collection_nav {
        EscapeAction::ExitCollectionDetail
    } else if active_collection {
        EscapeAction::ExitCollectionView
    } else if tab == Tab::Detail {
        EscapeAction::BackToLibrary
    } else {
        EscapeAction::Nothing
    }
}

pub fn escape_action(
    context_menu_open: bool,
    renaming: bool,
    tab: Tab,
    crop_mode: bool,
    in_collection_nav: bool,
    active_collection: bool,
) -> (r: EscapeAction)
    ensures
        r == escape_decision(context_menu_open, renaming, tab, crop_mode, in_collection_nav, active_collection),
{
    if context_menu_open {
        EscapeAction::DismissContextMenu
    } else if renaming {
        EscapeAction::CancelRename
    } else if tab == Tab::Detail && crop_mode {
        EscapeAction::CancelCrop
    } else if tab == Tab::Detail && in_collection_nav {
        EscapeAction::ExitCollectionDetail
    } else if active_collection {
        EscapeAction::ExitCollectionView
    } else if tab == Tab::Detail {
        EscapeAction::BackToLibrary
    } else {
        EscapeAction::Nothing
    }
}

/// A key press, as far as the viewer's shortcuts tell keys apart.
#[derive(Debug, Clone, PartialEq, Eq)]
pub enum KeyInput {
    Escape,
    ArrowRight,
    ArrowLeft,
    Space,
    Backspace,
    Home,
    /// A key that types text, by the text it types.
    Character(String),
    Other,
}

/// What a shortcut asks for.
#[derive(Debug, Clone, Copy, PartialEq, Eq, Structural)]
pub enum KeyCommand {
    Escape,
    Next,
    Previous,
    Undo,
    Redo,
    Save,
    Open,
    /// Fit the image: zoom 1, no offset.
    FitZoom,
    ZoomIn,
    ZoomOut,
    ActualSize,
    Nothing,
}

pub open spec fn typed(key: KeyInput, text: Seq<char>) -> bool {
    key matches KeyInput::Character(c) && c@ == text
}

/// The shortcut a key press with these modifiers stands for on `tab`:
/// the first of the viewer's key bindings that applies.
pub open spec fn key_decision(key: KeyInput, command: bool, shift: bool, tab: Tab) -> KeyCommand {
    if key is Escape {
        KeyCommand::Escape
    } else if key is ArrowRight || key is Space {
        if tab == Tab::Detail { KeyCommand::Next } else { KeyCommand::Nothing }
    } else if key is ArrowLeft || key is Backspace {
        if tab == Tab::Detail { KeyCommand::Previous } else { KeyCommand::Nothing }
    } else if typed(key, "z"@) && command && !shift {
        KeyCommand::Undo
    } else if (typed(key, "z"@) && command && shift) || (typed(key, "y"@) && command) {
        KeyCommand::Redo
    } else if typed(key, "s"@) && command {
        KeyCommand::Save
    } else if typed(key, "o"@) && command {
        KeyCommand::Open
    } else if key is Character && tab == Tab::Detail {
        if typed(key, "f"@) || typed(key, "0"@) {
            KeyCommand::FitZoom
        } else if typed(key, "="@) || typed(key, "+"@) {
            KeyCommand::ZoomIn
        } else if typed(key, "-"@) || typed(key, "_"@) {
            KeyCommand::ZoomOut
        } else if typed(key, "1"@) {
            KeyCommand::ActualSize
        } else {
            KeyCommand::Nothing
        }
    } else if key is Home && tab == Tab::Detail {
        KeyCommand::FitZoom
    } else {
        KeyCommand::Nothing
    }
}

/// On the detail screen the arrow keys step through the images, whatever
/// modifiers are held: Right and Space go to the next image, Left and
/// Backspace to the previous one. On the library screen they do nothing.
pub proof fn law_arrow_keys_navigate(command: bool, shift: bool)
    ensures
        key_decision(KeyInput::ArrowRight, command, shift, Tab::Detail) == KeyCommand::Next,
        key_decision(KeyInput::Space, command, shift, Tab::Detail) == KeyCommand::Next,
        key_decision(KeyInput::ArrowLeft, command, shift, Tab::Detail) == KeyCommand::Previous,
        key_decision(KeyInput::Backspace, command, shift, Tab::Detail) == KeyCommand::Previous,
        key_decision(KeyInput::ArrowRight, command, shift, Tab::Library) == KeyCommand::Nothing,
        key_decision(KeyInput::Space, command, shift, Tab::Library) == KeyCommand::Nothing,
        key_decision(KeyInput::ArrowLeft, command, shift, Tab::Library) == KeyCommand::Nothing,
        key_decision(KeyInput::Backspace, command, shift, Tab::Library) == KeyCommand::Nothing,
{
}

/// Escape always means Escape, on either screen and with any modifiers.
pub proof fn law_escape_always_escapes(command: bool, shift: bool, tab: Tab)
    ensures
        key_decision(KeyInput::Escape, command, shift, tab) == KeyCommand::Escape,
{
}

/// The editing shortcuts, on either screen: Ctrl/Cmd+Z undoes,
/// Ctrl/Cmd+Shift+Z and Ctrl/Cmd+Y redo, Ctrl/Cmd+S saves, Ctrl/Cmd+O
/// opens; without the command modifier these letters do none of this.
pub proof fn law_editing_shortcuts(key: KeyInput, shift: bool, tab: Tab)
    ensures
        typed(key, "z"@) ==> key_decision(key, true, false, tab) == KeyCommand::Undo,
        typed(key, "z"@) ==> key_decision(key, true, true, tab) == KeyCommand::Redo,
        typed(key, "y"@) ==> key_decision(key, true, shift, tab) == KeyCommand::Redo,
        typed(key, "s"@) ==> key_decision(key, true, shift, tab) == KeyCommand::Save,
        typed(key, "o"@) ==> key_decision(key, true, shift, tab) == KeyCommand::Open,
        (typed(key, "z"@) || typed(key, "y"@) || typed(key, "s"@) || typed(key, "o"@)) ==> key_decision(
            key,
            false,
            shift,
            tab,
        ) == KeyCommand::Nothing,
{
    reveal_strlit("z");
    reveal_strlit("y");
    reveal_strlit("s");
    reveal_strlit("o");
    reveal_strlit("f");
    reveal_strlit("0");
    reveal_strlit("=");
    reveal_strlit("+");
    reveal_strlit("-");
    reveal_strlit("_");
    reveal_strlit("1");
    assert("z"@[0] == 'z' && "y"@[0] == 'y' && "s"@[0] == 's' && "o"@[0] == 'o');
    assert("z"@ != "y"@ && "z"@ != "s"@ && "z"@ != "o"@ && "y"@ != "s"@ && "y"@ != "o"@ && "s"@ != "o"@);
}

fn is_typed(key: &KeyInput, text: &str) -> (r: bool)
    ensures
        r == typed(*key, text@),
{
    match key {
        KeyInput::Character(c) => {
            let a = crate::text::chars_of(c.as_str());
            let b = crate::text::chars_of(text);
            crate::text::chars_equal(&a, &b)
        },
        _ => false,
    }
}

/// The viewer's key bindings.
pub fn key_command(key: &KeyInput, command: bool, shift: bool, tab: Tab) -> (r: KeyCommand)
    ensures
        r == key_decision(*key, command, shift, tab),
{
    let detail = match tab {
        Tab::Detail => true,
        Tab::Library => false,
    };
    match key {
        KeyInput::Escape => return KeyCommand::Escape,
        KeyInput::ArrowRight | KeyInput::Space => {
            return if detail { KeyCommand::Next } else { KeyCommand::Nothing };
        },
        KeyInput::ArrowLeft | KeyInput::Backspace => {
            return if detail { KeyCommand::Previous } else { KeyCommand::Nothing };
        },
        _ => {},
    }
    let z = is_typed(key, "z");
    if z && command && !shift {
        return KeyCommand::Undo;
    }
    if (z && command && shift) || (is_typed(key, "y") && command) {
        return KeyCommand::Redo;
    }
    if is_typed(key, "s") && command {
        return KeyCommand::Save;
    }
    if is_typed(key, "o") && command {
        return KeyCommand::Open;
    }
    match key {
        KeyInput::Character(_) => {
            if !detail {
                KeyCommand::Nothing
            } else if is_typed(key, "f") || is_typed(key, "0") {
                KeyCommand::FitZoom
            } else if is_typed(key, "=") || is_typed(key, "+") {
                KeyCommand::ZoomIn
            } else if is_typed(key, "-") || is_typed(key, "_") {
                KeyCommand::ZoomOut
            } else if is_typed(key, "1") {
                KeyCommand::ActualSize
            } else {
                KeyCommand::Nothing
            }
        },
        KeyInput::Home => if detail { KeyCommand::FitZoom } else { KeyCommand::Nothing },
        _ => KeyCommand::Nothing,
    }
}

/// Where Next or Previous moves in the detail view.
#[derive(Debug, Clone, Copy, PartialEq, Eq, Structural)]
pub enum DetailStep {
    /// To this photo of this collection.
    Collection(usize, usize),
    /// To this library entry.
    Library(usize),
    /// To the neighbour in the opened image's folder.
    Folder,
    /// Nowhere: the list it would step through is gone or empty.
    Stay,
}

pub open spec fn clamp_spec(index: int, len: int) -> int {
    if index < len { index } else { len - 1 }
}

/// The step through the list the detail view was opened from: a
/// collection, the library, else the opened image's folder. A stale
/// position is clamped into its list first; both ends wrap.
pub open spec fn detail_step_decision(
    collection_nav: Option<(usize, usize)>,
    collection_lens: Seq<usize>,
    library_index: Option<usize>,
    library_len: usize,
    forward: bool,
) -> DetailStep {
    match collection_nav {
        Some((c, p)) => if c < collection_lens.len() && collection_lens[c as int] > 0 {
            DetailStep::Collection(
                c,
                stepped_index(clamp_spec(p as int, collection_lens[c as int] as int), collection_lens[c as int] as int, forward)
                    as usize,
            )
        } else {
            DetailStep::Stay
        },
        None => match library_index {
            Some(l) => if library_len > 0 {
                DetailStep::Library(stepped_index(clamp_spec(l as int, library_len as int), library_len as int, forward) as usize)
            } else {
                DetailStep::Stay
            },
            None => DetailStep::Folder,
        },
    }
}

/// `collection_lens` holds the number of photos of each collection.
pub fn detail_step(
    collection_nav: Option<(usize, usize)>,
    collection_lens: &Vec<usize>,
    library_index: Option<usize>,
    library_len: usize,
    forward: bool,
) -> (r: DetailStep)
    ensures
        r == detail_step_decision(collection_nav, collection_lens@, library_index, library_len, forward),
{
    match collection_nav {
        Some((c, p)) => {
            if c < collection_lens.len() {
                match clamped_index(p, collection_lens[c]) {
                    Some(cur) => DetailStep::Collection(c, step_wrapped_index(cur, collection_lens[c], forward)),
                    None => DetailStep::Stay,
                }
            } else {
                DetailStep::Stay
            }
        },
        None => match library_index {
            Some(l) => match clamped_index(l, library_len) {
                Some(cur) => DetailStep::Library(step_wrapped_index(cur, library_len, forward)),
                None => DetailStep::Stay,
            },
            None => DetailStep::Folder,
        },
    }
}

} // verus!
