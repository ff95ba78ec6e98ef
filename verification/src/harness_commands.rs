//! The harness dispatcher's own rules: which paths a file dialog could
//! have produced, the library page window, `wait_idle` deadlines and when
//! the application counts as idle.

use vstd::prelude::*;
use crate::harness::HarnessFailure;
use crate::harness_input::refusal;
use crate::natural::views;
use crate::detail_load::DetailLoadStage;
use crate::text::{chars_of, extend_chars, push_zero_padded, string_of, zero_padded};

verus! {

fn refuse(id: u64, code: &str, message: Vec<char>) -> (f: HarnessFailure)
    ensures
        refusal(id, code@, message@, f),
{
    HarnessFailure { id, code: String::from_str(code), message: string_of(&message) }
}

/// `prefix` followed by `text`.
fn message_with(prefix: &str, text: &str) -> (m: Vec<char>)
    ensures
        m@ == prefix@ + text@,
{
    let mut m = chars_of(prefix);
    let t = chars_of(text);
    extend_chars(&mut m, &t);
    m
}

/// `open` accepts an existing path only: a file dialog can pick nothing
/// else.
pub fn open_verdict(id: u64, path: &str, exists: bool) -> (r: Result<(), HarnessFailure>)
    ensures
        exists ==> r is Ok,
        !exists ==> (r matches Err(f) && refusal(id, "invalid_params"@, "path does not exist: "@ + path@, f)),
{
    if exists {
        Ok(())
    } else {
        Err(refuse(id, "invalid_params", message_with("path does not exist: ", path)))
    }
}

/// `import_folder` accepts a directory only.
pub fn import_folder_verdict(id: u64, path: &str, is_dir: bool) -> (r: Result<(), HarnessFailure>)
    ensures
        is_dir ==> r is Ok,
        !is_dir ==> (r matches Err(f) && refusal(id, "invalid_params"@, "not a directory: "@ + path@, f)),
{
    if is_dir {
        Ok(())
    } else {
        Err(refuse(id, "invalid_params", message_with("not a directory: ", path)))
    }
}

/// The paths of `paths` that are not files, in order (`is_file[i]` tells
/// for `paths[i]`).
pub open spec fn missing_paths(paths: Seq<Seq<char>>, is_file: Seq<bool>) -> Seq<Seq<char>>
    decreases paths.len(),
{
    if paths.len() == 0 {
        Seq::empty()
    } else {
        let prev = missing_paths(paths.drop_last(), is_file.subrange(0, paths.len() - 1));
        if is_file[paths.len() - 1] {
            prev
        } else {
            prev.push(paths.last())
        }
    }
}

/// Texts joined with ", ".
pub open spec fn comma_joined(items: Seq<Seq<char>>) -> Seq<char>
    decreases items.len(),
{
    if items.len() == 0 {
        Seq::empty()
    } else if items.len() == 1 {
        items[0]
    } else {
        comma_joined(items.drop_last()) + ", "@ + items.last()
    }
}

/// `import_files` takes a non-empty list of existing files: what a file
/// dialog returns. Phantom paths would stay in the library with nothing in
/// the window to remove them.
pub fn import_files_verdict(id: u64, paths: &Vec<String>, is_file: &Vec<bool>) -> (r: Result<(), HarnessFailure>)
    requires
        is_file@.len() == paths@.len(),
    ensures
        paths@.len() == 0 ==> (r matches Err(f) && refusal(id, "invalid_params"@, "no paths given"@, f)),
        paths@.len() > 0 && missing_paths(views(paths@), is_file@).len() == 0 ==> r is Ok,
        paths@.len() > 0 && missing_paths(views(paths@), is_file@).len() > 0 ==> (r matches Err(f) && refusal(
            id,
            "invalid_params"@,
            "paths a file dialog could never produce (missing or not files): "@ + comma_joined(
                missing_paths(views(paths@), is_file@),
            ),
            f,
        )),
{
    if paths.len() == 0 {
        return Err(refuse(id, "invalid_params", chars_of("no paths given")));
    }
    let ghost all = views(paths@);
    let mut joined: Vec<char> = Vec::new();
    let mut count: usize = 0;
    let mut i: usize = 0;
    while i < paths.len()
        invariant
            i <= paths@.len(),
            is_file@.len() == paths@.len(),
            all == views(paths@),
            count == missing_paths(all.subrange(0, i as int), is_file@.subrange(0, i as int)).len(),
            joined@ == comma_joined(missing_paths(all.subrange(0, i as int), is_file@.subrange(0, i as int))),
            count <= i,
        decreases paths.len() - i,
    {
        let ghost pre = all.subrange(0, i + 1);
        let ghost pre_files = is_file@.subrange(0, i + 1);
        assert(pre.drop_last() == all.subrange(0, i as int));
        assert(pre_files.subrange(0, i as int) == is_file@.subrange(0, i as int));
        assert(pre.last() == paths@[i as int]@);
        let ghost prev = missing_paths(all.subrange(0, i as int), is_file@.subrange(0, i as int));
        if !is_file[i] {
            if count > 0 {
                joined.push(',');
                joined.push(' ');
            }
            let p = chars_of(paths[i].as_str());
            extend_chars(&mut joined, &p);
            proof {
                let now = prev.push(paths@[i as int]@);
                assert(now.drop_last() == prev);
                if count > 0 {
                    assert(joined@ =~= comma_joined(prev) + ", "@ + paths@[i as int]@) by {
                        reveal_strlit(", ");
                    }
                } else {
                    assert(prev.len() == 0);
                    assert(joined@ =~= paths@[i as int]@);
                }
            }
            count = count + 1;
        }
        i = i + 1;
    }
    assert(all.subrange(0, paths@.len() as int) == all);
    assert(is_file@.subrange(0, paths@.len() as int) == is_file@);
    if count == 0 {
        Ok(())
    } else {
        let mut msg = chars_of("paths a file dialog could never produce (missing or not files): ");
        extend_chars(&mut msg, &joined);
        Err(refuse(id, "invalid_params", msg))
    }
}

/// Entries a library page holds when no limit is given.
pub const DEFAULT_LIBRARY_PAGE_LIMIT: usize = 100;

/// The most entries one library page holds.
pub const MAX_LIBRARY_PAGE_LIMIT: usize = 1000;

/// The number of entries a page may hold: `limit`, 100 by default, never
/// more than 1000.
pub open spec fn page_limit(limit: Option<usize>) -> int {
    match limit {
        Some(l) => if l < MAX_LIBRARY_PAGE_LIMIT { l as int } else { MAX_LIBRARY_PAGE_LIMIT as int },
        None => DEFAULT_LIBRARY_PAGE_LIMIT as int,
    }
}

/// The window `[start, end)` of a library of `total` entries that the
/// page at `offset` shows.
pub fn library_page_bounds(total: usize, offset: usize, limit: Option<usize>) -> (r: (usize, usize))
    ensures
        r.0 == (if offset < total { offset } else { total }),
        r.1 == r.0 + (if total - r.0 < page_limit(limit) { total - r.0 } else { page_limit(limit) }),
{
    let lim = match limit {
        Some(l) => if l < MAX_LIBRARY_PAGE_LIMIT { l } else { MAX_LIBRARY_PAGE_LIMIT },
        None => DEFAULT_LIBRARY_PAGE_LIMIT,
    };
    let start = if offset < total { offset } else { total };
    let left = total - start;
    let n = if left < lim { left } else { lim };
    (start, start + n)
}

/// How long `wait_idle` waits when no timeout is given.
pub const DEFAULT_WAIT_IDLE_TIMEOUT_MS: u64 = 30_000;

/// The longest `wait_idle` waits.
pub const MAX_WAIT_IDLE_TIMEOUT_MS: u64 = 600_000;

/// The time a `wait_idle` request waits: the given timeout, 30 s by
/// default, at most 10 minutes.
pub fn wait_idle_timeout(timeout_ms: Option<u64>) -> (t: u64)
    ensures
        t == (match timeout_ms {
            Some(ms) => if ms < MAX_WAIT_IDLE_TIMEOUT_MS { ms } else { MAX_WAIT_IDLE_TIMEOUT_MS },
            None => DEFAULT_WAIT_IDLE_TIMEOUT_MS,
        }),
{
    match timeout_ms {
        Some(ms) => if ms < MAX_WAIT_IDLE_TIMEOUT_MS { ms } else { MAX_WAIT_IDLE_TIMEOUT_MS },
        None => DEFAULT_WAIT_IDLE_TIMEOUT_MS,
    }
}

/// The background work the application has in hand.
#[derive(Debug, Clone, Copy, PartialEq, Eq, Structural)]
pub struct PendingWork {
    pub detail_loading: bool,
    pub exif_loading: bool,
    pub save_in_flight: bool,
    pub persist_in_flight: bool,
    pub persist_queued: usize,
    pub owed_bakes: usize,
}

/// Idle: nothing loads, saves, persists or is owed. (Cache warming after
/// an import does not count.)
pub open spec fn is_idle(w: PendingWork) -> bool {
    !w.detail_loading && !w.exif_loading && !w.save_in_flight && !w.persist_in_flight
        && w.persist_queued == 0 && w.owed_bakes == 0
}

pub fn harness_is_idle(w: &PendingWork) -> (r: bool)
    ensures
        r == is_idle(*w),
{
    !w.detail_loading && !w.exif_loading && !w.save_in_flight && !w.persist_in_flight
        && w.persist_queued == 0 && w.owed_bakes == 0
}

/// What becomes of a `wait_idle` request at a poll.
#[derive(Debug, Clone, Copy, PartialEq, Eq, Structural)]
pub enum WaiterOutcome {
    /// Answered: the application is idle.
    Idle,
    /// Answered with a timeout: its deadline has passed.
    TimedOut,
    /// Still waiting.
    Keep,
}

pub fn waiter_outcome(idle: bool, now_ms: u64, deadline_ms: u64) -> (r: WaiterOutcome)
    ensures
        r == (if idle {
            WaiterOutcome::Idle
        } else if now_ms >= deadline_ms {
            WaiterOutcome::TimedOut
        } else {
            WaiterOutcome::Keep
        }),
{
    if idle {
        WaiterOutcome::Idle
    } else if now_ms >= deadline_ms {
        WaiterOutcome::TimedOut
    } else {
        WaiterOutcome::Keep
    }
}


/// Which image a `dump_render` writes.
#[derive(Debug, Clone, Copy, PartialEq, Eq, Structural)]
pub enum RenderSource {
    /// The loaded image with the visible edits.
    Current,
    /// The loaded image with no edits.
    Original,
}

impl RenderSource {
    /// The name reported for the source.
    pub fn name(self) -> (s: &'static str)
        ensures
            self == RenderSource::Current ==> s@ == "current"@,
            self == RenderSource::Original ==> s@ == "original"@,
    {
        match self {
            RenderSource::Current => "current",
            RenderSource::Original => "original",
        }
    }

    /// The label of the artifact file written for the source.
    pub fn artifact_label(self) -> (s: &'static str)
        ensures
            self == RenderSource::Current ==> s@ == "render-current"@,
            self == RenderSource::Original ==> s@ == "render-original"@,
    {
        match self {
            RenderSource::Current => "render-current",
            RenderSource::Original => "render-original",
        }
    }
}

/// The name reported for a load stage.
pub fn load_stage_name(stage: DetailLoadStage) -> (s: &'static str)
    ensures
        stage == DetailLoadStage::Idle ==> s@ == "idle"@,
        stage == DetailLoadStage::Loading ==> s@ == "loading"@,
        stage == DetailLoadStage::PreviewWhileLoading ==> s@ == "preview_while_loading"@,
        stage == DetailLoadStage::PreviewOnly ==> s@ == "preview_only"@,
{
    match stage {
        DetailLoadStage::Idle => "idle",
        DetailLoadStage::Loading => "loading",
        DetailLoadStage::PreviewWhileLoading => "preview_while_loading",
        DetailLoadStage::PreviewOnly => "preview_only",
    }
}

/// The path, inside the run directory, of artifact number `seq`:
/// "artifacts/" then the number in at least four digits, '-', the label and
/// ".png".
pub fn artifact_relative_path(seq: u64, label: &str) -> (r: String)
    ensures
        r@ == "artifacts/"@ + zero_padded(seq as nat, 4) + "-"@ + label@ + ".png"@,
{
    let mut out = chars_of("artifacts/");
    push_zero_padded(&mut out, seq, 4);
    extend_chars(&mut out, &chars_of("-"));
    extend_chars(&mut out, &chars_of(label));
    extend_chars(&mut out, &chars_of(".png"));
    string_of(&out)
}

/// The bound on a dumped render's larger side: the requested one kept
/// within 64..=16384; none when none is asked.
pub fn render_max_dim(max_dim: Option<u32>) -> (r: Option<u32>)
    ensures
        match max_dim {
            Some(d) => r == Some(if d < 64 { 64u32 } else if d > 16_384 { 16_384u32 } else { d }),
            None => r is None,
        },
{
    match max_dim {
        Some(d) => Some(if d < 64 { 64 } else if d > 16_384 { 16_384 } else { d }),
        None => None,
    }
}

} // verus!
