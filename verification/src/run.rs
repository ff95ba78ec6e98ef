//! Harness runs: the run manifest, the run-directory layout, UTC time
//! stamps, run ids and session tokens.

use vstd::prelude::*;
use crate::calendar::{civil_date, civil_from_days, lemma_nonnegative_day_year};
use crate::paths::{join, join_path};
use crate::text::{
    all_digits, chars_of, decimal, digit_char, hex_fixed, is_digit, push_decimal, push_hex_fixed,
    push_zero_padded, slice_chars, string_of, suffix_from, zero_padded,
};

verus! {

/// Version of this program, as recorded in run manifests.
pub const APP_VERSION: &'static str = "0.1.0";
/// Version of the harness wire protocol.
pub const HARNESS_PROTOCOL_VERSION: u32 = 1;
/// Version of the run manifest layout.
pub const RUN_MANIFEST_SCHEMA_VERSION: u32 = 1;

/// What is recorded about one harness run.
#[derive(Debug, Clone)]
pub struct RunManifest {
    pub schema_version: u32,
    pub run_id: String,
    pub app_version: String,
    pub protocol_version: u32,
    pub sandboxed_storage: bool,
    pub started_at_epoch_ms: u64,
    pub started_at_utc: String,
    pub ended_at_epoch_ms: Option<u64>,
    pub ended_at_utc: Option<String>,
    /// `quit` when the client asked to stop; unset after an abnormal end.
    pub stop_reason: Option<String>,
    pub artifacts: Vec<String>,
}

/// Everything a client needs to connect to a running harness.
#[derive(Debug, Clone)]
pub struct SessionInfo {
    pub port: u16,
    pub token: String,
    pub pid: u32,
    pub run_id: String,
    pub protocol_version: u32,
}

/// Milliseconds since the Unix epoch, 0 if the clock is before it.
#[verifier::external_body]
fn epoch_ms_now() -> (ms: u64) {
    std::time::SystemTime::now().duration_since(std::time::UNIX_EPOCH).map(|d| d.as_millis() as u64).unwrap_or(0)
}

impl RunManifest {
    /// A manifest for a run starting at `now_ms`.
    pub fn started_at(run_id: String, sandboxed_storage: bool, now_ms: u64) -> (m: Self)
        ensures
            m.schema_version == RUN_MANIFEST_SCHEMA_VERSION,
            m.run_id@ == run_id@,
            m.app_version@ == APP_VERSION@,
            m.protocol_version == HARNESS_PROTOCOL_VERSION,
            m.sandboxed_storage == sandboxed_storage,
            m.started_at_epoch_ms == now_ms,
            m.started_at_utc@ == utc_text(now_ms),
            m.ended_at_epoch_ms is None,
            m.ended_at_utc is None,
            m.stop_reason is None,
            m.artifacts@.len() == 0,
    {
        RunManifest {
            schema_version: RUN_MANIFEST_SCHEMA_VERSION,
            run_id,
            app_version: String::from_str(APP_VERSION),
            protocol_version: HARNESS_PROTOCOL_VERSION,
            sandboxed_storage,
            started_at_epoch_ms: now_ms,
            started_at_utc: utc_string_from_epoch_ms(now_ms),
            ended_at_epoch_ms: None,
            ended_at_utc: None,
            stop_reason: None,
            artifacts: Vec::new(),
        }
    }

    /// A manifest for a run starting now.
    pub fn started(run_id: String, sandboxed_storage: bool) -> (m: Self)
        ensures
            m.schema_version == RUN_MANIFEST_SCHEMA_VERSION,
            m.run_id@ == run_id@,
            m.app_version@ == APP_VERSION@,
            m.protocol_version == HARNESS_PROTOCOL_VERSION,
            m.sandboxed_storage == sandboxed_storage,
            m.started_at_utc@ == utc_text(m.started_at_epoch_ms),
            m.ended_at_epoch_ms is None,
            m.ended_at_utc is None,
            m.stop_reason is None,
            m.artifacts@.len() == 0,
    {
        let now_ms = epoch_ms_now();
        Self::started_at(run_id, sandboxed_storage, now_ms)
    }

    /// Records the end of the run at `now_ms`.
    pub fn finalize_at(&mut self, stop_reason: &str, artifacts: Vec<String>, now_ms: u64)
        ensures
            final(self).ended_at_epoch_ms == Some(now_ms),
            final(self).ended_at_utc matches Some(u) && u@ == utc_text(now_ms),
            final(self).stop_reason matches Some(s) && s@ == stop_reason@,
            final(self).artifacts@ == artifacts@,
            final(self).schema_version == old(self).schema_version,
            final(self).run_id == old(self).run_id,
            final(self).app_version == old(self).app_version,
            final(self).protocol_version == old(self).protocol_version,
            final(self).sandboxed_storage == old(self).sandboxed_storage,
            final(self).started_at_epoch_ms == old(self).started_at_epoch_ms,
            final(self).started_at_utc == old(self).started_at_utc,
    {
        self.ended_at_epoch_ms = Some(now_ms);
        self.ended_at_utc = Some(utc_string_from_epoch_ms(now_ms));
        self.stop_reason = Some(String::from_str(stop_reason));
        self.artifacts = artifacts;
    }

    /// Records the end of the run now.
    pub fn finalize(&mut self, stop_reason: &str, artifacts: Vec<String>)
        ensures
            final(self).ended_at_epoch_ms matches Some(t) && final(self).ended_at_utc matches Some(u)
                && u@ == utc_text(t),
            final(self).stop_reason matches Some(s) && s@ == stop_reason@,
            final(self).artifacts@ == artifacts@,
            final(self).schema_version == old(self).schema_version,
            final(self).run_id == old(self).run_id,
            final(self).app_version == old(self).app_version,
            final(self).protocol_version == old(self).protocol_version,
            final(self).sandboxed_storage == old(self).sandboxed_storage,
            final(self).started_at_epoch_ms == old(self).started_at_epoch_ms,
            final(self).started_at_utc == old(self).started_at_utc,
    {
        let now_ms = epoch_ms_now();
        self.finalize_at(stop_reason, artifacts, now_ms);
    }
}

/// `<base_root>/tmp/harness-runs/<run_id>`.
pub open spec fn run_dir_path(base_root: Seq<char>, run_id: Seq<char>) -> Seq<char> {
    join(join(join(base_root, "tmp"@), "harness-runs"@), run_id)
}

pub fn harness_run_dir(base_root: &str, run_id: &str) -> (r: String)
    ensures
        r@ == run_dir_path(base_root@, run_id@),
{
    let tmp = join_path(base_root, "tmp");
    let runs = join_path(tmp.as_str(), "harness-runs");
    join_path(runs.as_str(), run_id)
}

/// Where a sandboxed run keeps what would otherwise go to the user's
/// application data and to the repository.
#[derive(Debug, Clone)]
pub struct SandboxStorageDirs {
    pub appdata: String,
    pub repo: String,
}

pub fn sandbox_storage_dirs(run_dir: &str) -> (r: SandboxStorageDirs)
    ensures
        r.appdata@ == join(join(run_dir@, "storage"@), "appdata"@),
        r.repo@ == join(join(run_dir@, "storage"@), "repo"@),
{
    let storage = join_path(run_dir, "storage");
    SandboxStorageDirs {
        appdata: join_path(storage.as_str(), "appdata"),
        repo: join_path(storage.as_str(), "repo"),
    }
}

/// The civil date and time of day of `epoch_ms`, to the second.
pub open spec fn utc_fields(epoch_ms: u64) -> (int, int, int, int, int, int) {
    let secs = epoch_ms / 1000;
    let days = secs / 86_400;
    let sod = secs % 86_400;
    let date = civil_date(days as int);
    (date.0, date.1, date.2, (sod / 3600) as int, ((sod % 3600) / 60) as int, (sod % 60) as int)
}

/// `YYYY-MM-DDTHH:MM:SSZ` (the year has more digits after 9999).
pub open spec fn utc_text(epoch_ms: u64) -> Seq<char> {
    let f = utc_fields(epoch_ms);
    zero_padded(f.0 as nat, 4) + seq!['-'] + zero_padded(f.1 as nat, 2) + seq!['-'] + zero_padded(
        f.2 as nat,
        2,
    ) + seq!['T'] + zero_padded(f.3 as nat, 2) + seq![':'] + zero_padded(f.4 as nat, 2) + seq![':']
        + zero_padded(f.5 as nat, 2) + seq!['Z']
}

/// The digits of `utc_text`, in order.
pub open spec fn utc_digits(epoch_ms: u64) -> Seq<char> {
    let f = utc_fields(epoch_ms);
    zero_padded(f.0 as nat, 4) + zero_padded(f.1 as nat, 2) + zero_padded(f.2 as nat, 2)
        + zero_padded(f.3 as nat, 2) + zero_padded(f.4 as nat, 2) + zero_padded(f.5 as nat, 2)
}

/// The UTC time stamp of `epoch_ms` (see `utc_text`).
pub fn utc_string_from_epoch_ms(epoch_ms: u64) -> (r: String)
    ensures
        r@ == utc_text(epoch_ms),
{
    let secs: u64 = epoch_ms / 1000;
    let days: u64 = secs / 86_400;
    let sod: u64 = secs % 86_400;
    let (year, month, day) = civil_from_days(days as i64);
    proof {
        lemma_nonnegative_day_year(days as int);
    }
    let mut out: Vec<char> = Vec::new();
    push_zero_padded(&mut out, year as u64, 4);
    out.push('-');
    push_zero_padded(&mut out, month as u64, 2);
    out.push('-');
    push_zero_padded(&mut out, day as u64, 2);
    out.push('T');
    push_zero_padded(&mut out, sod / 3600, 2);
    out.push(':');
    push_zero_padded(&mut out, (sod % 3600) / 60, 2);
    out.push(':');
    push_zero_padded(&mut out, sod % 60, 2);
    out.push('Z');
    assert(out@ =~= utc_text(epoch_ms));
    string_of(&out)
}

/// The digits of `s`, in order.
pub open spec fn digits_of(s: Seq<char>) -> Seq<char> {
    s.filter(|c: char| is_digit(c))
}

proof fn lemma_digits_of_all_digits(s: Seq<char>)
    requires
        all_digits(s),
    ensures
        digits_of(s) == s,
    decreases s.len(),
{
    reveal_with_fuel(Seq::filter, 1);
    if s.len() > 0 {
        lemma_digits_of_all_digits(s.drop_last());
        assert(s.drop_last().push(s.last()) =~= s);
    }
}

proof fn lemma_digits_of_separator(c: char)
    requires
        !is_digit(c),
    ensures
        digits_of(seq![c]) == Seq::<char>::empty(),
{
    reveal_with_fuel(Seq::filter, 2);
    assert(seq![c].drop_last() =~= Seq::<char>::empty());
}

proof fn lemma_decimal_all_digits(n: nat)
    ensures
        all_digits(decimal(n)),
    decreases n,
{
    if n >= 10 {
        lemma_decimal_all_digits(n / 10);
    }
}

proof fn lemma_zero_padded_all_digits(n: nat, width: nat)
    ensures
        all_digits(zero_padded(n, width)),
{
    lemma_decimal_all_digits(n);
}

proof fn lemma_digits_of_add(a: Seq<char>, b: Seq<char>)
    ensures
        digits_of(a + b) == digits_of(a) + digits_of(b),
{
    Seq::filter_distributes_over_add(a, b, |c: char| is_digit(c));
}

pub(crate) proof fn lemma_utc_digits(epoch_ms: u64)
    ensures
        digits_of(utc_text(epoch_ms)) == utc_digits(epoch_ms),
        utc_digits(epoch_ms).len() >= 14,
{
    let f = utc_fields(epoch_ms);
    let p0 = zero_padded(f.0 as nat, 4);
    let p1 = zero_padded(f.1 as nat, 2);
    let p2 = zero_padded(f.2 as nat, 2);
    let p3 = zero_padded(f.3 as nat, 2);
    let p4 = zero_padded(f.4 as nat, 2);
    let p5 = zero_padded(f.5 as nat, 2);
    lemma_zero_padded_all_digits(f.0 as nat, 4);
    lemma_zero_padded_all_digits(f.1 as nat, 2);
    lemma_zero_padded_all_digits(f.2 as nat, 2);
    lemma_zero_padded_all_digits(f.3 as nat, 2);
    lemma_zero_padded_all_digits(f.4 as nat, 2);
    lemma_zero_padded_all_digits(f.5 as nat, 2);
    lemma_digits_of_all_digits(p0);
    lemma_digits_of_all_digits(p1);
    lemma_digits_of_all_digits(p2);
    lemma_digits_of_all_digits(p3);
    lemma_digits_of_all_digits(p4);
    lemma_digits_of_all_digits(p5);
    lemma_digits_of_separator('-');
    lemma_digits_of_separator('T');
    lemma_digits_of_separator(':');
    lemma_digits_of_separator('Z');
    let dash = seq!['-'];
    let tee = seq!['T'];
    let colon = seq![':'];
    let zed = seq!['Z'];
    lemma_digits_of_add(p0, dash);
    lemma_digits_of_add(p0 + dash, p1);
    lemma_digits_of_add(p0 + dash + p1, dash);
    lemma_digits_of_add(p0 + dash + p1 + dash, p2);
    lemma_digits_of_add(p0 + dash + p1 + dash + p2, tee);
    lemma_digits_of_add(p0 + dash + p1 + dash + p2 + tee, p3);
    lemma_digits_of_add(p0 + dash + p1 + dash + p2 + tee + p3, colon);
    lemma_digits_of_add(p0 + dash + p1 + dash + p2 + tee + p3 + colon, p4);
    lemma_digits_of_add(p0 + dash + p1 + dash + p2 + tee + p3 + colon + p4, colon);
    lemma_digits_of_add(p0 + dash + p1 + dash + p2 + tee + p3 + colon + p4 + colon, p5);
    lemma_digits_of_add(p0 + dash + p1 + dash + p2 + tee + p3 + colon + p4 + colon + p5, zed);
    assert(digits_of(utc_text(epoch_ms)) =~= utc_digits(epoch_ms));
}

/// `YYYYMMDD-HHMMSSZ-<pid>`: the first eight digits of the time stamp, a
/// dash, the rest of its digits, "Z-" and the process id.
pub open spec fn run_id_text(epoch_ms: u64, pid: u32) -> Seq<char> {
    let digits = digits_of(utc_text(epoch_ms));
    digits.subrange(0, 8) + seq!['-'] + digits.subrange(8, digits.len() as int) + seq!['Z', '-']
        + decimal(pid as nat)
}

pub fn generate_run_id(epoch_ms: u64, pid: u32) -> (r: String)
    ensures
        r@ == run_id_text(epoch_ms, pid),
        r@ == utc_digits(epoch_ms).subrange(0, 8) + seq!['-'] + utc_digits(epoch_ms).subrange(
            8,
            utc_digits(epoch_ms).len() as int,
        ) + seq!['Z', '-'] + decimal(pid as nat),
{
    let utc = utc_string_from_epoch_ms(epoch_ms);
    let chars = chars_of(utc.as_str());
    let mut compact: Vec<char> = Vec::new();
    for i in 0..chars.len()
        invariant
            compact@ == digits_of(chars@.subrange(0, i as int)),
    {
        proof {
            reveal_with_fuel(Seq::filter, 1);
            assert(chars@.subrange(0, i + 1).drop_last() =~= chars@.subrange(0, i as int));
        }
        let c = chars[i];
        if '0' <= c && c <= '9' {
            compact.push(c);
        }
    }
    proof {
        assert(chars@.subrange(0, chars@.len() as int) =~= chars@);
        lemma_utc_digits(epoch_ms);
    }
    let head = slice_chars(&compact, 0, 8);
    let tail = suffix_from(&compact, 8);
    let mut out: Vec<char> = head;
    out.push('-');
    let mut i: usize = 0;
    while i < tail.len()
        invariant
            0 <= i <= tail.len(),
            out@ == compact@.subrange(0, 8) + seq!['-'] + tail@.subrange(0, i as int),
        decreases tail.len() - i,
    {
        out.push(tail[i]);
        assert(tail@.subrange(0, i + 1) =~= tail@.subrange(0, i as int).push(tail@[i as int]));
        i = i + 1;
    }
    assert(tail@.subrange(0, tail@.len() as int) =~= tail@);
    out.push('Z');
    out.push('-');
    push_decimal(&mut out, pid as u64);
    assert(out@ =~= run_id_text(epoch_ms, pid));
    string_of(&out)
}

pub open spec fn splitmix64_spec(state: u64) -> u64 {
    let z1 = vstd::wrapping::u64_specs::wrapping_add(state, 0x9E37_79B9_7F4A_7C15u64);
    let z2 = vstd::wrapping::u64_specs::wrapping_mul(z1 ^ (z1 >> 30u64), 0xBF58_476D_1CE4_E5B9u64);
    let z3 = vstd::wrapping::u64_specs::wrapping_mul(z2 ^ (z2 >> 27u64), 0x94D0_49BB_1331_11EBu64);
    z3 ^ (z3 >> 31u64)
}

/// The SplitMix64 output function.
pub fn splitmix64(state: u64) -> (r: u64)
    ensures
        r == splitmix64_spec(state),
{
    let mut z = state.wrapping_add(0x9E37_79B9_7F4A_7C15);
    z = (z ^ (z >> 30)).wrapping_mul(0xBF58_476D_1CE4_E5B9);
    z = (z ^ (z >> 27)).wrapping_mul(0x94D0_49BB_1331_11EB);
    z ^ (z >> 31)
}

/// The seed of the session token for a start time and process id.
pub open spec fn token_seed(epoch_ms: u64, pid: u32) -> u64 {
    (epoch_ms << 20u64) ^ ((pid as u64) << 1u64) ^ 0x9E37_79B9_7F4A_7C15u64
}

/// 32 lowercase hexadecimal digits: two SplitMix64 outputs of the seed.
pub open spec fn token_text(epoch_ms: u64, pid: u32) -> Seq<char> {
    let seed = token_seed(epoch_ms, pid);
    hex_fixed(splitmix64_spec(seed) as nat, 16) + hex_fixed(
        splitmix64_spec(seed ^ 0x5851_F42D_4C95_7F2Du64) as nat,
        16,
    )
}

/// A session token. It keeps other local processes from driving the
/// program by accident; it is no cryptographic boundary.
pub fn generate_token(epoch_ms: u64, pid: u32) -> (r: String)
    ensures
        r@ == token_text(epoch_ms, pid),
{
    let seed: u64 = (epoch_ms << 20) ^ ((pid as u64) << 1) ^ 0x9E37_79B9_7F4A_7C15;
    let mut out: Vec<char> = Vec::new();
    push_hex_fixed(&mut out, splitmix64(seed), 16);
    push_hex_fixed(&mut out, splitmix64(seed ^ 0x5851_F42D_4C95_7F2D), 16);
    string_of(&out)
}

proof fn lemma_hex_fixed_len(n: nat, width: nat)
    ensures
        hex_fixed(n, width).len() == width,
    decreases width,
{
    if width > 0 {
        lemma_hex_fixed_len(n / 16, (width - 1) as nat);
    }
}

/// A token is 32 characters long.
pub proof fn law_token_length(epoch_ms: u64, pid: u32)
    ensures
        token_text(epoch_ms, pid).len() == 32,
{
    let seed = token_seed(epoch_ms, pid);
    lemma_hex_fixed_len(splitmix64_spec(seed) as nat, 16);
    lemma_hex_fixed_len(splitmix64_spec(seed ^ 0x5851_F42D_4C95_7F2Du64) as nat, 16);
}

} // verus!
