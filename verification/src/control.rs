//! Argument parsing for the harness control client: global flags, then a
//! command with optional JSON parameters, or `script <file>`.

use vstd::prelude::*;
use crate::text::{chars_equal, chars_of, extend_chars, parse_u64, parse_u64_spec, starts_with, string_of, suffix_from};
use crate::paths::{join, join_path};
use crate::launch::starts_with_seq;
use crate::json::{
    json_bool_at, json_bool_field, json_parse_outcome, json_str_at, json_str_field,
    json_u64_at, json_u64_field, opt_view, outcome_view, parse_json, parsed_object,
    json_empty_object, json_object_with_u64, json_object_with_str, json_object_with_json, json_insert_u64_text,
    json_insert_json_text, json_nesting,
};
use crate::library::{raw_lines, split_lines};
use crate::natural::views;
use crate::text::{trim_text, trimmed};

verus! {

/// Response timeout when `--timeout-ms` is not given.
pub const DEFAULT_TIMEOUT_MS: u64 = 120_000;

/// What the client was asked to do.
#[derive(Debug, Clone, PartialEq)]
pub enum Mode {
    Command { cmd: String, params: Option<String> },
    Script { path: String },
}

/// A parsed command line.
#[derive(Debug, Clone, PartialEq)]
pub struct Invocation {
    pub run_dir: Option<String>,
    pub timeout_ms: u64,
    pub keep_going: bool,
    pub mode: Mode,
}

/// `Debug` rendering of a string (quoted and escaped), as `format!("{:?}")`
/// produces it.
pub uninterp spec fn debug_text(s: Seq<char>) -> Seq<char>;

/// `format!("{s:?}")`: the quoted, escaped form of `s`. Its result is named,
/// not spelled out.
#[verifier::external_body]
pub(crate) fn debug_quoted(s: &str) -> (r: String)
    ensures
        r@ == debug_text(s@),
{
    format!("{s:?}")
}

/// Flags read so far and the positional arguments collected.
pub struct FlagState {
    pub run_dir: Option<Seq<char>>,
    pub timeout_ms: u64,
    pub keep_going: bool,
    pub positional: Seq<Seq<char>>,
}

pub enum ModeView {
    Command { cmd: Seq<char>, params: Option<Seq<char>> },
    Script { path: Seq<char> },
}

pub struct InvocationView {
    pub run_dir: Option<Seq<char>>,
    pub timeout_ms: u64,
    pub keep_going: bool,
    pub mode: ModeView,
}

/// Reads flags from position `i` on.
pub open spec fn scan_flags(args: Seq<Seq<char>>, i: int, st: FlagState) -> Result<FlagState, Seq<char>>
    decreases args.len() - i,
{
    if i < 0 || i >= args.len() {
        Ok(st)
    } else {
        let a = args[i];
        if a == "--run-dir"@ {
            if i + 1 < args.len() {
                scan_flags(args, i + 2, FlagState { run_dir: Some(args[i + 1]), ..st })
            } else {
                Err("--run-dir needs a value"@)
            }
        } else if starts_with_seq(a, "--run-dir="@) {
            scan_flags(
                args,
                i + 1,
                FlagState { run_dir: Some(a.subrange("--run-dir="@.len() as int, a.len() as int)), ..st },
            )
        } else if a == "--timeout-ms"@ {
            if i + 1 < args.len() {
                match parse_u64_spec(args[i + 1]) {
                    Some(t) => scan_flags(args, i + 2, FlagState { timeout_ms: t, ..st }),
                    None => Err("--timeout-ms needs an integer"@),
                }
            } else {
                Err("--timeout-ms needs a value"@)
            }
        } else if starts_with_seq(a, "--timeout-ms="@) {
            match parse_u64_spec(a.subrange("--timeout-ms="@.len() as int, a.len() as int)) {
                Some(t) => scan_flags(args, i + 1, FlagState { timeout_ms: t, ..st }),
                None => Err("--timeout-ms needs an integer"@),
            }
        } else if a == "--keep-going"@ {
            scan_flags(args, i + 1, FlagState { keep_going: true, ..st })
        } else if starts_with_seq(a, "--"@) {
            Err("unknown flag "@ + debug_text(a))
        } else {
            scan_flags(args, i + 1, FlagState { positional: st.positional.push(a), ..st })
        }
    }
}

/// The mode the positional arguments select.
pub open spec fn mode_for(positional: Seq<Seq<char>>) -> Result<ModeView, Seq<char>> {
    if positional.len() == 0 {
        Err("missing command"@)
    } else if positional[0] == "script"@ {
        if positional.len() < 2 {
            Err("script needs a file path"@)
        } else if positional.len() > 2 {
            Err("script takes exactly one file"@)
        } else {
            Ok(ModeView::Script { path: positional[1] })
        }
    } else if positional.len() > 2 {
        Err("too many arguments; params must be one JSON string"@)
    } else {
        Ok(
            ModeView::Command {
                cmd: positional[0],
                params: if positional.len() == 2 { Some(positional[1]) } else { None },
            },
        )
    }
}

pub open spec fn initial_flags() -> FlagState {
    FlagState { run_dir: None, timeout_ms: DEFAULT_TIMEOUT_MS, keep_going: false, positional: Seq::empty() }
}

/// The invocation `args` describe, or the usage error they cause.
pub open spec fn invocation_for(args: Seq<Seq<char>>) -> Result<InvocationView, Seq<char>> {
    match scan_flags(args, 0, initial_flags()) {
        Err(e) => Err(e),
        Ok(st) => match mode_for(st.positional) {
            Err(e) => Err(e),
            Ok(m) => Ok(
                InvocationView {
                    run_dir: st.run_dir,
                    timeout_ms: st.timeout_ms,
                    keep_going: st.keep_going,
                    mode: m,
                },
            ),
        },
    }
}

pub open spec fn opt_string_view(o: Option<String>) -> Option<Seq<char>> {
    match o {
        Some(s) => Some(s@),
        None => None,
    }
}

impl View for Mode {
    type V = ModeView;

    open spec fn view(&self) -> ModeView {
        match self {
            Mode::Command { cmd, params } => ModeView::Command { cmd: cmd@, params: opt_string_view(*params) },
            Mode::Script { path } => ModeView::Script { path: path@ },
        }
    }
}

impl View for Invocation {
    type V = InvocationView;

    open spec fn view(&self) -> InvocationView {
        InvocationView {
            run_dir: opt_string_view(self.run_dir),
            timeout_ms: self.timeout_ms,
            keep_going: self.keep_going,
            mode: self.mode@,
        }
    }
}

fn literal_error(msg: &str) -> (r: Result<Invocation, String>)
    ensures
        r matches Err(e) && e@ == msg@,
{
    Err(String::from_str(msg))
}

/// Parses the client's arguments.
pub fn parse_args(args: &Vec<String>) -> (r: Result<Invocation, String>)
    ensures
        match (r, invocation_for(args@.map_values(|a: String| a@))) {
            (Ok(inv), Ok(v)) => inv@ == v,
            (Err(e), Err(m)) => e@ == m,
            _ => false,
        },
{
    let ghost av = args@.map_values(|a: String| a@);
    let run_dir_flag = chars_of("--run-dir");
    let run_dir_prefix = chars_of("--run-dir=");
    let timeout_flag = chars_of("--timeout-ms");
    let timeout_prefix = chars_of("--timeout-ms=");
    let keep_going_flag = chars_of("--keep-going");
    let dashes = chars_of("--");
    let mut run_dir: Option<String> = None;
    let mut timeout_ms: u64 = DEFAULT_TIMEOUT_MS;
    let mut keep_going = false;
    let mut positional: Vec<String> = Vec::new();
    let mut index: usize = 0;
    assert(positional@.map_values(|a: String| a@) =~= Seq::<Seq<char>>::empty());
    while index < args.len()
        invariant
            index <= args@.len(),
            av == args@.map_values(|a: String| a@),
            run_dir_flag@ == "--run-dir"@,
            run_dir_prefix@ == "--run-dir="@,
            timeout_flag@ == "--timeout-ms"@,
            timeout_prefix@ == "--timeout-ms="@,
            keep_going_flag@ == "--keep-going"@,
            dashes@ == "--"@,
            scan_flags(av, 0, initial_flags()) == scan_flags(
                av,
                index as int,
                FlagState {
                    run_dir: opt_string_view(run_dir),
                    timeout_ms: timeout_ms,
                    keep_going: keep_going,
                    positional: positional@.map_values(|a: String| a@),
                },
            ),
        decreases args.len() - index,
    {
        let arg = chars_of(args[index].as_str());
        assert(av[index as int] == arg@);
        if chars_equal(&arg, &run_dir_flag) {
            if index + 1 < args.len() {
                run_dir = Some(args[index + 1].clone());
                index = index + 2;
            } else {
                return literal_error("--run-dir needs a value");
            }
        } else if starts_with(&arg, &run_dir_prefix) {
            run_dir = Some(string_of(&suffix_from(&arg, run_dir_prefix.len())));
            index = index + 1;
        } else if chars_equal(&arg, &timeout_flag) {
            if index + 1 < args.len() {
                let value = chars_of(args[index + 1].as_str());
                match parse_u64(&value) {
                    Some(t) => {
                        timeout_ms = t;
                        index = index + 2;
                    },
                    None => {
                        return literal_error("--timeout-ms needs an integer");
                    },
                }
            } else {
                return literal_error("--timeout-ms needs a value");
            }
        } else if starts_with(&arg, &timeout_prefix) {
            let value = suffix_from(&arg, timeout_prefix.len());
            match parse_u64(&value) {
                Some(t) => {
                    timeout_ms = t;
                    index = index + 1;
                },
                None => {
                    return literal_error("--timeout-ms needs an integer");
                },
            }
        } else if chars_equal(&arg, &keep_going_flag) {
            keep_going = true;
            index = index + 1;
        } else if starts_with(&arg, &dashes) {
            let mut msg = String::from_str("unknown flag ");
            let quoted = debug_quoted(args[index].as_str());
            msg.append(quoted.as_str());
            return Err(msg);
        } else {
            let ghost before = positional@;
            positional.push(args[index].clone());
            assert(positional@.map_values(|a: String| a@) =~= before.map_values(|a: String| a@).push(arg@));
            index = index + 1;
        }
    }
    let ghost pv = positional@.map_values(|a: String| a@);
    let script = chars_of("script");
    let mode = if positional.len() == 0 {
        return literal_error("missing command");
    } else {
        let first = chars_of(positional[0].as_str());
        assert(pv[0] == first@);
        if chars_equal(&first, &script) {
            if positional.len() < 2 {
                return literal_error("script needs a file path");
            }
            if positional.len() > 2 {
                return literal_error("script takes exactly one file");
            }
            assert(pv[1] == positional@[1]@);
            Mode::Script { path: positional[1].clone() }
        } else {
            if positional.len() > 2 {
                return literal_error("too many arguments; params must be one JSON string");
            }
            let params = if positional.len() == 2 {
                assert(pv[1] == positional@[1]@);
                Some(positional[1].clone())
            } else {
                None
            };
            Mode::Command { cmd: positional[0].clone(), params }
        }
    };
    Ok(Invocation { run_dir, timeout_ms, keep_going, mode })
}

/// `a` sorts before or with `b`, character by character (the order of
/// their UTF-8 bytes).
pub open spec fn lex_le(a: Seq<char>, b: Seq<char>) -> bool
    decreases a.len(),
{
    if a.len() == 0 {
        true
    } else if b.len() == 0 {
        false
    } else if a[0] != b[0] {
        a[0] < b[0]
    } else {
        lex_le(a.drop_first(), b.drop_first())
    }
}

proof fn lemma_lex_total(a: Seq<char>, b: Seq<char>)
    ensures
        lex_le(a, b) || lex_le(b, a),
    decreases a.len(),
{
    if a.len() > 0 && b.len() > 0 && a[0] == b[0] {
        lemma_lex_total(a.drop_first(), b.drop_first());
    }
}

proof fn lemma_lex_transitive(a: Seq<char>, b: Seq<char>, c: Seq<char>)
    requires
        lex_le(a, b),
        lex_le(b, c),
    ensures
        lex_le(a, c),
    decreases a.len(),
{
    if a.len() > 0 && b.len() > 0 && c.len() > 0 && a[0] == b[0] && b[0] == c[0] {
        lemma_lex_transitive(a.drop_first(), b.drop_first(), c.drop_first());
    }
}

fn lex_le_chars(a: &[char], b: &[char]) -> (r: bool)
    ensures
        r == lex_le(a@, b@),
{
    let mut i: usize = 0;
    assert(a@.subrange(0, a@.len() as int) =~= a@);
    assert(b@.subrange(0, b@.len() as int) =~= b@);
    while i < a.len() && i < b.len()
        invariant
            0 <= i <= a.len(),
            i <= b.len(),
            a@.subrange(0, i as int) == b@.subrange(0, i as int),
            lex_le(a@, b@) == lex_le(a@.subrange(i as int, a@.len() as int), b@.subrange(i as int, b@.len() as int)),
        decreases a.len() - i,
    {
        let ghost sa = a@.subrange(i as int, a@.len() as int);
        let ghost sb = b@.subrange(i as int, b@.len() as int);
        assert(sa[0] == a@[i as int] && sb[0] == b@[i as int]);
        if a[i] != b[i] {
            return a[i] < b[i];
        }
        assert(sa.drop_first() =~= a@.subrange(i + 1, a@.len() as int));
        assert(sb.drop_first() =~= b@.subrange(i + 1, b@.len() as int));
        assert(a@.subrange(0, i + 1) =~= a@.subrange(0, i as int).push(a@[i as int]));
        assert(b@.subrange(0, i + 1) =~= b@.subrange(0, i as int).push(b@[i as int]));
        i = i + 1;
    }
    i == a.len()
}

/// Run `i` has the greatest name of `runs`.
pub open spec fn is_newest(runs: Seq<Seq<char>>, i: int) -> bool {
    0 <= i < runs.len() && forall|k: int| 0 <= k < runs.len() ==> lex_le(#[trigger] runs[k], runs[i])
}

pub open spec fn string_views(v: Seq<String>) -> Seq<Seq<char>> {
    v.map_values(|s: String| s@)
}

/// The path of the session file of the newest run among the run
/// directories `runs` of `root` that hold one: run ids start with a UTC time
/// stamp, so the greatest name is the newest run.
pub fn newest_session_under(root: &str, runs: &Vec<String>) -> (r: Option<String>)
    ensures
        runs@.len() == 0 ==> r is None,
        runs@.len() > 0 ==> (r matches Some(p) && exists|i: int|
            is_newest(string_views(runs@), i) && p@ == join(join(root@, runs@[i]@), "session.json"@)),
{
    if runs.len() == 0 {
        return None;
    }
    let mut best: usize = 0;
    let mut best_chars = chars_of(runs[0].as_str());
    proof {
        lemma_lex_total(runs@[0]@, runs@[0]@);
    }
    for i in 1..runs.len()
        invariant
            0 <= best < runs@.len(),
            1 <= i <= runs@.len(),
            best_chars@ == runs@[best as int]@,
            forall|k: int| 0 <= k < i ==> lex_le(#[trigger] runs@[k]@, runs@[best as int]@),
    {
        let cand = chars_of(runs[i].as_str());
        if !lex_le_chars(&cand, &best_chars) {
            proof {
                lemma_lex_total(cand@, best_chars@);
                assert forall|k: int| 0 <= k < i + 1 implies lex_le(#[trigger] runs@[k]@, runs@[i as int]@) by {
                    if k < i {
                        lemma_lex_transitive(runs@[k]@, runs@[best as int]@, runs@[i as int]@);
                    } else {
                        lemma_lex_total(runs@[k]@, runs@[k]@);
                    }
                }
            }
            best = i;
            best_chars = cand;
        }
    }
    let dir = join_path(root, runs[best].as_str());
    assert(is_newest(string_views(runs@), best as int)) by {
        assert forall|k: int| 0 <= k < runs@.len() implies lex_le(
            #[trigger] string_views(runs@)[k],
            string_views(runs@)[best as int],
        ) by {
            assert(string_views(runs@)[k] == runs@[k]@);
        }
    }
    Some(join_path(dir.as_str(), "session.json"))
}

/// Where the client finds the session file: in the given run directory
/// itself, else the newest run under it; without one, the newest run under
/// `tmp/harness-runs`. `direct_session_exists` tells whether
/// `<run_dir>/session.json` is a file, and `runs` lists the run
/// directories (under `run_dir`, or under `tmp/harness-runs`) that hold a
/// session file.
pub fn resolve_session_path(run_dir: Option<&str>, direct_session_exists: bool, runs: &Vec<String>) -> (r: Result<String, String>)
    ensures
        match run_dir {
            Some(d) => if direct_session_exists {
                r matches Ok(p) && p@ == join(d@, "session.json"@)
            } else if runs@.len() == 0 {
                r matches Err(e) && e@ == "no session.json under "@ + d@
            } else {
                r matches Ok(p) && exists|i: int|
                    is_newest(string_views(runs@), i) && p@ == join(join(d@, runs@[i]@), "session.json"@)
            },
            None => if runs@.len() == 0 {
                r matches Err(e) && e@ == "no harness runs under tmp/harness-runs \u{2014} launch the app with --harness first (or pass --run-dir)"@
            } else {
                r matches Ok(p) && exists|i: int|
                    is_newest(string_views(runs@), i) && p@ == join(
                    join("tmp/harness-runs"@, runs@[i]@),
                    "session.json"@,
                )
            },
        },
{
    match run_dir {
        Some(d) => {
            if direct_session_exists {
                return Ok(join_path(d, "session.json"));
            }
            match newest_session_under(d, runs) {
                Some(p) => Ok(p),
                None => {
                    let mut msg = chars_of("no session.json under ");
                    let dc = chars_of(d);
                    extend_chars(&mut msg, &dc);
                    Err(string_of(&msg))
                },
            }
        },
        None => {
            let root = join_path("tmp", "harness-runs");
            proof {
                reveal_strlit("tmp");
                reveal_strlit("harness-runs");
                reveal_strlit("tmp/harness-runs");
                assert(join("tmp"@, "harness-runs"@) =~= "tmp/harness-runs"@);
            }
            match newest_session_under(root.as_str(), runs) {
                Some(p) => Ok(p),
                None => Err(String::from_str("no harness runs under tmp/harness-runs \u{2014} launch the app with --harness first (or pass --run-dir)")),
            }
        },
    }
}

/// The usage error a command's params cause, given what the JSON parser
/// made of them: none for an object.
pub fn params_verdict(parsed: &Result<Option<Vec<String>>, String>) -> (r: Result<(), String>)
    ensures
        match outcome_view(*parsed) {
            Err(m) => r matches Err(e) && e@ == "params is not valid JSON: "@ + m,
            Ok(None) => r matches Err(e) && e@ == "params must be a JSON object"@,
            Ok(Some(_)) => r is Ok,
        },
{
    match parsed {
        Err(m) => {
            let mut msg = chars_of("params is not valid JSON: ");
            let mc = chars_of(m.as_str());
            extend_chars(&mut msg, &mc);
            Err(string_of(&msg))
        },
        Ok(None) => Err(String::from_str("params must be a JSON object")),
        Ok(Some(_)) => Ok(()),
    }
}

/// The keys of a request object: "id", "cmd" and, when params are sent,
/// "params".
pub open spec fn request_keys(with_params: bool) -> Set<Seq<char>> {
    let base = Set::<Seq<char>>::empty().insert("id"@).insert("cmd"@);
    if with_params {
        base.insert("params"@)
    } else {
        base
    }
}

/// A request line: a JSON object with the keys of `request_keys`, the
/// unsigned integer `id` under "id" and the string `cmd` under "cmd".
pub open spec fn is_request(t: Seq<char>, id: u64, cmd: Seq<char>, with_params: bool) -> bool {
    &&& json_parse_outcome(t) == parsed_object(request_keys(with_params))
    &&& json_u64_field(t, "id"@) == Some(id)
    &&& json_str_field(t, "cmd"@) == Some(cmd)
}

/// A request with params: the request `base` without them, with the value
/// parsed from `params` written under "params".
pub open spec fn with_params(t: Seq<char>, id: u64, cmd: Seq<char>, params: Seq<char>) -> bool {
    exists|base: Seq<char>|
        is_request(base, id, cmd, false) && #[trigger] json_insert_json_text(base, "params"@, params) == Some(t)
}

/// Builds the request object: "id", then "cmd", then the parsed `params`
/// under "params" when given. With params nesting deeper than 126 levels the
/// line is still written, but it no longer parses (the parser's depth
/// limit), so it is only known as the object it was built from.
fn request_object(id: u64, cmd: &str, params: Option<&str>) -> (r: String)
    requires
        params matches Some(p) ==> json_parse_outcome(p@) is Ok,
    ensures
        params is None ==> is_request(r@, id, cmd@, false),
        params matches Some(p) ==> with_params(r@, id, cmd@, p@),
        params matches Some(p) && json_nesting(p@) <= 126 ==> is_request(r@, id, cmd@, true),
{
    proof {
        reveal_strlit("id");
        reveal_strlit("cmd");
        reveal_strlit("params");
        assert("id"@ != "cmd"@ && "id"@ != "params"@ && "cmd"@ != "params"@) by {
            assert("id"@.len() == 2 && "cmd"@.len() == 3 && "params"@.len() == 6);
        }
    }
    let empty = json_empty_object();
    let with_id = match json_object_with_u64(empty.as_str(), "id", id) {
        Some(t) => t,
        None => {
            assert(false);
            empty
        },
    };
    let with_cmd = match json_object_with_str(with_id.as_str(), "cmd", cmd) {
        Some(t) => t,
        None => {
            assert(false);
            with_id
        },
    };
    assert(json_u64_field(with_cmd@, "id"@) == json_u64_field(with_id@, "id"@));
    assert(json_u64_field(with_cmd@, "id"@) == Some(id));
    match params {
        None => with_cmd,
        Some(p) => {
            match json_object_with_json(with_cmd.as_str(), "params", p) {
                Some(t) => {
                    assert(is_request(with_cmd@, id, cmd@, false));
                    assert(json_insert_json_text(with_cmd@, "params"@, p@) == Some(t@));
                    proof {
                        if json_nesting(p@) <= 126 {
                            assert(json_u64_field(t@, "id"@) == json_u64_field(with_cmd@, "id"@));
                            assert(json_str_field(t@, "cmd"@) == json_str_field(with_cmd@, "cmd"@));
                        }
                    }
                    t
                },
                None => {
                    assert(false);
                    with_cmd
                },
            }
        },
    }
}

/// The request line for a command (see `is_request` and `with_params`),
/// with the params object under "params" when given, or the usage error the
/// params cause.
pub fn compose_request(id: u64, cmd: &str, params: Option<&str>) -> (r: Result<String, String>)
    ensures
        match params {
            None => r matches Ok(t) && is_request(t@, id, cmd@, false),
            Some(p) => match json_parse_outcome(p@) {
                Err(m) => r matches Err(e) && e@ == "params is not valid JSON: "@ + m,
                Ok(None) => r matches Err(e) && e@ == "params must be a JSON object"@,
                Ok(Some(_)) => r matches Ok(t) && with_params(t@, id, cmd@, p@) && (json_nesting(p@) <= 126
                    ==> is_request(t@, id, cmd@, true)),
            },
        },
{
    match params {
        None => Ok(request_object(id, cmd, None)),
        Some(p) => {
            let parsed = parse_json(p);
            match params_verdict(&parsed) {
                Err(e) => Err(e),
                Ok(()) => Ok(request_object(id, cmd, Some(p))),
            }
        },
    }
}

/// Whether `keys` holds "cmd".
fn has_cmd_key(keys: &Vec<String>) -> (r: bool)
    ensures
        r == views(keys@).contains("cmd"@),
{
    let target = chars_of("cmd");
    let mut i: usize = 0;
    while i < keys.len()
        invariant
            i <= keys@.len(),
            target@ == "cmd"@,
            forall|k: int| 0 <= k < i ==> keys@[k]@ != "cmd"@,
        decreases keys.len() - i,
    {
        let key = chars_of(keys[i].as_str());
        if chars_equal(&key, &target) {
            assert(views(keys@)[i as int] == "cmd"@);
            return true;
        }
        i = i + 1;
    }
    assert forall|k: int| 0 <= k < views(keys@).len() implies views(keys@)[k] != "cmd"@ by {
        assert(views(keys@)[k] == keys@[k]@);
    }
    false
}

/// The error a script line causes, given what the JSON parser made of it:
/// none for an object with a "cmd" field.
pub fn script_line_verdict(parsed: &Result<Option<Vec<String>>, String>) -> (r: Result<(), String>)
    ensures
        match outcome_view(*parsed) {
            Err(m) => r matches Err(e) && e@ == "invalid JSON: "@ + m,
            Ok(None) => r matches Err(e) && e@ == "script line must be a JSON object"@,
            Ok(Some(keys)) => if keys.contains("cmd"@) {
                r is Ok
            } else {
                r matches Err(e) && e@ == "script line needs a \"cmd\" field"@
            },
        },
{
    match parsed {
        Err(m) => {
            let mut msg = chars_of("invalid JSON: ");
            let mc = chars_of(m.as_str());
            extend_chars(&mut msg, &mc);
            Err(string_of(&msg))
        },
        Ok(None) => Err(String::from_str("script line must be a JSON object")),
        Ok(Some(keys)) => {
            let found = has_cmd_key(keys);
            assert(found == crate::json::key_set(keys@).contains("cmd"@)) by {
                assert(views(keys@) =~= keys@.map_values(|k: String| k@));
            }
            if found {
                Ok(())
            } else {
                Err(String::from_str("script line needs a \"cmd\" field"))
            }
        },
    }
}

/// A script line is a request object without an id; ids are given in order
/// so that a script replays the same way every time.
pub fn compose_script_request(id: u64, line: &str) -> (r: Result<String, String>)
    ensures
        match json_parse_outcome(line@) {
            Err(m) => r matches Err(e) && e@ == "invalid JSON: "@ + m,
            Ok(None) => r matches Err(e) && e@ == "script line must be a JSON object"@,
            Ok(Some(keys)) => if keys.contains("cmd"@) {
                r matches Ok(t) && json_insert_u64_text(line@, "id"@, id) == Some(t@)
                    && json_parse_outcome(t@) == parsed_object(keys.insert("id"@))
                    && json_u64_field(t@, "id"@) == Some(id)
                    && json_str_field(t@, "cmd"@) == json_str_field(line@, "cmd"@)
            } else {
                r matches Err(e) && e@ == "script line needs a \"cmd\" field"@
            },
        },
{
    let parsed = parse_json(line);
    match script_line_verdict(&parsed) {
        Err(e) => Err(e),
        Ok(()) => {
            proof {
                reveal_strlit("id");
                reveal_strlit("cmd");
                assert("id"@ != "cmd"@) by {
                    assert("id"@.len() == 2 && "cmd"@.len() == 3);
                }
            }
            match json_object_with_u64(line, "id", id) {
                Some(t) => {
                    assert(json_str_field(t@, "cmd"@) == json_str_field(line@, "cmd"@));
                    Ok(t)
                },
                None => {
                    assert(false);
                    Err(String::new())
                },
            }
        },
    }
}

/// Port and token of a session file, given the parser's outcome and the
/// two fields it found; `path` names the file in the errors.
pub fn session_verdict(
    path: &str,
    parsed: &Result<Option<Vec<String>>, String>,
    port: Option<u64>,
    token: Option<String>,
) -> (r: Result<(u16, String), String>)
    ensures
        match outcome_view(*parsed) {
            Err(m) => r matches Err(e) && e@ == "invalid session file "@ + path@ + ": "@ + m,
            Ok(_) => match port {
                None => r matches Err(e) && e@ == "session file "@ + path@ + " has no port"@,
                Some(p) => match opt_view(token) {
                    None => r matches Err(e) && e@ == "session file "@ + path@ + " has no token"@,
                    Some(t) => r matches Ok((rp, rt)) && rp == p as u16 && rt@ == t,
                },
            },
        },
{
    let pc = chars_of(path);
    match parsed {
        Err(m) => {
            let mut msg = chars_of("invalid session file ");
            extend_chars(&mut msg, &pc);
            let sep = chars_of(": ");
            extend_chars(&mut msg, &sep);
            let mc = chars_of(m.as_str());
            extend_chars(&mut msg, &mc);
            Err(string_of(&msg))
        },
        Ok(_) => match port {
            None => {
                let mut msg = chars_of("session file ");
                extend_chars(&mut msg, &pc);
                let tail = chars_of(" has no port");
                extend_chars(&mut msg, &tail);
                Err(string_of(&msg))
            },
            Some(p) => match token {
                None => {
                    let mut msg = chars_of("session file ");
                    extend_chars(&mut msg, &pc);
                    let tail = chars_of(" has no token");
                    extend_chars(&mut msg, &tail);
                    Err(string_of(&msg))
                },
                Some(t) => Ok((p as u16, t)),
            },
        },
    }
}

/// Port and token from the text of a session file.
pub fn session_from_json(path: &str, body: &str) -> (r: Result<(u16, String), String>)
    ensures
        match json_parse_outcome(body@) {
            Err(m) => r matches Err(e) && e@ == "invalid session file "@ + path@ + ": "@ + m,
            Ok(_) => match json_u64_field(body@, "port"@) {
                None => r matches Err(e) && e@ == "session file "@ + path@ + " has no port"@,
                Some(p) => match json_str_field(body@, "token"@) {
                    None => r matches Err(e) && e@ == "session file "@ + path@ + " has no token"@,
                    Some(t) => r matches Ok((rp, rt)) && rp == p as u16 && rt@ == t,
                },
            },
        },
{
    let parsed = parse_json(body);
    let port = json_u64_at(body, "port");
    let token = json_str_at(body, "token");
    session_verdict(path, &parsed, port, token)
}

/// What a line read while waiting for the response to request `id` means,
/// given the "id" and "ok" fields found in it: `None` for a line that is
/// not that response, else its `ok` flag (false when absent).
pub fn response_verdict(id: u64, line_id: Option<u64>, line_ok: Option<bool>) -> (r: Option<bool>)
    ensures
        r == (if line_id == Some(id) {
            Some(match line_ok { Some(b) => b, None => false })
        } else {
            None
        }),
{
    match line_id {
        Some(v) => if v == id {
            match line_ok {
                Some(b) => Some(b),
                None => Some(false),
            }
        } else {
            None
        },
        None => None,
    }
}

/// `response_verdict` on a line as read from the connection (trimmed
/// first).
pub fn read_response_line(id: u64, line: &str) -> (r: Option<bool>)
    ensures
        r == (if json_u64_field(trimmed(line@), "id"@) == Some(id) {
            Some(match json_bool_field(trimmed(line@), "ok"@) { Some(b) => b, None => false })
        } else {
            None
        }),
{
    let t = trim_text(line);
    let line_id = json_u64_at(t.as_str(), "id");
    let line_ok = json_bool_at(t.as_str(), "ok");
    response_verdict(id, line_id, line_ok)
}

/// A trimmed script line that is a request: neither blank nor a comment.
pub open spec fn is_request_line(t: Seq<char>) -> bool {
    t.len() > 0 && t[0] != '#'
}

/// The requests of a script given as lines: each trimmed request line with
/// its 1-based line number, in order.
pub open spec fn script_steps_of(lines: Seq<Seq<char>>) -> Seq<(int, Seq<char>)>
    decreases lines.len(),
{
    if lines.len() == 0 {
        Seq::empty()
    } else {
        let prev = script_steps_of(lines.drop_last());
        let t = trimmed(lines.last());
        if is_request_line(t) {
            prev.push((lines.len() as int, t))
        } else {
            prev
        }
    }
}

pub open spec fn step_views(steps: Seq<(usize, String)>) -> Seq<(int, Seq<char>)> {
    steps.map_values(|s: (usize, String)| (s.0 as int, s.1@))
}

/// The requests of a script file, each with its line number.
pub fn script_steps(body: &str) -> (r: Vec<(usize, String)>)
    ensures
        step_views(r@) == script_steps_of(raw_lines(body@)),
{
    let lines = split_lines(body);
    let ghost all = raw_lines(body@);
    let mut out: Vec<(usize, String)> = Vec::new();
    let mut i: usize = 0;
    while i < lines.len()
        invariant
            i <= lines@.len(),
            views(lines@) == all,
            step_views(out@) == script_steps_of(all.subrange(0, i as int)),
        decreases lines.len() - i,
    {
        let t = trim_text(lines[i].as_str());
        let tc = chars_of(t.as_str());
        let ghost pre = all.subrange(0, i + 1);
        assert(pre.drop_last() == all.subrange(0, i as int));
        assert(pre.last() == lines@[i as int]@) by {
            assert(views(lines@)[i as int] == lines@[i as int]@);
        }
        let ghost before = step_views(out@);
        if tc.len() > 0 && tc[0] != '#' {
            out.push((i + 1, t));
            assert(step_views(out@) =~= before.push(((i + 1) as int, tc@)));
        }
        i = i + 1;
    }
    assert(all.subrange(0, lines@.len() as int) == all);
    out
}

/// After a script step's response: whether any failed so far, and the
/// exit code to stop with (1 at the first failure, unless the client keeps
/// going).
pub fn after_script_response(any_failed: bool, ok: bool, keep_going: bool) -> (r: (bool, Option<i32>))
    ensures
        r.0 == (any_failed || !ok),
        r.1 == (if !ok && !keep_going { Some(1i32) } else { None }),
{
    if ok {
        (any_failed, None)
    } else if keep_going {
        (true, None)
    } else {
        (true, Some(1))
    }
}

/// The client's exit code once every response has come: 1 when one was
/// `ok: false`, else 0.
pub fn exit_code(any_failed: bool) -> (c: i32)
    ensures
        c == (if any_failed { 1i32 } else { 0i32 }),
{
    if any_failed {
        1
    } else {
        0
    }
}

} // verus!
