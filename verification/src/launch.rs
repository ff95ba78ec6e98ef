//! Command-line options of the viewer: an optional image path and the
//! optional agent-harness mode.

use vstd::prelude::*;
use crate::text::{chars_equal, chars_of, parse_u16, parse_u16_spec, starts_with, string_of, suffix_from};

verus! {

/// Port the harness listens on when `--harness` names none.
pub const DEFAULT_HARNESS_PORT: u16 = 7878;

/// Harness mode: the port and whether real (unsandboxed) storage is used.
#[derive(Debug, Clone, Copy, PartialEq, Eq, Structural)]
pub struct HarnessLaunch {
    pub port: u16,
    pub real_storage: bool,
}

/// Parsed options.
#[derive(Debug, Clone, PartialEq, Eq)]
pub struct CliOptions {
    pub harness: Option<HarnessLaunch>,
    pub image_path: Option<String>,
}

/// Options as plain values: harness settings, image path, and whether
/// `--harness-real-storage` has been seen.
pub struct CliState {
    pub harness: Option<HarnessLaunch>,
    pub image_path: Option<Seq<char>>,
    pub real_storage_requested: bool,
}

pub open spec fn initial_cli_state() -> CliState {
    CliState { harness: None, image_path: None, real_storage_requested: false }
}

pub open spec fn starts_with_seq(s: Seq<char>, p: Seq<char>) -> bool {
    p.len() <= s.len() && s.subrange(0, p.len() as int) == p
}

/// The effect of one argument.
pub open spec fn cli_step(st: CliState, arg: Seq<char>) -> CliState {
    if arg == "--harness"@ {
        CliState {
            harness: Some(
                match st.harness {
                    Some(h) => h,
                    None => HarnessLaunch { port: DEFAULT_HARNESS_PORT, real_storage: false },
                },
            ),
            ..st
        }
    } else if starts_with_seq(arg, "--harness="@) {
        match parse_u16_spec(arg.subrange("--harness="@.len() as int, arg.len() as int)) {
            Some(port) => CliState {
                harness: Some(
                    match st.harness {
                        Some(h) => HarnessLaunch { port: port, ..h },
                        None => HarnessLaunch { port: port, real_storage: false },
                    },
                ),
                ..st
            },
            None => st,
        }
    } else if arg == "--harness-real-storage"@ {
        CliState { real_storage_requested: true, ..st }
    } else if starts_with_seq(arg, "--"@) {
        st
    } else if st.image_path is None {
        CliState { image_path: Some(arg), ..st }
    } else {
        st
    }
}

/// The state after reading `args` from left to right.
pub open spec fn cli_state_after(args: Seq<Seq<char>>) -> CliState
    decreases args.len(),
{
    if args.len() == 0 {
        initial_cli_state()
    } else {
        cli_step(cli_state_after(args.drop_last()), args.last())
    }
}

/// The options `args` select: `--harness-real-storage` only takes effect
/// together with harness mode.
pub open spec fn cli_options_for(args: Seq<Seq<char>>) -> (Option<HarnessLaunch>, Option<Seq<char>>) {
    let st = cli_state_after(args);
    let harness = match st.harness {
        Some(h) => if st.real_storage_requested {
            Some(HarnessLaunch { real_storage: true, ..h })
        } else {
            Some(h)
        },
        None => None,
    };
    (harness, st.image_path)
}

/// A flag that turns on harness mode: "--harness", or "--harness=" with a
/// port that parses.
pub open spec fn is_harness_flag(arg: Seq<char>) -> bool {
    arg == "--harness"@ || (starts_with_seq(arg, "--harness="@) && parse_u16_spec(
        arg.subrange("--harness="@.len() as int, arg.len() as int),
    ) is Some)
}

proof fn lemma_flags_differ()
    ensures
        "--harness-real-storage"@ != "--harness"@,
        !starts_with_seq("--harness-real-storage"@, "--harness="@),
{
    reveal_strlit("--harness-real-storage");
    reveal_strlit("--harness");
    reveal_strlit("--harness=");
    assert("--harness-real-storage"@.len() != "--harness"@.len());
    assert("--harness-real-storage"@.subrange(0, 10)[9] != "--harness="@[9]);
}

proof fn lemma_real_storage_sticks(args: Seq<Seq<char>>)
    requires
        args.contains("--harness-real-storage"@),
    ensures
        cli_state_after(args).real_storage_requested,
    decreases args.len(),
{
    lemma_flags_differ();
    let d = args.drop_last();
    if args.last() != "--harness-real-storage"@ {
        let k = choose|k: int| 0 <= k < args.len() && args[k] == "--harness-real-storage"@;
        assert(d[k] == args[k]);
        lemma_real_storage_sticks(d);
    }
}

proof fn lemma_harness_sticks(args: Seq<Seq<char>>, k: int)
    requires
        0 <= k < args.len(),
        is_harness_flag(args[k]),
    ensures
        cli_state_after(args).harness is Some,
    decreases args.len(),
{
    let d = args.drop_last();
    if k < args.len() - 1 {
        assert(d[k] == args[k]);
        lemma_harness_sticks(d, k);
    }
}

/// Flag order does not matter: with "--harness-real-storage" and a harness
/// flag anywhere among the arguments, harness mode starts with real
/// storage.
pub proof fn law_real_storage_in_any_order(args: Seq<Seq<char>>, k: int)
    requires
        args.contains("--harness-real-storage"@),
        0 <= k < args.len(),
        is_harness_flag(args[k]),
    ensures
        cli_options_for(args).0 matches Some(h) && h.real_storage,
{
    lemma_real_storage_sticks(args);
    lemma_harness_sticks(args, k);
}

/// Without a harness flag there is no harness mode, whatever else is given.
pub proof fn law_no_harness_without_flag(args: Seq<Seq<char>>)
    requires
        forall|k: int| 0 <= k < args.len() ==> !is_harness_flag(#[trigger] args[k]),
    ensures
        cli_options_for(args).0 is None,
    decreases args.len(),
{
    if args.len() > 0 {
        let d = args.drop_last();
        assert forall|k: int| 0 <= k < d.len() implies !is_harness_flag(#[trigger] d[k]) by {
            assert(d[k] == args[k]);
        }
        law_no_harness_without_flag(d);
        assert(!is_harness_flag(args[args.len() - 1]));
    }
}

pub open spec fn opt_view(o: Option<String>) -> Option<Seq<char>> {
    match o {
        Some(s) => Some(s@),
        None => None,
    }
}

impl Default for CliOptions {
    fn default() -> (o: Self)
        ensures
            o.harness is None,
            o.image_path is None,
    {
        CliOptions { harness: None, image_path: None }
    }
}

/// Parses the process arguments (without the program name). Unknown
/// `--flags` and a `--harness=` port that does not parse are ignored; the
/// first bare argument is the image path and later ones are ignored.
pub fn parse_cli_args(args: &Vec<String>) -> (options: CliOptions)
    ensures
        (options.harness, opt_view(options.image_path)) == cli_options_for(args@.map_values(|a: String| a@)),
{
    let ghost av = args@.map_values(|a: String| a@);
    let harness_flag = chars_of("--harness");
    let harness_port_prefix = chars_of("--harness=");
    let real_storage_flag = chars_of("--harness-real-storage");
    let dashes = chars_of("--");
    let mut harness: Option<HarnessLaunch> = None;
    let mut image_path: Option<String> = None;
    let mut real_storage_requested = false;
    for i in 0..args.len()
        invariant
            av == args@.map_values(|a: String| a@),
            harness_flag@ == "--harness"@,
            harness_port_prefix@ == "--harness="@,
            real_storage_flag@ == "--harness-real-storage"@,
            dashes@ == "--"@,
            ({
                let st = cli_state_after(av.subrange(0, i as int));
                st.harness == harness && st.image_path == opt_view(image_path)
                    && st.real_storage_requested == real_storage_requested
            }),
    {
        let arg = chars_of(args[i].as_str());
        assert(av.subrange(0, i + 1).drop_last() == av.subrange(0, i as int));
        assert(av.subrange(0, i + 1).last() == arg@);
        if chars_equal(&arg, &harness_flag) {
            if harness.is_none() {
                harness = Some(HarnessLaunch { port: DEFAULT_HARNESS_PORT, real_storage: false });
            }
        } else if starts_with(&arg, &harness_port_prefix) {
            let port_text = suffix_from(&arg, harness_port_prefix.len());
            match parse_u16(&port_text) {
                Some(port) => {
                    harness = match harness {
                        Some(h) => Some(HarnessLaunch { port: port, real_storage: h.real_storage }),
                        None => Some(HarnessLaunch { port: port, real_storage: false }),
                    };
                },
                None => {},
            }
        } else if chars_equal(&arg, &real_storage_flag) {
            real_storage_requested = true;
        } else if starts_with(&arg, &dashes) {
        } else if image_path.is_none() {
            image_path = Some(string_of(&arg));
        }
    }
    assert(av.subrange(0, args@.len() as int) == av);
    let harness = match harness {
        Some(h) => if real_storage_requested {
            Some(HarnessLaunch { port: h.port, real_storage: true })
        } else {
            Some(h)
        },
        None => None,
    };
    CliOptions { harness, image_path }
}

} // verus!
