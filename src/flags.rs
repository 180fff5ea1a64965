//! Command-line flags: which arguments go to the engine and which to the
//! runtime, and the runtime's own switches.
use vstd::prelude::*;

verus! {

/// The runtime's command-line switches.
#[derive(Debug, PartialEq, Eq, Structural)]
pub struct DenoFlags {
    pub help: bool,
    pub log_debug: bool,
    pub version: bool,
    pub reload: bool,
    pub recompile: bool,
    pub allow_write: bool,
    pub allow_net: bool,
    pub allow_env: bool,
    pub types: bool,
}

pub open spec fn no_flags() -> DenoFlags {
    DenoFlags {
        help: false,
        log_debug: false,
        version: false,
        reload: false,
        recompile: false,
        allow_write: false,
        allow_net: false,
        allow_env: false,
        types: false,
    }
}

impl Default for DenoFlags {
    fn default() -> (r: DenoFlags)
        ensures
            r == no_flags(),
    {
        DenoFlags {
            help: false,
            log_debug: false,
            version: false,
            reload: false,
            recompile: false,
            allow_write: false,
            allow_net: false,
            allow_env: false,
            types: false,
        }
    }
}

pub open spec fn views(v: Seq<String>) -> Seq<Seq<char>> {
    v.map_values(|s: String| s@)
}

pub open spec fn is_help(a: Seq<char>) -> bool {
    a == "--help"@
}

/// `--v8-options` asks the engine for its help text, which the engine calls
/// `--help`.
pub open spec fn for_engine(a: Seq<char>) -> Seq<char> {
    if a == "--v8-options"@ {
        "--help"@
    } else {
        a
    }
}

/// The arguments handed to the engine: all but `--help`, in order, with
/// `--v8-options` renamed.
pub open spec fn engine_args(args: Seq<Seq<char>>) -> Seq<Seq<char>>
    decreases args.len(),
{
    if args.len() == 0 {
        seq![]
    } else if is_help(args.last()) {
        engine_args(args.drop_last())
    } else {
        engine_args(args.drop_last()).push(for_engine(args.last()))
    }
}

/// The arguments kept from the engine: each `--help`.
pub open spec fn kept_args(args: Seq<Seq<char>>) -> Seq<Seq<char>>
    decreases args.len(),
{
    if args.len() == 0 {
        seq![]
    } else if is_help(args.last()) {
        kept_args(args.drop_last()).push(args.last())
    } else {
        kept_args(args.drop_last())
    }
}

pub proof fn lemma_views_push(v: Seq<String>, s: String)
    ensures
        views(v.push(s)) == views(v).push(s@),
{
    assert(views(v.push(s)) =~= views(v).push(s@));
}

/// Splits the command line into the arguments for the engine and those
/// passed on after it: `--help` is the runtime's own, and `--v8-options`
/// becomes the engine's `--help`.
pub fn v8_set_flags_preprocess(args: Vec<String>) -> (r: (Vec<String>, Vec<String>))
    ensures
        views(r.0@) == engine_args(views(args@)),
        views(r.1@) == kept_args(views(args@)),
{
    let help = "--help".to_string();
    let v8_options = "--v8-options".to_string();
    proof {
        reveal_strlit("--help");
        reveal_strlit("--v8-options");
    }
    let mut v8_args: Vec<String> = Vec::new();
    let mut rest: Vec<String> = Vec::new();
    let mut i: usize = 0;
    while i < args.len()
        invariant
            i <= args.len(),
            help@ == "--help"@,
            v8_options@ == "--v8-options"@,
            views(v8_args@) == engine_args(views(args@).take(i as int)),
            views(rest@) == kept_args(views(args@).take(i as int)),
        decreases args.len() - i,
    {
        let a = args[i].clone();
        proof {
            let all = views(args@);
            assert(all.take(i as int + 1).drop_last() =~= all.take(i as int));
            assert(all.take(i as int + 1).last() == a@);
        }
        if a == help {
            proof {
                lemma_views_push(rest@, a);
            }
            rest.push(a);
        } else if a == v8_options {
            let h = help.clone();
            proof {
                lemma_views_push(v8_args@, h);
            }
            v8_args.push(h);
        } else {
            proof {
                lemma_views_push(v8_args@, a);
            }
            v8_args.push(a);
        }
        i = i + 1;
    }
    proof {
        assert(views(args@).take(args.len() as int) =~= views(args@));
    }
    (v8_args, rest)
}

} // verus!
