//! Configuration: the recognized option set, parsed once per invocation.
//!
//! The recognized command line is a sequence of switches followed by an
//! optional `--` separator; everything after the separator is forwarded
//! verbatim to the underlying build invocation. The only switch is
//! `--allcaps` (short form `-a`), which upper-cases every record name.

use vstd::prelude::*;
use vstd::string::StringExecFns;

verus! {

/// Holds when a token is the switch that upper-cases record names.
pub open spec fn is_allcaps_flag(t: Seq<char>) -> bool {
    t == "--allcaps"@ || t == "-a"@
}

/// Holds when a token is the separator that starts the pass-through group.
pub open spec fn is_separator(t: Seq<char>) -> bool {
    t == "--"@
}

/// The number of tokens before the first separator (all of them if none).
pub open spec fn flags_len(args: Seq<Seq<char>>) -> int
    decreases args.len(),
{
    if args.len() == 0 {
        0
    } else if is_separator(args[0]) {
        0
    } else {
        1 + flags_len(args.drop_first())
    }
}

/// The pass-through tokens: everything after the first separator, in order;
/// nothing when no separator occurs.
pub open spec fn passthrough_of(args: Seq<Seq<char>>) -> Seq<Seq<char>> {
    if flags_len(args) < args.len() {
        args.skip(flags_len(args) + 1)
    } else {
        Seq::empty()
    }
}

/// A fatal configuration failure, reported before any compiler session starts.
#[derive(Debug, PartialEq, Eq)]
pub enum ConfigError {
    /// A token before the pass-through separator that is not a recognized switch.
    UnknownFlag(String),
}

impl ConfigError {
    /// Renders the error as human-readable text for the invoking process.
    pub fn message(&self) -> (r: String)
        ensures
            match self {
                ConfigError::UnknownFlag(f) => r@ == "unrecognized flag: "@ + f@,
            },
    {
        match self {
            ConfigError::UnknownFlag(f) => {
                let mut m = String::from_str("unrecognized flag: ");
                m.append(f.as_str());
                m
            },
        }
    }
}

/// The resolved options bundle: constructed once from the raw command line,
/// then read-only for the rest of the run.
#[derive(Debug)]
pub struct PrintAllItemsPluginArgs {
    /// When true, every emitted record's name is upper-cased.
    pub allcaps: bool,
    /// Arguments forwarded verbatim to the underlying build invocation.
    pub cargo_args: Vec<String>,
}

impl PrintAllItemsPluginArgs {
    /// Holds when the raw command line is well-formed: every token before
    /// the separator is a recognized switch.
    pub open spec fn spec_accepts(args: Seq<Seq<char>>) -> bool {
        forall|i: int| 0 <= i < flags_len(args) ==> is_allcaps_flag(#[trigger] args[i])
    }

    /// Holds when `cfg` is the configuration the raw command line denotes:
    /// `allcaps` exactly when some switch before the separator asks for it,
    /// and the pass-through tokens carried over verbatim, in order.
    pub open spec fn is_parse_of(args: Seq<Seq<char>>, cfg: PrintAllItemsPluginArgs) -> bool {
        &&& (cfg.allcaps <==> exists|i: int|
            0 <= i < flags_len(args) && is_allcaps_flag(#[trigger] args[i]))
        &&& cfg.cargo_args.deep_view() == passthrough_of(args)
    }

    /// Holds when `e` is the failure the raw command line provokes: the
    /// first token before the separator that is not a recognized switch.
    pub open spec fn is_parse_error_of(args: Seq<Seq<char>>, e: ConfigError) -> bool {
        exists|i: int|
            {
                &&& 0 <= i < flags_len(args)
                &&& !is_allcaps_flag(#[trigger] args[i])
                &&& forall|k: int| 0 <= k < i ==> is_allcaps_flag(#[trigger] args[k])
                &&& e matches ConfigError::UnknownFlag(f) && f@ == args[i]
            }
    }

    /// Parses the raw command line into a configuration, failing fast on the
    /// first unrecognized token before the separator.
    pub fn parse(args: &Vec<String>) -> (r: Result<PrintAllItemsPluginArgs, ConfigError>)
        ensures
            r is Ok <==> Self::spec_accepts(args.deep_view()),
            match r {
                Ok(cfg) => Self::is_parse_of(args.deep_view(), cfg),
                Err(e) => Self::is_parse_error_of(args.deep_view(), e),
            },
    {
        let ghost a = args.deep_view();
        let s = find_separator(args);
        proof {
            lemma_flags_len_at(a, s as int);
        }
        let flag_long = String::from_str("--allcaps");
        let flag_short = String::from_str("-a");
        let mut allcaps = false;
        let mut i: usize = 0;
        while i < s
            invariant
                a == args.deep_view(),
                s <= args.len(),
                flags_len(a) == s,
                i <= s,
                flag_long@ == "--allcaps"@,
                flag_short@ == "-a"@,
                forall|j: int| 0 <= j < i ==> is_allcaps_flag(#[trigger] a[j]),
                (allcaps <==> exists|j: int| 0 <= j < i && is_allcaps_flag(#[trigger] a[j])),
            decreases s - i,
        {
            if args[i] == flag_long || args[i] == flag_short {
                allcaps = true;
                assert(is_allcaps_flag(a[i as int]));
            } else {
                assert(!is_allcaps_flag(a[i as int]));
                return Err(ConfigError::UnknownFlag(args[i].clone()));
            }
            i += 1;
        }
        let mut cargo_args: Vec<String> = Vec::new();
        if s < args.len() {
            let mut k: usize = s + 1;
            while k < args.len()
                invariant
                    a == args.deep_view(),
                    s < args.len(),
                    s + 1 <= k <= args.len(),
                    cargo_args.deep_view() == a.subrange(s + 1, k as int),
                decreases args.len() - k,
            {
                let ghost prev = cargo_args.deep_view();
                cargo_args.push(args[k].clone());
                proof {
                    assert(cargo_args.deep_view() =~= prev.push(a[k as int]));
                    assert(cargo_args.deep_view() =~= a.subrange(s + 1, k + 1));
                }
                k += 1;
            }
            proof {
                assert(a.subrange(s + 1, a.len() as int) =~= a.skip(s + 1));
            }
        } else {
            proof {
                assert(cargo_args.deep_view() =~= Seq::<Seq<char>>::empty());
            }
        }
        Ok(PrintAllItemsPluginArgs { allcaps, cargo_args })
    }
}

/// Returns the index of the first separator token, or the argument count
/// when none occurs.
fn find_separator(args: &Vec<String>) -> (s: usize)
    ensures
        s <= args.len(),
        forall|j: int| 0 <= j < s ==> !is_separator(#[trigger] args.deep_view()[j]),
        s < args.len() ==> is_separator(args.deep_view()[s as int]),
{
    let sep = String::from_str("--");
    let mut i: usize = 0;
    while i < args.len()
        invariant
            sep@ == "--"@,
            i <= args.len(),
            forall|j: int| 0 <= j < i ==> !is_separator(#[trigger] args.deep_view()[j]),
        decreases args.len() - i,
    {
        if args[i] == sep {
            return i;
        }
        i += 1;
    }
    args.len()
}

/// The number of tokens before the first separator is exactly the index of
/// that separator, or the whole length when none occurs.
proof fn lemma_flags_len_at(a: Seq<Seq<char>>, s: int)
    requires
        0 <= s <= a.len(),
        forall|j: int| 0 <= j < s ==> !is_separator(#[trigger] a[j]),
        s < a.len() ==> is_separator(a[s]),
    ensures
        flags_len(a) == s,
    decreases a.len(),
{
    if a.len() == 0 {
    } else if is_separator(a[0]) {
        assert(s == 0);
    } else {
        assert(s >= 1);
        let d = a.drop_first();
        assert(forall|j: int| 0 <= j < s - 1 ==> !is_separator(#[trigger] d[j]));
        if s - 1 < d.len() {
            assert(d[s - 1] == a[s]);
        }
        lemma_flags_len_at(d, s - 1);
    }
}

} // verus!
