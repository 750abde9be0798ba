//! The plugin harness: identity, crate filter, pass-through forwarding, and
//! the observational core of the post-analysis callback.

use vstd::prelude::*;
use vstd::string::StringExecFns;
use crate::config::{ConfigError, PrintAllItemsPluginArgs};
use crate::extract::{extract_items, spec_extract};
use crate::json::{array_json, serialize_items};
use crate::record::{Decl, DeclView};

verus! {

/// Which compilation units of the build graph the plugin analyzes. No
/// file-scoping option is exposed, so the only choice is all of them.
#[derive(Clone, Copy, Debug, PartialEq, Eq, Structural)]
pub enum CrateFilter {
    /// Analyze every compilation unit reachable from the build graph.
    AllCrates,
}

/// The signal the analysis callback hands back to the host compiler.
#[derive(Clone, Copy, Debug, PartialEq, Eq, Structural)]
pub enum Compilation {
    /// Let compilation run to completion.
    Continue,
    /// Halt the session after the current stage.
    Stop,
}

/// The plugin handed to the host build tool's plugin framework.
pub struct PrintAllItemsPlugin;

/// The complete document emitted for one compilation unit under one
/// configuration: the serialized records of its declarations, in order.
pub open spec fn spec_document(decls: Seq<DeclView>, allcaps: bool) -> Seq<char> {
    array_json(spec_extract(decls, allcaps))
}

/// Produces the report for one compilation unit: one record per top-level
/// declaration, in visitation order, encoded as a JSON array.
pub fn print_all_items(decls: &Vec<Decl>, args: &PrintAllItemsPluginArgs) -> (r: String)
    ensures
        r@ == spec_document(decls.deep_view(), args.allcaps),
{
    let items = extract_items(decls, args);
    serialize_items(&items)
}

impl PrintAllItemsPlugin {
    /// The plugin's stable version string, as the host displays it.
    pub fn version(&self) -> (r: String)
        ensures
            r@ == "0.1.0"@,
    {
        String::from_str("0.1.0")
    }

    /// The name of the driver binary the host build tool dispatches to.
    pub fn driver_name(&self) -> (r: String)
        ensures
            r@ == "salt-driver"@,
    {
        String::from_str("salt-driver")
    }

    /// Parses the raw plugin arguments into the configuration and chooses
    /// the crate filter; fails fast on an unrecognized switch, before any
    /// compiler session starts.
    pub fn args(&self, raw: &Vec<String>) -> (r: Result<
        (PrintAllItemsPluginArgs, CrateFilter),
        ConfigError,
    >)
        ensures
            r is Ok <==> PrintAllItemsPluginArgs::spec_accepts(raw.deep_view()),
            match r {
                Ok(p) => PrintAllItemsPluginArgs::is_parse_of(raw.deep_view(), p.0) && p.1
                    == CrateFilter::AllCrates,
                Err(e) => PrintAllItemsPluginArgs::is_parse_error_of(raw.deep_view(), e),
            },
    {
        match PrintAllItemsPluginArgs::parse(raw) {
            Ok(cfg) => Ok((cfg, CrateFilter::AllCrates)),
            Err(e) => Err(e),
        }
    }

    /// Appends the configured pass-through arguments to the underlying
    /// build invocation's argument list, verbatim and in order, changing
    /// nothing that was already there.
    pub fn modify_cargo(&self, cargo: &mut Vec<String>, args: &PrintAllItemsPluginArgs)
        ensures
            final(cargo).deep_view() == old(cargo).deep_view() + args.cargo_args.deep_view(),
    {
        let ghost base = cargo.deep_view();
        let ghost extra = args.cargo_args.deep_view();
        let mut i: usize = 0;
        while i < args.cargo_args.len()
            invariant
                extra == args.cargo_args.deep_view(),
                i <= args.cargo_args.len(),
                cargo.deep_view() == base + extra.subrange(0, i as int),
            decreases args.cargo_args.len() - i,
        {
            let ghost prev = cargo.deep_view();
            cargo.push(args.cargo_args[i].clone());
            proof {
                assert(cargo.deep_view() =~= prev.push(extra[i as int]));
                assert(cargo.deep_view() =~= base + extra.subrange(0, i + 1));
            }
            i += 1;
        }
        proof {
            assert(extra.subrange(0, extra.len() as int) =~= extra);
        }
    }
}

/// The state the registered post-analysis callback carries: the resolved
/// configuration, read-only across firings.
pub struct PrintAllItemsCallbacks {
    /// The configuration for this compiler session.
    pub args: PrintAllItemsPluginArgs,
}

impl PrintAllItemsCallbacks {
    /// The observational core of one callback firing: produces the document
    /// for the compilation unit just analyzed, and always signals the host
    /// to continue compilation — downstream units may depend on this unit's
    /// compiled metadata, so the plugin never halts the build.
    pub fn after_analysis(&self, decls: &Vec<Decl>) -> (r: (String, Compilation))
        ensures
            r.0@ == spec_document(decls.deep_view(), self.args.allcaps),
            r.1 == Compilation::Continue,
    {
        let doc = print_all_items(decls, &self.args);
        (doc, Compilation::Continue)
    }
}

/// Determinism of extraction: the emitted document is a function of the
/// resolved declarations and the configuration alone, so running the
/// extraction twice over an unchanged compilation unit yields
/// byte-identical output.
pub proof fn lemma_extraction_deterministic(
    decls: Seq<DeclView>,
    allcaps: bool,
    d1: Seq<char>,
    d2: Seq<char>,
)
    requires
        d1 == spec_document(decls, allcaps),
        d2 == spec_document(decls, allcaps),
    ensures
        d1 == d2,
{
}

} // verus!
