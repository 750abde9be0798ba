//! The extractor: one record per top-level declaration, in visitation order,
//! with the configured name transform applied.

use vstd::prelude::*;
use vstd::string::StrSliceExecFns;
use crate::config::PrintAllItemsPluginArgs;
use crate::record::{Decl, DeclView, Item, ItemView};

verus! {

/// What `str::to_uppercase` returns for a given character sequence.
pub uninterp spec fn upper_of(s: Seq<char>) -> Seq<char>;

/// Relies on `str::to_uppercase`: the returned string is the Unicode
/// upper-case equivalent of the input and depends on its characters alone.
#[verifier::external_body]
fn to_upper(s: &str) -> (r: String)
    ensures
        r@ == upper_of(s@),
{
    s.to_uppercase()
}

/// The name the record for declaration `d` carries: upper-cased exactly
/// when `allcaps` is set.
pub open spec fn record_name(d: DeclView, allcaps: bool) -> Seq<char> {
    if allcaps {
        upper_of(d.name)
    } else {
        d.name
    }
}

/// The record emitted for declaration `d`: the (possibly upper-cased)
/// identifier, and the category tag always passed through unmodified.
pub open spec fn spec_record(d: DeclView, allcaps: bool) -> ItemView {
    ItemView { name: record_name(d, allcaps), ty: d.kind }
}

/// The ordered record sequence for a whole compilation unit: exactly one
/// record per declaration, in the order the host exposes them.
pub open spec fn spec_extract(decls: Seq<DeclView>, allcaps: bool) -> Seq<ItemView> {
    decls.map_values(|d: DeclView| spec_record(d, allcaps))
}

/// One record per declaration: for a compilation unit with N top-level
/// declarations the extracted sequence holds exactly N records, and the
/// record at each position belongs to the declaration at that position.
pub proof fn lemma_one_record_per_declaration(decls: Seq<DeclView>, allcaps: bool)
    ensures
        spec_extract(decls, allcaps).len() == decls.len(),
        forall|i: int| 0 <= i < decls.len() ==> spec_extract(decls, allcaps)[i] == spec_record(
            #[trigger] decls[i],
            allcaps,
        ),
{
}

/// Walks the declarations of one compilation unit and produces its records.
pub fn extract_items(decls: &Vec<Decl>, args: &PrintAllItemsPluginArgs) -> (r: Vec<Item>)
    ensures
        r.deep_view() == spec_extract(decls.deep_view(), args.allcaps),
        r.deep_view().len() == decls.deep_view().len(),
{
    let ghost a = decls.deep_view();
    let ghost c = args.allcaps;
    let mut out: Vec<Item> = Vec::new();
    let mut i: usize = 0;
    while i < decls.len()
        invariant
            a == decls.deep_view(),
            c == args.allcaps,
            i <= decls.len(),
            out.deep_view() == spec_extract(a, c).subrange(0, i as int),
        decreases decls.len() - i,
    {
        let ghost prev = out.deep_view();
        let d = &decls[i];
        let name = if args.allcaps {
            to_upper(d.name.as_str())
        } else {
            d.name.clone()
        };
        let it = Item { name, ty: d.kind.clone() };
        assert(it.deep_view() == spec_record(a[i as int], c));
        out.push(it);
        proof {
            assert(out.deep_view() =~= prev.push(spec_record(a[i as int], c)));
            assert(spec_extract(a, c)[i as int] == spec_record(a[i as int], c));
            assert(out.deep_view() =~= spec_extract(a, c).subrange(0, i + 1));
        }
        i += 1;
    }
    proof {
        assert(spec_extract(a, c).subrange(0, a.len() as int) =~= spec_extract(a, c));
    }
    out
}

} // verus!
