//! The item record model: one record per top-level declaration.

use vstd::prelude::*;

verus! {

/// A top-level declaration as the host compiler's introspection surface
/// exposes it: its rendered identifier and the host's category tag.
pub struct Decl {
    /// The declaration's identifier, rendered as text.
    pub name: String,
    /// The host's textual description of the declaration category.
    pub kind: String,
}

/// The mathematical view of a [`Decl`]: both fields as character sequences.
pub ghost struct DeclView {
    pub name: Seq<char>,
    pub kind: Seq<char>,
}

impl View for Decl {
    type V = DeclView;

    open spec fn view(&self) -> DeclView {
        DeclView { name: self.name@, kind: self.kind@ }
    }
}

impl DeepView for Decl {
    type V = DeclView;

    open spec fn deep_view(&self) -> DeclView {
        self.view()
    }
}

/// One emitted record of the report. The field names `name` and `ty` are a
/// fixed external contract: consumers script against them.
pub struct Item {
    /// The declaration's identifier, possibly upper-cased by configuration.
    pub name: String,
    /// The declaration's category tag, always passed through unmodified.
    pub ty: String,
}

/// The mathematical view of an [`Item`]: both fields as character sequences.
pub ghost struct ItemView {
    pub name: Seq<char>,
    pub ty: Seq<char>,
}

impl View for Item {
    type V = ItemView;

    open spec fn view(&self) -> ItemView {
        ItemView { name: self.name@, ty: self.ty@ }
    }
}

impl DeepView for Item {
    type V = ItemView;

    open spec fn deep_view(&self) -> ItemView {
        self.view()
    }
}

impl Item {
    /// Builds the record for one declaration, before any configured
    /// transform: the identifier becomes `name`, the category tag `ty`.
    pub fn from_decl(d: &Decl) -> (r: Item)
        ensures
            r@.name == d@.name,
            r@.ty == d@.kind,
    {
        Item { name: d.name.clone(), ty: d.kind.clone() }
    }
}

} // verus!
