//! A dynamic-loader core: relocation records, a relocation engine over a
//! word-addressed memory model, symbol resolution across a working set of
//! loaded images, and the staged algorithm that links an executable against
//! its declared dependencies.

use vstd::prelude::*;

pub mod image;
pub mod linker;
pub mod memory;
pub mod rela;
pub mod relocate;
pub mod sym;

verus! {

/// Failures of the link pipeline. Every fallible stage reports one of these;
/// the orchestrator fails fast on the first error it sees.
#[derive(Debug)]
pub enum LinkError {
    /// The loader's own program headers name no dynamic section, so
    /// self-relocation is impossible.
    NoDynamicSection,
    /// The dynamic section's relocation-table size is not a multiple of its
    /// entry size (or the entry size is zero).
    MalformedRelocationTable,
    /// Self-relocation found an entry that is not a base-relative kind.
    NonRelativeEntry,
    /// A declared dependency could not be mapped; carries its name.
    LoadFailure(String),
    /// A mandatory symbol reference matched no definition in the working
    /// set; carries the symbol's name bytes from the string table.
    UnresolvedSymbol(Vec<u8>),
}

/// A short label for each error kind, for diagnostics.
pub open spec fn error_label(e: LinkError) -> Seq<char> {
    match e {
        LinkError::NoDynamicSection => "no dynamic section"@,
        LinkError::MalformedRelocationTable => "malformed relocation table"@,
        LinkError::NonRelativeEntry => "non-relative entry in self-relocation"@,
        LinkError::LoadFailure(_) => "load failure"@,
        LinkError::UnresolvedSymbol(_) => "unresolved symbol"@,
    }
}

impl LinkError {
    /// The label of this error, for the diagnostic path.
    pub fn label(&self) -> (r: &'static str)
        ensures
            r@ == error_label(*self),
    {
        match self {
            LinkError::NoDynamicSection => "no dynamic section",
            LinkError::MalformedRelocationTable => "malformed relocation table",
            LinkError::NonRelativeEntry => "non-relative entry in self-relocation",
            LinkError::LoadFailure(_) => "load failure",
            LinkError::UnresolvedSymbol(_) => "unresolved symbol",
        }
    }
}

} // verus!
