use vstd::prelude::*;

use crate::alias::Alias;
use crate::node::Node;

verus! {

/// The outcome of one synchronization pass: the scan-match records (as
/// roster indices), the alias records, and the residue — the document's root
/// with every managed child removed and everything else kept verbatim, in
/// its original relative order.
#[derive(Debug)]
pub struct Config {
    pub scan_matches: Vec<usize>,
    pub aliases: Vec<Alias>,
    pub residue: Node,
}

/// Why a synchronization pass failed. Every failure is fatal: no partial
/// [`Config`] is produced.
#[derive(Debug, PartialEq)]
pub enum SyncError {
    /// The raw text does not parse as a structurally valid document; carries
    /// the parser's diagnostic text.
    MalformedDocument { detail: String },
    /// The parsed document has no usable top-level element.
    InvalidRoot,
    /// A managed record is missing a structurally mandatory part, or a
    /// charset group violates the grouping rules; `element` names the
    /// offending tag and `missing` what was expected of it.
    InvalidRecord { element: String, missing: String },
}

/// The mathematical model of a [`SyncError`].
pub enum SyncErrorV {
    MalformedDocument { detail: Seq<char> },
    InvalidRoot,
    InvalidRecord { element: Seq<char>, missing: Seq<char> },
}

impl View for SyncError {
    type V = SyncErrorV;

    open spec fn view(&self) -> SyncErrorV {
        match self {
            SyncError::MalformedDocument { detail } => SyncErrorV::MalformedDocument {
                detail: detail@,
            },
            SyncError::InvalidRoot => SyncErrorV::InvalidRoot,
            SyncError::InvalidRecord { element, missing } => SyncErrorV::InvalidRecord {
                element: element@,
                missing: missing@,
            },
        }
    }
}

} // verus!
