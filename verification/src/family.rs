use vstd::prelude::*;

use crate::range::{Range, RangeV};

verus! {

/// An installed font family: its name, unique within a roster, and the code
/// point ranges a scan-match record restricts it to (empty until such a
/// record is found).
#[derive(Debug, PartialEq)]
pub struct Family {
    pub name: String,
    pub stripped_ranges: Vec<Range>,
}

/// The mathematical model of a [`Family`].
pub struct FamilyV {
    pub name: Seq<char>,
    pub stripped_ranges: Seq<RangeV>,
}

impl View for Family {
    type V = FamilyV;

    open spec fn view(&self) -> FamilyV {
        FamilyV {
            name: self.name@,
            stripped_ranges: self.stripped_ranges@.map_values(|r: Range| r@),
        }
    }
}

} // verus!
