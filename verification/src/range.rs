use vstd::prelude::*;

verus! {

/// A named set of Unicode code points, in one of three flavors: a single
/// contiguous block, a script of one or more intervals, or a user-declared
/// custom interval. Every interval is closed: `(lo, hi)` covers `lo`
/// through `hi` inclusive.
#[derive(Debug, PartialEq, Eq)]
#[allow(inconsistent_fields)]
pub enum Range {
    /// A single contiguous block of code points from the Unicode block table.
    Block { name: String, code_points: (i32, i32) },
    /// A script: one or more intervals of code points, in table order.
    Script { name: String, code_points: Vec<(i32, i32)> },
    /// A single user-declared interval, not tied to the Unicode tables.
    Custom { name: String, code_points: (i32, i32) },
}

/// The mathematical model of a [`Range`].
pub enum RangeV {
    Block { name: Seq<char>, code_points: (i32, i32) },
    Script { name: Seq<char>, code_points: Seq<(i32, i32)> },
    Custom { name: Seq<char>, code_points: (i32, i32) },
}

impl View for Range {
    type V = RangeV;

    open spec fn view(&self) -> RangeV {
        match self {
            Range::Block { name, code_points } => RangeV::Block {
                name: name@,
                code_points: *code_points,
            },
            Range::Script { name, code_points } => RangeV::Script {
                name: name@,
                code_points: code_points@,
            },
            Range::Custom { name, code_points } => RangeV::Custom {
                name: name@,
                code_points: *code_points,
            },
        }
    }
}

} // verus!
