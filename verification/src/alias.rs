use vstd::prelude::*;

verus! {

/// An alias record: a logical family name together with its ordered
/// preference list. Each entry of `prefer_list` is an index into the roster
/// the alias was resolved against, so that several records can share one
/// family and observe the same mutations.
#[derive(Debug, PartialEq)]
pub struct Alias {
    pub name: String,
    pub prefer_list: Vec<usize>,
}

/// The mathematical model of an [`Alias`].
pub struct AliasV {
    pub name: Seq<char>,
    pub prefer_list: Seq<usize>,
}

impl View for Alias {
    type V = AliasV;

    open spec fn view(&self) -> AliasV {
        AliasV { name: self.name@, prefer_list: self.prefer_list@ }
    }
}

} // verus!
