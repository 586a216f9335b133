use vstd::prelude::*;

use crate::alias::{Alias, AliasV};
use crate::classify::spec_classify_charset;
use crate::config::{Config, SyncError, SyncErrorV};
use crate::range::RangeV;
use crate::consts::{marker_prefix, spec_marker_prefix};
use crate::family::{Family, FamilyV};
use crate::node::{
    child_element, children_element, lemma_child_element_named, lemma_children_elements_named,
    spec_attr, spec_child_element, spec_children_elements, spec_node_attrs, spec_node_children,
    spec_node_name, spec_text, text, Node,
};
use crate::strutil::{seq_starts_with, str_eq, str_starts_with};

verus! {

use vstd::string::StringExecFns;

/// The view of a whole roster.
pub open spec fn roster_view(roster: Seq<Family>) -> Seq<FamilyV> {
    roster.map_values(|f: Family| f@)
}

/// A comment node whose text begins with the marker prefix.
pub open spec fn spec_is_marker_comment(n: Node) -> bool {
    &&& n matches Node::Comment { .. }
    &&& seq_starts_with(n.spec_comment_text(), spec_marker_prefix())
}

/// Whether `n` is a marker comment, the tag that makes its following
/// sibling managed content.
pub fn is_typeholder_comment(n: &Node) -> (r: bool)
    ensures
        r == spec_is_marker_comment(*n),
{
    match n {
        Node::Comment { text: t } => str_starts_with(t.as_str(), marker_prefix()),
        _ => false,
    }
}

/// The index of the first roster family named `name`, at or after `i`.
pub open spec fn spec_find_family_from(roster: Seq<FamilyV>, name: Seq<char>, i: int) -> Option<int>
    decreases roster.len() - i,
{
    if i < 0 || i >= roster.len() {
        None
    } else if roster[i].name == name {
        Some(i)
    } else {
        spec_find_family_from(roster, name, i + 1)
    }
}

/// The index of the first roster family named `name`, if any. Lookup is a
/// case-sensitive exact match.
pub open spec fn spec_find_family(roster: Seq<FamilyV>, name: Seq<char>) -> Option<int> {
    spec_find_family_from(roster, name, 0)
}

/// Looks `name` up in the roster, returning the index of the first family
/// with exactly that name.
pub fn find_family(roster: &Vec<Family>, name: &str) -> (r: Option<usize>)
    ensures
        match r {
            Some(i) => spec_find_family(roster_view(roster@), name@) == Some(i as int) && i
                < roster@.len(),
            None => spec_find_family(roster_view(roster@), name@) is None,
        },
{
    let n = roster.len();
    let mut i: usize = 0;
    while i < n
        invariant
            i <= n,
            n == roster@.len(),
            spec_find_family(roster_view(roster@), name@) == spec_find_family_from(
                roster_view(roster@),
                name@,
                i as int,
            ),
        decreases n - i,
    {
        if str_eq(roster[i].name.as_str(), name) {
            return Some(i);
        }
        i += 1;
    }
    None
}

/// Locates the mandatory child element `name` of `e`; its absence is a
/// fatal record error naming the element and the missing child.
pub fn checked_child_element<'a>(name: &str, e: &'a Node) -> (r: Result<&'a Node, SyncError>)
    requires
        *e matches Node::Element { .. },
    ensures
        match r {
            Ok(c) => spec_child_element(spec_node_children(*e), name@) == Some(*c),
            Err(er) => {
                &&& spec_child_element(spec_node_children(*e), name@) is None
                &&& er@ == (SyncErrorV::InvalidRecord {
                    element: spec_node_name(*e),
                    missing: name@,
                })
            },
        },
{
    match e {
        Node::Element { name: ename, children, .. } => {
            match child_element(name, children) {
                Some(c) => Ok(c),
                None => Err(
                    SyncError::InvalidRecord {
                        element: ename.clone(),
                        missing: String::from_str(name),
                    },
                ),
            }
        },
        _ => {
            proof {
                assert(false);
            }
            Err(SyncError::InvalidRoot)
        },
    }
}

/// Reads the mandatory text of `e`; a textless element is a fatal record
/// error naming the element.
pub fn checked_text<'a>(e: &'a Node) -> (r: Result<&'a String, SyncError>)
    requires
        *e matches Node::Element { .. },
    ensures
        match r {
            Ok(t) => spec_text(spec_node_children(*e)) == Some(*t),
            Err(er) => {
                &&& spec_text(spec_node_children(*e)) is None
                &&& er@ == (SyncErrorV::InvalidRecord {
                    element: spec_node_name(*e),
                    missing: "text"@,
                })
            },
        },
{
    match e {
        Node::Element { name: ename, children, .. } => {
            match text(children) {
                Some(t) => Ok(t),
                None => Err(
                    SyncError::InvalidRecord {
                        element: ename.clone(),
                        missing: String::from_str("text"),
                    },
                ),
            }
        },
        _ => {
            proof {
                assert(false);
            }
            Err(SyncError::InvalidRoot)
        },
    }
}

/// Resolution of the prefer list: each `family` grandchild's text is looked
/// up in the roster; matches are kept as roster indices in document order,
/// names absent from the roster are silently dropped, and a grandchild
/// without text is a fatal record error.
pub open spec fn spec_resolve_prefer_from(
    items: Seq<Node>,
    roster: Seq<FamilyV>,
    i: int,
) -> Result<Seq<usize>, SyncErrorV>
    decreases items.len() - i,
{
    if i < 0 || i >= items.len() {
        Ok(Seq::empty())
    } else {
        match spec_text(spec_node_children(items[i])) {
            None => Err(
                SyncErrorV::InvalidRecord { element: spec_node_name(items[i]), missing: "text"@ },
            ),
            Some(t) => match spec_resolve_prefer_from(items, roster, i + 1) {
                Err(er) => Err(er),
                Ok(rest) => match spec_find_family(roster, t@) {
                    Some(k) => Ok(seq![k as usize] + rest),
                    None => Ok(rest),
                },
            },
        }
    }
}

/// What parsing an alias record yields: its name is the mandatory `family`
/// child's text, and its preference list resolves the `family` grandchildren
/// of the mandatory `prefer` child against the roster.
pub open spec fn spec_parse_alias(e: Node, roster: Seq<FamilyV>) -> Result<AliasV, SyncErrorV> {
    let kids = spec_node_children(e);
    match spec_child_element(kids, "family"@) {
        None => Err(SyncErrorV::InvalidRecord { element: spec_node_name(e), missing: "family"@ }),
        Some(fam) => match spec_text(spec_node_children(fam)) {
            None => Err(
                SyncErrorV::InvalidRecord { element: spec_node_name(fam), missing: "text"@ },
            ),
            Some(nm) => match spec_child_element(kids, "prefer"@) {
                None => Err(
                    SyncErrorV::InvalidRecord { element: spec_node_name(e), missing: "prefer"@ },
                ),
                Some(pref) => match spec_resolve_prefer_from(
                    spec_children_elements(spec_node_children(pref), "family"@),
                    roster,
                    0,
                ) {
                    Err(er) => Err(er),
                    Ok(list) => Ok(AliasV { name: nm@, prefer_list: list }),
                },
            },
        },
    }
}

/// Parses one managed alias element against the roster, as
/// [`spec_parse_alias`] describes.
#[verifier::loop_isolation(false)]
pub fn parse_alias(e: &Node, roster: &Vec<Family>) -> (r: Result<Alias, SyncError>)
    requires
        *e matches Node::Element { .. },
    ensures
        match r {
            Ok(a) => spec_parse_alias(*e, roster_view(roster@)) == Ok::<AliasV, SyncErrorV>(a@),
            Err(er) => spec_parse_alias(*e, roster_view(roster@)) == Err::<AliasV, SyncErrorV>(
                er@,
            ),
        },
{
    let fam = match checked_child_element("family", e) {
        Ok(c) => c,
        Err(er) => {
            return Err(er);
        },
    };
    proof {
        lemma_child_element_named(spec_node_children(*e), "family"@, 0);
    }
    let name_s = match checked_text(fam) {
        Ok(t) => t.clone(),
        Err(er) => {
            return Err(er);
        },
    };
    let pref = match checked_child_element("prefer", e) {
        Ok(c) => c,
        Err(er) => {
            return Err(er);
        },
    };
    proof {
        lemma_child_element_named(spec_node_children(*e), "prefer"@, 0);
    }
    let pref_children: &Vec<Node> = match pref {
        Node::Element { children, .. } => children,
        _ => {
            proof {
                assert(false);
            }
            return Err(SyncError::InvalidRoot);
        },
    };
    let items = children_element("family", pref_children);
    proof {
        lemma_children_elements_named(spec_node_children(*pref), "family"@, 0);
    }
    let ghost items_v = spec_children_elements(spec_node_children(*pref), "family"@);
    let ghost rosterv = roster_view(roster@);
    let n = items.len();
    let mut prefer_list: Vec<usize> = Vec::new();
    let mut i: usize = 0;
    proof {
        assert(items@.map_values(|c: &Node| *c).len() == items@.len());
        match spec_resolve_prefer_from(items_v, rosterv, 0) {
            Ok(rest) => {
                assert(Seq::<usize>::empty() + rest =~= rest);
            },
            Err(_) => {},
        }
    }
    while i < n
        invariant
            i <= n,
            n == items@.len(),
            items@.map_values(|c: &Node| *c) == items_v,
            rosterv == roster_view(roster@),
            forall|k: int| 0 <= k < items_v.len() ==> (#[trigger] items_v[k]).is_element_named(
                "family"@,
            ),
            match spec_resolve_prefer_from(items_v, rosterv, i as int) {
                Ok(rest) => spec_resolve_prefer_from(items_v, rosterv, 0) == Ok::<
                    Seq<usize>,
                    SyncErrorV,
                >(prefer_list@ + rest),
                Err(er) => spec_resolve_prefer_from(items_v, rosterv, 0) == Err::<
                    Seq<usize>,
                    SyncErrorV,
                >(er),
            },
        decreases n - i,
    {
        let item: &Node = items[i];
        proof {
            assert(items@.map_values(|c: &Node| *c)[i as int] == items_v[i as int]);
        }
        let t = match checked_text(item) {
            Ok(t) => t,
            Err(er) => {
                proof {
                    assert(spec_resolve_prefer_from(items_v, rosterv, i as int) == Err::<
                        Seq<usize>,
                        SyncErrorV,
                    >(er@));
                }
                return Err(er);
            },
        };
        match find_family(roster, t.as_str()) {
            Some(k) => {
                proof {
                    match spec_resolve_prefer_from(items_v, rosterv, i as int + 1) {
                        Ok(rest) => {
                            assert(prefer_list@.push(k) + rest =~= prefer_list@ + (seq![k] + rest));
                        },
                        Err(_) => {},
                    }
                }
                prefer_list.push(k);
            },
            None => {},
        }
        i += 1;
    }
    proof {
        assert(spec_resolve_prefer_from(items_v, rosterv, n as int) == Ok::<Seq<usize>, SyncErrorV>(
            Seq::empty(),
        ));
        assert(prefer_list@ + Seq::<usize>::empty() =~= prefer_list@);
    }
    Ok(Alias { name: name_s, prefer_list })
}

/// What processing a scan-match record yields. The mandatory `test`/`string`
/// path names a target family; an unknown name is silently skipped. For a
/// known family the mandatory `edit`/`minus`/`charset` path is classified
/// into the ranges that replace the family's `stripped_ranges`.
pub open spec fn spec_update_family(e: Node, roster: Seq<FamilyV>) -> Result<
    Option<(int, Seq<RangeV>)>,
    SyncErrorV,
> {
    let kids = spec_node_children(e);
    match spec_child_element(kids, "test"@) {
        None => Err(SyncErrorV::InvalidRecord { element: spec_node_name(e), missing: "test"@ }),
        Some(te) => match spec_child_element(spec_node_children(te), "string"@) {
            None => Err(
                SyncErrorV::InvalidRecord { element: spec_node_name(te), missing: "string"@ },
            ),
            Some(se) => match spec_text(spec_node_children(se)) {
                None => Err(
                    SyncErrorV::InvalidRecord { element: spec_node_name(se), missing: "text"@ },
                ),
                Some(fname) => match spec_find_family(roster, fname@) {
                    None => Ok(None),
                    Some(fi) => match spec_child_element(kids, "edit"@) {
                        None => Err(
                            SyncErrorV::InvalidRecord {
                                element: spec_node_name(e),
                                missing: "edit"@,
                            },
                        ),
                        Some(ed) => match spec_child_element(spec_node_children(ed), "minus"@) {
                            None => Err(
                                SyncErrorV::InvalidRecord {
                                    element: spec_node_name(ed),
                                    missing: "minus"@,
                                },
                            ),
                            Some(mi) => match spec_child_element(
                                spec_node_children(mi),
                                "charset"@,
                            ) {
                                None => Err(
                                    SyncErrorV::InvalidRecord {
                                        element: spec_node_name(mi),
                                        missing: "charset"@,
                                    },
                                ),
                                Some(cs) => match spec_classify_charset(spec_node_children(cs)) {
                                    Err(er) => Err(er),
                                    Ok(ranges) => Ok(Some((fi, ranges))),
                                },
                            },
                        },
                    },
                },
            },
        },
    }
}

/// Processes one managed scan-match element, as [`spec_update_family`]
/// describes: on a match, the family's `stripped_ranges` are replaced in
/// place, so every holder of that roster index observes the new ranges; the
/// roster's length and family names never change.
#[verifier::loop_isolation(false)]
pub fn update_family(e: &Node, roster: &mut Vec<Family>) -> (r: Result<Option<usize>, SyncError>)
    requires
        *e matches Node::Element { .. },
    ensures
        final(roster)@.len() == old(roster)@.len(),
        forall|k: int|
            0 <= k < old(roster)@.len() ==> (#[trigger] final(roster)@[k]).name == old(
                roster,
            )@[k].name,
        match r {
            Ok(opt) => match opt {
                Some(fi) => {
                    &&& spec_update_family(*e, roster_view(old(roster)@)) matches Ok(o2)
                    &&& o2 matches Some(pair)
                    &&& pair.0 == fi as int
                    &&& fi < old(roster)@.len()
                    &&& roster_view(final(roster)@) == roster_view(old(roster)@).update(
                        fi as int,
                        FamilyV {
                            name: roster_view(old(roster)@)[fi as int].name,
                            stripped_ranges: pair.1,
                        },
                    )
                    &&& forall|k: int|
                        0 <= k < old(roster)@.len() && k != fi ==> #[trigger] final(roster)@[k]
                            == old(roster)@[k]
                },
                None => spec_update_family(*e, roster_view(old(roster)@)) == Ok::<
                    Option<(int, Seq<RangeV>)>,
                    SyncErrorV,
                >(None) && final(roster)@ == old(roster)@,
            },
            Err(er) => spec_update_family(*e, roster_view(old(roster)@)) == Err::<
                Option<(int, Seq<RangeV>)>,
                SyncErrorV,
            >(er@) && final(roster)@ == old(roster)@,
        },
{
    let te = match checked_child_element("test", e) {
        Ok(c) => c,
        Err(er) => {
            return Err(er);
        },
    };
    proof {
        lemma_child_element_named(spec_node_children(*e), "test"@, 0);
    }
    let se = match checked_child_element("string", te) {
        Ok(c) => c,
        Err(er) => {
            return Err(er);
        },
    };
    proof {
        lemma_child_element_named(spec_node_children(*te), "string"@, 0);
    }
    let fname = match checked_text(se) {
        Ok(t) => t,
        Err(er) => {
            return Err(er);
        },
    };
    let fi = match find_family(roster, fname.as_str()) {
        Some(fi) => fi,
        None => {
            return Ok(None);
        },
    };
    let ed = match checked_child_element("edit", e) {
        Ok(c) => c,
        Err(er) => {
            return Err(er);
        },
    };
    proof {
        lemma_child_element_named(spec_node_children(*e), "edit"@, 0);
    }
    let mi = match checked_child_element("minus", ed) {
        Ok(c) => c,
        Err(er) => {
            return Err(er);
        },
    };
    proof {
        lemma_child_element_named(spec_node_children(*ed), "minus"@, 0);
    }
    let cs = match checked_child_element("charset", mi) {
        Ok(c) => c,
        Err(er) => {
            return Err(er);
        },
    };
    proof {
        lemma_child_element_named(spec_node_children(*mi), "charset"@, 0);
    }
    let cs_children: &Vec<Node> = match cs {
        Node::Element { children, .. } => children,
        _ => {
            proof {
                assert(false);
            }
            return Err(SyncError::InvalidRoot);
        },
    };
    let ranges = match crate::classify::classify_charset(cs_children) {
        Ok(v) => v,
        Err(er) => {
            return Err(er);
        },
    };
    let ghost roster0 = roster@;
    let f = roster.remove(fi);
    let f2 = Family { name: f.name, stripped_ranges: ranges };
    let ghost fv2 = f2@;
    roster.insert(fi, f2);
    proof {
        assert(roster@ =~= roster0.update(fi as int, f2));
        assert forall|k: int| 0 <= k < roster0.len() implies #[trigger] roster_view(roster@)[k]
            == roster_view(roster0).update(
            fi as int,
            FamilyV { name: roster_view(roster0)[fi as int].name, stripped_ranges: fv2.stripped_ranges },
        )[k] by {
            assert(roster_view(roster@)[k] == roster@[k]@);
            assert(roster_view(roster0)[k] == roster0[k]@);
        }
        assert(roster_view(roster@) =~= roster_view(roster0).update(
            fi as int,
            FamilyV { name: roster_view(roster0)[fi as int].name, stripped_ranges: fv2.stripped_ranges },
        ));
    }
    Ok(Some(fi))
}

/// The running state of the synchronizer's walk over the root's children:
/// whether the previous sibling was a marker comment, the collections built
/// so far, and the roster as mutated so far.
pub struct SyncSt {
    pub prev_marker: bool,
    pub scan: Seq<usize>,
    pub aliases: Seq<AliasV>,
    pub residue: Seq<Node>,
    pub roster: Seq<FamilyV>,
}

/// The synchronizer's starting state over a roster.
pub open spec fn spec_sync_init(roster: Seq<FamilyV>) -> SyncSt {
    SyncSt {
        prev_marker: false,
        scan: Seq::empty(),
        aliases: Seq::empty(),
        residue: Seq::empty(),
        roster,
    }
}

/// One step of the walk: a marker comment is dropped; an element whose
/// nearest preceding sibling was a marker comment is managed — an `alias`
/// is parsed, a `match` with `target="scan"` updates the roster, anything
/// else is dropped; every other child is residue, kept verbatim.
pub open spec fn spec_sync_step(c: Node, st: SyncSt) -> Result<SyncSt, SyncErrorV> {
    if spec_is_marker_comment(c) {
        Ok(
            SyncSt {
                prev_marker: true,
                scan: st.scan,
                aliases: st.aliases,
                residue: st.residue,
                roster: st.roster,
            },
        )
    } else if c matches Node::Element { .. } && st.prev_marker {
        if spec_node_name(c) == "alias"@ {
            match spec_parse_alias(c, st.roster) {
                Err(er) => Err(er),
                Ok(a) => Ok(
                    SyncSt {
                        prev_marker: false,
                        scan: st.scan,
                        aliases: st.aliases.push(a),
                        residue: st.residue,
                        roster: st.roster,
                    },
                ),
            }
        } else if spec_node_name(c) == "match"@ && (spec_attr(spec_node_attrs(c), "target"@)
            matches Some(v) && v@ == "scan"@) {
            match spec_update_family(c, st.roster) {
                Err(er) => Err(er),
                Ok(None) => Ok(
                    SyncSt {
                        prev_marker: false,
                        scan: st.scan,
                        aliases: st.aliases,
                        residue: st.residue,
                        roster: st.roster,
                    },
                ),
                Ok(Some(pair)) => Ok(
                    SyncSt {
                        prev_marker: false,
                        scan: st.scan.push(pair.0 as usize),
                        aliases: st.aliases,
                        residue: st.residue,
                        roster: st.roster.update(
                            pair.0,
                            FamilyV { name: st.roster[pair.0].name, stripped_ranges: pair.1 },
                        ),
                    },
                ),
            }
        } else {
            Ok(
                SyncSt {
                    prev_marker: false,
                    scan: st.scan,
                    aliases: st.aliases,
                    residue: st.residue,
                    roster: st.roster,
                },
            )
        }
    } else {
        Ok(
            SyncSt {
                prev_marker: false,
                scan: st.scan,
                aliases: st.aliases,
                residue: st.residue.push(c),
                roster: st.roster,
            },
        )
    }
}

/// The walk over the root's children from position `i`, threading the state.
pub open spec fn spec_sync_from(children: Seq<Node>, i: int, st: SyncSt) -> Result<
    SyncSt,
    SyncErrorV,
>
    decreases children.len() - i,
{
    if i < 0 || i >= children.len() {
        Ok(st)
    } else {
        match spec_sync_step(children[i], st) {
            Err(er) => Err(er),
            Ok(st2) => spec_sync_from(children, i + 1, st2),
        }
    }
}

/// What a whole synchronization pass yields: the collections, the parts of
/// the rebuilt root (same tag and attributes as the old root, the residue as
/// children), and the roster after every scan-match mutation.
pub struct SyncOutV {
    pub scan: Seq<usize>,
    pub aliases: Seq<AliasV>,
    pub residue_name: String,
    pub residue_attrs: Vec<(String, String)>,
    pub residue_children: Seq<Node>,
    pub roster: Seq<FamilyV>,
}

/// The synchronization of a parsed document, given its top-level nodes: the
/// first node must be the root element, whose children are walked by
/// [`spec_sync_from`]; otherwise the document has no usable root.
pub open spec fn spec_synchronize(nodes: Seq<Node>, roster: Seq<FamilyV>) -> Result<
    SyncOutV,
    SyncErrorV,
> {
    if nodes.len() == 0 {
        Err(SyncErrorV::InvalidRoot)
    } else {
        match nodes[0] {
            Node::Element { name, attributes, children } => {
                match spec_sync_from(children@, 0, spec_sync_init(roster)) {
                    Err(er) => Err(er),
                    Ok(st) => Ok(
                        SyncOutV {
                            scan: st.scan,
                            aliases: st.aliases,
                            residue_name: name,
                            residue_attrs: attributes,
                            residue_children: st.residue,
                            roster: st.roster,
                        },
                    ),
                }
            },
            _ => Err(SyncErrorV::InvalidRoot),
        }
    }
}

/// How a successful synchronization relates its inputs to the produced
/// [`Config`] and the roster after the call.
pub open spec fn spec_sync_ok(
    nodes: Seq<Node>,
    roster0: Seq<FamilyV>,
    cfg: Config,
    roster1: Seq<Family>,
) -> bool {
    match spec_synchronize(nodes, roster0) {
        Err(_) => false,
        Ok(out) => {
            &&& cfg.scan_matches@ == out.scan
            &&& cfg.aliases@.map_values(|a: Alias| a@) == out.aliases
            &&& (cfg.residue matches Node::Element { name, attributes, children } && name
                == out.residue_name && attributes == out.residue_attrs && children@
                == out.residue_children)
            &&& roster_view(roster1) == out.roster
        },
    }
}

/// Synchronizes a parsed document against the roster, as
/// [`spec_synchronize`] describes. The roster's length and family names are
/// preserved; only the `stripped_ranges` of scan-matched families change.
#[verifier::loop_isolation(false)]
pub fn synchronize(nodes: Vec<Node>, roster: &mut Vec<Family>) -> (r: Result<Config, SyncError>)
    ensures
        final(roster)@.len() == old(roster)@.len(),
        forall|k: int|
            0 <= k < old(roster)@.len() ==> (#[trigger] final(roster)@[k]).name == old(
                roster,
            )@[k].name,
        match r {
            Ok(cfg) => spec_sync_ok(nodes@, roster_view(old(roster)@), cfg, final(roster)@),
            Err(er) => spec_synchronize(nodes@, roster_view(old(roster)@)) matches Err(ev) && er@
                == ev,
        },
{
    let ghost roster0v = roster_view(roster@);
    let mut nodes = nodes;
    if nodes.len() == 0 {
        return Err(SyncError::InvalidRoot);
    }
    let first = nodes.remove(0);
    let (rname, rattrs, rchildren) = match first {
        Node::Element { name, attributes, children } => (name, attributes, children),
        _ => {
            return Err(SyncError::InvalidRoot);
        },
    };
    let ghost children0 = rchildren@;
    let mut rest = rchildren;
    let mut scan: Vec<usize> = Vec::new();
    let mut aliases: Vec<Alias> = Vec::new();
    let mut residue: Vec<Node> = Vec::new();
    let mut prev: bool = false;
    let mut i: usize = 0;
    let total: usize = rest.len();
    proof {
        assert(children0.skip(0) =~= children0);
        assert(aliases@.map_values(|a: Alias| a@) =~= Seq::<AliasV>::empty());
    }
    while rest.len() > 0
        invariant
            i as int + rest@.len() == total as int,
            total as int == children0.len(),
            rest@ == children0.skip(i as int),
            roster@.len() == old(roster)@.len(),
            forall|k: int|
                0 <= k < old(roster)@.len() ==> (#[trigger] roster@[k]).name == old(
                    roster,
                )@[k].name,
            spec_sync_from(children0, 0, spec_sync_init(roster0v)) == spec_sync_from(
                children0,
                i as int,
                SyncSt {
                    prev_marker: prev,
                    scan: scan@,
                    aliases: aliases@.map_values(|a: Alias| a@),
                    residue: residue@,
                    roster: roster_view(roster@),
                },
            ),
        decreases rest@.len(),
    {
        let c = rest.remove(0);
        proof {
            assert(c == children0[i as int]);
            assert(children0.skip(i as int).remove(0) =~= children0.skip(i as int + 1));
        }
        if is_typeholder_comment(&c) {
            prev = true;
        } else {
            let mut kind: u8 = 0;
            if prev {
                match &c {
                    Node::Element { name: tag, attributes: cattrs, .. } => {
                        if str_eq(tag.as_str(), "alias") {
                            kind = 1;
                        } else if str_eq(tag.as_str(), "match") {
                            match crate::node::attr_value(cattrs, "target") {
                                Some(v) => {
                                    if str_eq(v.as_str(), "scan") {
                                        kind = 2;
                                    } else {
                                        kind = 3;
                                    }
                                },
                                None => {
                                    kind = 3;
                                },
                            }
                        } else {
                            kind = 3;
                        }
                    },
                    _ => {},
                }
            }
            if kind == 1 {
                match parse_alias(&c, roster) {
                    Ok(a) => {
                        proof {
                            assert(aliases@.push(a).map_values(|x: Alias| x@) =~= aliases@.map_values(
                                |x: Alias| x@,
                            ).push(a@));
                        }
                        aliases.push(a);
                    },
                    Err(er) => {
                        return Err(er);
                    },
                }
            } else if kind == 2 {
                match update_family(&c, roster) {
                    Ok(Some(fi)) => {
                        scan.push(fi);
                    },
                    Ok(None) => {},
                    Err(er) => {
                        return Err(er);
                    },
                }
            } else if kind == 3 {
            } else {
                residue.push(c);
            }
            prev = false;
        }
        i += 1;
    }
    proof {
        assert(spec_sync_from(children0, i as int, SyncSt {
            prev_marker: prev,
            scan: scan@,
            aliases: aliases@.map_values(|a: Alias| a@),
            residue: residue@,
            roster: roster_view(roster@),
        }) == Ok::<SyncSt, SyncErrorV>(SyncSt {
            prev_marker: prev,
            scan: scan@,
            aliases: aliases@.map_values(|a: Alias| a@),
            residue: residue@,
            roster: roster_view(roster@),
        }));
    }
    let residue_node = Node::Element { name: rname, attributes: rattrs, children: residue };
    Ok(Config { scan_matches: scan, aliases, residue: residue_node })
}

/// The roster built from enumerated family names, from position `i` on:
/// the generic names `Sans`, `Serif` and `Monospace` are excluded, and
/// every other name becomes a family with no restricted ranges yet.
pub open spec fn spec_roster_from(names: Seq<Seq<char>>, i: int) -> Seq<FamilyV>
    decreases names.len() - i,
{
    if i < 0 || i >= names.len() {
        Seq::empty()
    } else if names[i] == "Sans"@ || names[i] == "Serif"@ || names[i] == "Monospace"@ {
        spec_roster_from(names, i + 1)
    } else {
        seq![FamilyV { name: names[i], stripped_ranges: Seq::empty() }] + spec_roster_from(
            names,
            i + 1,
        )
    }
}

/// Builds the roster from the family names an enumerator supplied, as
/// [`spec_roster_from`] describes.
#[verifier::loop_isolation(false)]
pub fn roster_from_names(names: Vec<String>) -> (r: Vec<Family>)
    ensures
        roster_view(r@) == spec_roster_from(names@.map_values(|s: String| s@), 0),
{
    let ghost namesv = names@.map_values(|s: String| s@);
    let n = names.len();
    let mut out: Vec<Family> = Vec::new();
    let mut i: usize = 0;
    proof {
        assert(roster_view(out@) =~= Seq::<FamilyV>::empty());
        assert(Seq::<FamilyV>::empty() + spec_roster_from(namesv, 0) =~= spec_roster_from(
            namesv,
            0,
        ));
    }
    while i < n
        invariant
            i <= n,
            n == names@.len(),
            roster_view(out@) + spec_roster_from(namesv, i as int) == spec_roster_from(namesv, 0),
        decreases n - i,
    {
        proof {
            assert(namesv[i as int] == names@[i as int]@);
        }
        let nm = &names[i];
        let keep = !(str_eq(nm.as_str(), "Sans") || str_eq(nm.as_str(), "Serif") || str_eq(
            nm.as_str(),
            "Monospace",
        ));
        if keep {
            let ranges: Vec<crate::range::Range> = Vec::new();
            let f = Family { name: nm.clone(), stripped_ranges: ranges };
            proof {
                assert(f@.stripped_ranges =~= Seq::<RangeV>::empty());
                assert(roster_view(out@.push(f)) =~= roster_view(out@).push(f@));
                assert(roster_view(out@).push(f@) + spec_roster_from(namesv, i as int + 1)
                    =~= roster_view(out@) + (seq![
                    FamilyV { name: namesv[i as int], stripped_ranges: Seq::empty() },
                ] + spec_roster_from(namesv, i as int + 1)));
            }
            out.push(f);
        }
        i += 1;
    }
    proof {
        assert(roster_view(out@) + Seq::<FamilyV>::empty() =~= roster_view(out@));
    }
    out
}

/// The residue of a child list from position `i`: every child that is
/// neither a marker comment nor a managed element (one whose nearest
/// preceding sibling was a marker comment), in original order, each subtree
/// kept verbatim.
pub open spec fn spec_residue_filter(children: Seq<Node>, i: int, prev: bool) -> Seq<Node>
    decreases children.len() - i,
{
    if i < 0 || i >= children.len() {
        Seq::empty()
    } else {
        let c = children[i];
        if spec_is_marker_comment(c) {
            spec_residue_filter(children, i + 1, true)
        } else if c matches Node::Element { .. } && prev {
            spec_residue_filter(children, i + 1, false)
        } else {
            seq![c] + spec_residue_filter(children, i + 1, false)
        }
    }
}

/// How many children from position `i` on are managed: marker comments and
/// the elements they mark.
pub open spec fn spec_managed_count(children: Seq<Node>, i: int, prev: bool) -> int
    decreases children.len() - i,
{
    if i < 0 || i >= children.len() {
        0
    } else {
        let c = children[i];
        if spec_is_marker_comment(c) {
            1 + spec_managed_count(children, i + 1, true)
        } else if c matches Node::Element { .. } && prev {
            1 + spec_managed_count(children, i + 1, false)
        } else {
            spec_managed_count(children, i + 1, false)
        }
    }
}

proof fn lemma_sync_from_residue(children: Seq<Node>, i: int, st: SyncSt)
    requires
        0 <= i,
    ensures
        spec_sync_from(children, i, st) matches Ok(st2) ==> st2.residue == st.residue
            + spec_residue_filter(children, i, st.prev_marker),
        spec_residue_filter(children, i, st.prev_marker).len() == children.len() - i
            - spec_managed_count(children, i, st.prev_marker) || i > children.len(),
    decreases children.len() - i,
{
    if i >= children.len() {
        assert(st.residue + Seq::<Node>::empty() =~= st.residue);
    } else {
        let c = children[i];
        match spec_sync_step(c, st) {
            Err(_) => {
                if spec_is_marker_comment(c) {
                    lemma_sync_from_residue(children, i + 1, SyncSt { prev_marker: true, ..st });
                } else {
                    lemma_sync_from_residue(children, i + 1, SyncSt { prev_marker: false, ..st });
                }
            },
            Ok(st2) => {
                lemma_sync_from_residue(children, i + 1, st2);
                if spec_is_marker_comment(c) {
                } else if c matches Node::Element { .. } && st.prev_marker {
                } else {
                    assert(st2.residue == st.residue.push(c));
                    match spec_sync_from(children, i + 1, st2) {
                        Ok(st3) => {
                            assert(st.residue.push(c) + spec_residue_filter(children, i + 1, false)
                                =~= st.residue + (seq![c] + spec_residue_filter(
                                children,
                                i + 1,
                                false,
                            )));
                        },
                        Err(_) => {},
                    }
                }
            },
        }
    }
}

/// Round-trip residue preservation: on success the residue's children are
/// exactly the unmanaged children of the old root — the same subtree
/// values, in their original relative order — and their count is the old
/// child count minus the managed ones.
pub proof fn lemma_residue_preservation(nodes: Seq<Node>, roster: Seq<FamilyV>)
    ensures
        spec_synchronize(nodes, roster) matches Ok(out) ==> {
            &&& out.residue_children == spec_residue_filter(
                spec_node_children(nodes[0]),
                0,
                false,
            )
            &&& out.residue_children.len() == spec_node_children(nodes[0]).len()
                - spec_managed_count(spec_node_children(nodes[0]), 0, false)
        },
{
    if nodes.len() > 0 {
        match nodes[0] {
            Node::Element { name, attributes, children } => {
                lemma_sync_from_residue(children@, 0, spec_sync_init(roster));
                match spec_sync_from(children@, 0, spec_sync_init(roster)) {
                    Ok(st2) => {
                        assert(Seq::<Node>::empty() + spec_residue_filter(children@, 0, false)
                            =~= spec_residue_filter(children@, 0, false));
                    },
                    Err(_) => {},
                }
            },
            _ => {},
        }
    }
}

proof fn lemma_find_family_bounds(roster: Seq<FamilyV>, name: Seq<char>, i: int)
    ensures
        spec_find_family_from(roster, name, i) matches Some(k) ==> i <= k < roster.len(),
    decreases roster.len() - i,
{
    if 0 <= i < roster.len() && !(roster[i].name == name) {
        lemma_find_family_bounds(roster, name, i + 1);
    }
}

proof fn lemma_resolve_prefer_bounds(items: Seq<Node>, roster: Seq<FamilyV>, i: int)
    ensures
        spec_resolve_prefer_from(items, roster, i) matches Ok(list) ==> forall|k: int|
            0 <= k < list.len() ==> (#[trigger] list[k]) < roster.len(),
    decreases items.len() - i,
{
    if 0 <= i < items.len() {
        lemma_resolve_prefer_bounds(items, roster, i + 1);
        match spec_text(spec_node_children(items[i])) {
            None => {},
            Some(t) => {
                lemma_find_family_bounds(roster, t@, 0);
                match spec_resolve_prefer_from(items, roster, i + 1) {
                    Err(_) => {},
                    Ok(rest) => match spec_find_family(roster, t@) {
                        Some(k) => {
                            assert forall|j: int|
                                0 <= j < (seq![k as usize] + rest).len() implies (#[trigger] (seq![
                                k as usize,
                            ] + rest)[j]) < roster.len() by {
                                if j > 0 {
                                    assert((seq![k as usize] + rest)[j] == rest[j - 1]);
                                }
                            }
                        },
                        None => {},
                    },
                }
            },
        }
    }
}

/// Every index an alias's resolved preference list holds is a valid roster
/// index.
pub open spec fn spec_alias_indices_valid(a: AliasV, n: int) -> bool {
    forall|k: int| 0 <= k < a.prefer_list.len() ==> (#[trigger] a.prefer_list[k]) < n
}

proof fn lemma_sync_from_bounds(children: Seq<Node>, i: int, st: SyncSt)
    requires
        0 <= i,
        forall|k: int| 0 <= k < st.scan.len() ==> (#[trigger] st.scan[k]) < st.roster.len(),
        forall|a: int|
            0 <= a < st.aliases.len() ==> spec_alias_indices_valid(
                #[trigger] st.aliases[a],
                st.roster.len() as int,
            ),
    ensures
        spec_sync_from(children, i, st) matches Ok(st2) ==> {
            &&& st2.roster.len() == st.roster.len()
            &&& forall|k: int| 0 <= k < st2.scan.len() ==> (#[trigger] st2.scan[k])
                < st2.roster.len()
            &&& forall|a: int|
                0 <= a < st2.aliases.len() ==> spec_alias_indices_valid(
                    #[trigger] st2.aliases[a],
                    st2.roster.len() as int,
                )
        },
    decreases children.len() - i,
{
    if 0 <= i < children.len() {
        let c = children[i];
        match spec_sync_step(c, st) {
            Err(_) => {},
            Ok(st2) => {
                if !spec_is_marker_comment(c) && (c matches Node::Element { .. }) && st.prev_marker {
                    if spec_node_name(c) == "alias"@ {
                        match spec_parse_alias(c, st.roster) {
                            Ok(a) => {
                                lemma_resolve_prefer_bounds(
                                    spec_children_elements(
                                        spec_node_children(
                                            spec_child_element(
                                                spec_node_children(c),
                                                "prefer"@,
                                            ).unwrap(),
                                        ),
                                        "family"@,
                                    ),
                                    st.roster,
                                    0,
                                );
                                assert(spec_alias_indices_valid(a, st.roster.len() as int));
                            },
                            Err(_) => {},
                        }
                    } else if spec_node_name(c) == "match"@ && (spec_attr(
                        spec_node_attrs(c),
                        "target"@,
                    ) matches Some(v) && v@ == "scan"@) {
                        match spec_update_family(c, st.roster) {
                            Ok(Some(pair)) => {
                                match spec_child_element(spec_node_children(c), "test"@) {
                                    Some(te) => {
                                        match spec_child_element(
                                            spec_node_children(te),
                                            "string"@,
                                        ) {
                                            Some(se) => {
                                                match spec_text(spec_node_children(se)) {
                                                    Some(fname) => {
                                                        lemma_find_family_bounds(
                                                            st.roster,
                                                            fname@,
                                                            0,
                                                        );
                                                        assert(0 <= pair.0 < st.roster.len());
                                                        assert(st2.roster.len()
                                                            == st.roster.len());
                                                    },
                                                    None => {},
                                                }
                                            },
                                            None => {},
                                        }
                                    },
                                    None => {},
                                }
                            },
                            _ => {},
                        }
                    }
                }
                lemma_sync_from_bounds(children, i + 1, st2);
            },
        }
    }
}

/// Scan-match mutation visibility: all records produced by one pass hold
/// indices into the one shared roster — every scan-match index and every
/// alias preference index is a valid slot of the final roster, so two
/// records holding the same index denote the identical family and observe
/// the same post-mutation `stripped_ranges`.
pub proof fn lemma_scan_match_visibility(nodes: Seq<Node>, roster: Seq<FamilyV>)
    ensures
        spec_synchronize(nodes, roster) matches Ok(out) ==> {
            &&& out.roster.len() == roster.len()
            &&& forall|k: int| 0 <= k < out.scan.len() ==> (#[trigger] out.scan[k])
                < out.roster.len()
            &&& forall|a: int|
                0 <= a < out.aliases.len() ==> spec_alias_indices_valid(
                    #[trigger] out.aliases[a],
                    out.roster.len() as int,
                )
        },
{
    if nodes.len() > 0 {
        match nodes[0] {
            Node::Element { name, attributes, children } => {
                lemma_sync_from_bounds(children@, 0, spec_sync_init(roster));
            },
            _ => {},
        }
    }
}

proof fn lemma_resolve_prefer_err(items: Seq<Node>, roster: Seq<FamilyV>, i: int)
    ensures
        spec_resolve_prefer_from(items, roster, i) matches Err(er) ==> er
            matches SyncErrorV::InvalidRecord { .. },
    decreases items.len() - i,
{
    if 0 <= i < items.len() {
        lemma_resolve_prefer_err(items, roster, i + 1);
    }
}

proof fn lemma_parse_alias_err(e: Node, roster: Seq<FamilyV>)
    ensures
        spec_parse_alias(e, roster) matches Err(er) ==> er matches SyncErrorV::InvalidRecord {
            ..
        },
{
    match spec_child_element(spec_node_children(e), "family"@) {
        None => {},
        Some(fam) => match spec_text(spec_node_children(fam)) {
            None => {},
            Some(_) => match spec_child_element(spec_node_children(e), "prefer"@) {
                None => {},
                Some(pref) => {
                    lemma_resolve_prefer_err(
                        spec_children_elements(spec_node_children(pref), "family"@),
                        roster,
                        0,
                    );
                },
            },
        },
    }
}

proof fn lemma_update_family_err(e: Node, roster: Seq<FamilyV>)
    ensures
        spec_update_family(e, roster) matches Err(er) ==> er matches SyncErrorV::InvalidRecord {
            ..
        },
{
    match spec_child_element(spec_node_children(e), "test"@) {
        None => {},
        Some(te) => match spec_child_element(spec_node_children(te), "string"@) {
            None => {},
            Some(se) => match spec_text(spec_node_children(se)) {
                None => {},
                Some(fname) => match spec_find_family(roster, fname@) {
                    None => {},
                    Some(_) => match spec_child_element(spec_node_children(e), "edit"@) {
                        None => {},
                        Some(ed) => match spec_child_element(spec_node_children(ed), "minus"@) {
                            None => {},
                            Some(mi) => match spec_child_element(
                                spec_node_children(mi),
                                "charset"@,
                            ) {
                                None => {},
                                Some(cs) => {
                                    crate::classify::lemma_classify_charset_err(
                                        spec_node_children(cs),
                                    );
                                },
                            },
                        },
                    },
                },
            },
        },
    }
}

proof fn lemma_sync_from_err_shape(children: Seq<Node>, i: int, st: SyncSt)
    ensures
        spec_sync_from(children, i, st) matches Err(er) ==> er matches SyncErrorV::InvalidRecord {
            ..
        },
    decreases children.len() - i,
{
    if 0 <= i < children.len() {
        let c = children[i];
        lemma_parse_alias_err(c, st.roster);
        lemma_update_family_err(c, st.roster);
        match spec_sync_step(c, st) {
            Err(_) => {},
            Ok(st2) => {
                lemma_sync_from_err_shape(children, i + 1, st2);
            },
        }
    }
}

/// Every failure of a pass whose document has a usable root is a record
/// error: managed content was structurally broken, never anything softer.
pub proof fn lemma_sync_errors_are_record_errors(nodes: Seq<Node>, roster: Seq<FamilyV>)
    requires
        nodes.len() > 0,
        nodes[0] matches Node::Element { .. },
    ensures
        spec_synchronize(nodes, roster) matches Err(er) ==> er matches SyncErrorV::InvalidRecord {
            ..
        },
{
    match nodes[0] {
        Node::Element { name, attributes, children } => {
            lemma_sync_from_err_shape(children@, 0, spec_sync_init(roster));
        },
        _ => {},
    }
}

proof fn lemma_sync_from_err(children: Seq<Node>, j: int, st: SyncSt, i: int)
    requires
        0 <= j <= i < children.len(),
        st.prev_marker == (j > 0 && spec_is_marker_comment(children[j - 1])),
        children[i].is_element_named("alias"@),
        i > 0 && spec_is_marker_comment(children[i - 1]),
        spec_child_element(spec_node_children(children[i]), "family"@) is None,
    ensures
        spec_sync_from(children, j, st) is Err,
    decreases i - j,
{
    if j == i {
        assert(!spec_is_marker_comment(children[i]));
        assert(spec_parse_alias(children[i], st.roster) is Err);
    } else {
        match spec_sync_step(children[j], st) {
            Err(_) => {},
            Ok(st2) => {
                assert(st2.prev_marker == spec_is_marker_comment(children[j]));
                lemma_sync_from_err(children, j + 1, st2, i);
            },
        }
    }
}

/// Fatal on malformed managed content: a document whose root has, at any
/// position, an `alias` element marked as managed but lacking its mandatory
/// `family` child makes the whole pass fail with a record error — no
/// partial result exists.
pub proof fn lemma_fatal_on_missing_family(nodes: Seq<Node>, roster: Seq<FamilyV>, i: int)
    requires
        nodes.len() > 0,
        nodes[0] matches Node::Element { .. },
        0 < i < spec_node_children(nodes[0]).len(),
        spec_node_children(nodes[0])[i].is_element_named("alias"@),
        spec_is_marker_comment(spec_node_children(nodes[0])[i - 1]),
        spec_child_element(spec_node_children(spec_node_children(nodes[0])[i]), "family"@) is None,
    ensures
        spec_synchronize(nodes, roster) matches Err(er) && er matches SyncErrorV::InvalidRecord {
            ..
        },
{
    match nodes[0] {
        Node::Element { name, attributes, children } => {
            lemma_sync_from_err(children@, 0, spec_sync_init(roster), i);
        },
        _ => {},
    }
    lemma_sync_errors_are_record_errors(nodes, roster);
}

/// The text a synchronization request works on: the configuration text
/// where one was readable, else the built-in default document.
pub open spec fn spec_effective_text(text: Option<&str>) -> Seq<char> {
    match text {
        Some(t) => t@,
        None => crate::consts::spec_default_document(),
    }
}

/// Parses the configuration text — or, when none is given because the
/// per-user file was absent or unreadable, the built-in default document —
/// and synchronizes the parsed tree against the roster. A parse failure is
/// fatal and carries the parser's diagnostic text.
pub fn parse_or_default(text: Option<&str>, roster: &mut Vec<Family>) -> (r: Result<
    Config,
    SyncError,
>)
    ensures
        final(roster)@.len() == old(roster)@.len(),
        forall|k: int|
            0 <= k < old(roster)@.len() ==> (#[trigger] final(roster)@[k]).name == old(
                roster,
            )@[k].name,
        match r {
            Ok(cfg) => crate::xml::xml_parse(spec_effective_text(text)) matches Ok(ns)
                && spec_sync_ok(ns, roster_view(old(roster)@), cfg, final(roster)@),
            Err(er) => match crate::xml::xml_parse(spec_effective_text(text)) {
                Err(d) => er@ matches SyncErrorV::MalformedDocument { detail } && detail == d
                    && final(roster)@ == old(roster)@,
                Ok(ns) => spec_synchronize(ns, roster_view(old(roster)@)) matches Err(ev) && er@
                    == ev,
            },
        },
{
    let raw: &str = match text {
        Some(t) => t,
        None => crate::consts::default_document(),
    };
    match crate::xml::parse_to_nodes(raw) {
        Ok(ns) => synchronize(ns, roster),
        Err(d) => Err(SyncError::MalformedDocument { detail: d }),
    }
}

} // verus!
