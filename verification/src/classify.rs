use vstd::prelude::*;

use crate::config::{SyncError, SyncErrorV};
use crate::node::{
    children_element, lemma_children_elements_named, spec_children_elements, spec_node_children,
    spec_node_name, Node,
};
use crate::range::{Range, RangeV};
use crate::strutil::{
    find_char, parse_hex_i32, spec_find_char, spec_parse_hex_i32, spec_trim, str_eq, trim,
};

verus! {

use vstd::string::StrSliceExecFns;
use vstd::string::StringExecFns;

/// One group of charset children: the `(name, kind)` key declared by the
/// group's marker comment, and the intervals of its `range` elements.
pub struct Group {
    pub name: String,
    pub kind: String,
    pub intervals: Vec<(i32, i32)>,
}

/// The model of a [`Group`].
pub struct GroupV {
    pub name: Seq<char>,
    pub kind: Seq<char>,
    pub intervals: Seq<(i32, i32)>,
}

impl View for Group {
    type V = GroupV;

    open spec fn view(&self) -> GroupV {
        GroupV { name: self.name@, kind: self.kind@, intervals: self.intervals@ }
    }
}

/// What a group comment's text declares: `name, kind`, split on the first
/// comma, both parts trimmed; a comment without a comma is a fatal record
/// error.
pub open spec fn spec_comment_key(t: Seq<char>) -> Result<(Seq<char>, Seq<char>), SyncErrorV> {
    match spec_find_char(t, ',') {
        None => Err(SyncErrorV::InvalidRecord { element: "charset"@, missing: "comment"@ }),
        Some(k) => Ok((spec_trim(t.subrange(0, k)), spec_trim(t.subrange(k + 1, t.len() as int)))),
    }
}

/// Splits a group comment into its `(name, kind)` key.
pub fn parse_comment_key(t: &str) -> (r: Result<(String, String), SyncError>)
    ensures
        match r {
            Ok(key) => spec_comment_key(t@) == Ok::<(Seq<char>, Seq<char>), SyncErrorV>(
                (key.0@, key.1@),
            ),
            Err(er) => spec_comment_key(t@) == Err::<(Seq<char>, Seq<char>), SyncErrorV>(er@),
        },
{
    match find_char(t, ',') {
        None => Err(
            SyncError::InvalidRecord {
                element: String::from_str("charset"),
                missing: String::from_str("comment"),
            },
        ),
        Some(k) => {
            let n = t.unicode_len();
            let left = t.substring_char(0, k);
            let right = t.substring_char(k + 1, n);
            proof {
                assert(t@.subrange(0, k as int) =~= left@);
                assert(t@.subrange(k as int + 1, t@.len() as int) =~= right@);
            }
            Ok((trim(left), trim(right)))
        },
    }
}

/// The value of one `int` element: its mandatory text, sliced past the
/// two-character radix prefix, read as a hexadecimal numeral.
pub open spec fn spec_int_value(e: Node) -> Result<i32, SyncErrorV> {
    match crate::node::spec_text(spec_node_children(e)) {
        None => Err(SyncErrorV::InvalidRecord { element: spec_node_name(e), missing: "text"@ }),
        Some(t) => if t@.len() < 2 {
            Err(SyncErrorV::InvalidRecord { element: spec_node_name(e), missing: "hex"@ })
        } else {
            match spec_parse_hex_i32(t@.subrange(2, t@.len() as int)) {
                Some(v) => Ok(v),
                None => Err(
                    SyncErrorV::InvalidRecord { element: spec_node_name(e), missing: "hex"@ },
                ),
            }
        },
    }
}

/// Reads one `int` element, as [`spec_int_value`] describes.
pub fn int_value(e: &Node) -> (r: Result<i32, SyncError>)
    requires
        *e matches Node::Element { .. },
    ensures
        match r {
            Ok(v) => spec_int_value(*e) == Ok::<i32, SyncErrorV>(v),
            Err(er) => spec_int_value(*e) == Err::<i32, SyncErrorV>(er@),
        },
{
    let t = match crate::deserialization::checked_text(e) {
        Ok(t) => t,
        Err(er) => {
            return Err(er);
        },
    };
    let ename = match e {
        Node::Element { name, .. } => name,
        _ => {
            proof {
                assert(false);
            }
            return Err(SyncError::InvalidRoot);
        },
    };
    let n = t.as_str().unicode_len();
    if n < 2 {
        return Err(
            SyncError::InvalidRecord { element: ename.clone(), missing: String::from_str("hex") },
        );
    }
    let digits = t.as_str().substring_char(2, n);
    proof {
        assert(digits@ =~= t@.subrange(2, t@.len() as int));
    }
    match parse_hex_i32(digits) {
        Some(v) => Ok(v),
        None => Err(
            SyncError::InvalidRecord { element: ename.clone(), missing: String::from_str("hex") },
        ),
    }
}

/// The interval of one `range` element: exactly two `int` children, read as
/// hexadecimal values; any other count is a fatal record error.
pub open spec fn spec_range_interval(e: Node) -> Result<(i32, i32), SyncErrorV> {
    let ints = spec_children_elements(spec_node_children(e), "int"@);
    if ints.len() != 2 {
        Err(SyncErrorV::InvalidRecord { element: spec_node_name(e), missing: "int"@ })
    } else {
        match spec_int_value(ints[0]) {
            Err(er) => Err(er),
            Ok(a) => match spec_int_value(ints[1]) {
                Err(er) => Err(er),
                Ok(b) => Ok((a, b)),
            },
        }
    }
}

/// Reads one `range` element, as [`spec_range_interval`] describes.
pub fn range_interval(e: &Node) -> (r: Result<(i32, i32), SyncError>)
    requires
        *e matches Node::Element { .. },
    ensures
        match r {
            Ok(iv) => spec_range_interval(*e) == Ok::<(i32, i32), SyncErrorV>(iv),
            Err(er) => spec_range_interval(*e) == Err::<(i32, i32), SyncErrorV>(er@),
        },
{
    let (ename, kids) = match e {
        Node::Element { name, children, .. } => (name, children),
        _ => {
            proof {
                assert(false);
            }
            return Err(SyncError::InvalidRoot);
        },
    };
    let ints = children_element("int", kids);
    proof {
        lemma_children_elements_named(spec_node_children(*e), "int"@, 0);
        assert(ints@.map_values(|c: &Node| *c).len() == ints@.len());
    }
    if ints.len() != 2 {
        return Err(
            SyncError::InvalidRecord { element: ename.clone(), missing: String::from_str("int") },
        );
    }
    proof {
        assert(ints@.map_values(|c: &Node| *c)[0] == spec_children_elements(
            spec_node_children(*e),
            "int"@,
        )[0]);
        assert(ints@.map_values(|c: &Node| *c)[1] == spec_children_elements(
            spec_node_children(*e),
            "int"@,
        )[1]);
    }
    let a = match int_value(ints[0]) {
        Ok(v) => v,
        Err(er) => {
            return Err(er);
        },
    };
    let b = match int_value(ints[1]) {
        Ok(v) => v,
        Err(er) => {
            return Err(er);
        },
    };
    Ok((a, b))
}

/// The grouping pass over the children of a charset element, from position
/// `i`. `cur` is the key most recently declared by a comment, `prev` the key
/// of the child just before position `i`, and `groups` the groups formed so
/// far: a comment declares a new key, a `range` element joins the current
/// key's run, and any other child falls to the initial `(nil, Custom)` key;
/// a child whose key differs from its predecessor's starts a new group.
pub open spec fn spec_scan_groups_from(
    children: Seq<Node>,
    i: int,
    cur: (Seq<char>, Seq<char>),
    prev: (Seq<char>, Seq<char>),
    groups: Seq<GroupV>,
) -> Result<Seq<GroupV>, SyncErrorV>
    decreases children.len() - i,
{
    if i < 0 || i >= children.len() {
        Ok(groups)
    } else {
        match children[i] {
            Node::Comment { text } => match spec_comment_key(text@) {
                Err(er) => Err(er),
                Ok(key) => {
                    let g2 = if groups.len() > 0 && prev == key {
                        groups
                    } else {
                        groups.push(GroupV { name: key.0, kind: key.1, intervals: Seq::empty() })
                    };
                    spec_scan_groups_from(children, i + 1, key, key, g2)
                },
            },
            _ => {
                if children[i].is_element_named("range"@) {
                    match spec_range_interval(children[i]) {
                        Err(er) => Err(er),
                        Ok(iv) => {
                            if groups.len() > 0 && prev == cur {
                                let last = groups[groups.len() - 1];
                                let g2 = groups.update(
                                    groups.len() - 1,
                                    GroupV {
                                        name: last.name,
                                        kind: last.kind,
                                        intervals: last.intervals.push(iv),
                                    },
                                );
                                spec_scan_groups_from(children, i + 1, cur, cur, g2)
                            } else {
                                let g2 = groups.push(
                                    GroupV { name: cur.0, kind: cur.1, intervals: seq![iv] },
                                );
                                spec_scan_groups_from(children, i + 1, cur, cur, g2)
                            }
                        },
                    }
                } else {
                    let key = ("nil"@, "Custom"@);
                    let g2 = if groups.len() > 0 && prev == key {
                        groups
                    } else {
                        groups.push(GroupV { name: key.0, kind: key.1, intervals: Seq::empty() })
                    };
                    spec_scan_groups_from(children, i + 1, cur, key, g2)
                }
            },
        }
    }
}

/// Classification of the surviving groups from position `i` on: a group
/// with no intervals is dropped; kind `Block` demands exactly one interval;
/// kind `Script` keeps the whole list; any other kind takes the first
/// interval.
pub open spec fn spec_classify_groups_from(groups: Seq<GroupV>, i: int) -> Result<
    Seq<RangeV>,
    SyncErrorV,
>
    decreases groups.len() - i,
{
    if i < 0 || i >= groups.len() {
        Ok(Seq::empty())
    } else {
        let g = groups[i];
        if g.intervals.len() == 0 {
            spec_classify_groups_from(groups, i + 1)
        } else if g.kind == "Block"@ {
            if g.intervals.len() != 1 {
                Err(SyncErrorV::InvalidRecord { element: "charset"@, missing: "Block"@ })
            } else {
                match spec_classify_groups_from(groups, i + 1) {
                    Err(er) => Err(er),
                    Ok(rest) => Ok(
                        seq![RangeV::Block { name: g.name, code_points: g.intervals[0] }] + rest,
                    ),
                }
            }
        } else if g.kind == "Script"@ {
            match spec_classify_groups_from(groups, i + 1) {
                Err(er) => Err(er),
                Ok(rest) => Ok(
                    seq![RangeV::Script { name: g.name, code_points: g.intervals }] + rest,
                ),
            }
        } else {
            match spec_classify_groups_from(groups, i + 1) {
                Err(er) => Err(er),
                Ok(rest) => Ok(
                    seq![RangeV::Custom { name: g.name, code_points: g.intervals[0] }] + rest,
                ),
            }
        }
    }
}

/// The initial group key, used before any comment has declared one.
pub open spec fn spec_nil_key() -> (Seq<char>, Seq<char>) {
    ("nil"@, "Custom"@)
}

/// What classifying a charset element's children yields: group them by the
/// comment-declared keys, then classify each surviving group.
pub open spec fn spec_classify_charset(children: Seq<Node>) -> Result<Seq<RangeV>, SyncErrorV> {
    match spec_scan_groups_from(children, 0, spec_nil_key(), spec_nil_key(), Seq::empty()) {
        Err(er) => Err(er),
        Ok(gs) => spec_classify_groups_from(gs, 0),
    }
}

proof fn lemma_range_interval_err(e: Node)
    ensures
        spec_range_interval(e) matches Err(er) ==> er matches SyncErrorV::InvalidRecord { .. },
{
    let ints = spec_children_elements(spec_node_children(e), "int"@);
    if ints.len() == 2 {
        assert(spec_int_value(ints[0]) matches Err(er) ==> er matches SyncErrorV::InvalidRecord {
            ..
        });
        assert(spec_int_value(ints[1]) matches Err(er) ==> er matches SyncErrorV::InvalidRecord {
            ..
        });
    }
}

proof fn lemma_scan_groups_err(
    children: Seq<Node>,
    i: int,
    cur: (Seq<char>, Seq<char>),
    prev: (Seq<char>, Seq<char>),
    groups: Seq<GroupV>,
)
    ensures
        spec_scan_groups_from(children, i, cur, prev, groups) matches Err(er) ==> er
            matches SyncErrorV::InvalidRecord { .. },
    decreases children.len() - i,
{
    if 0 <= i < children.len() {
        match children[i] {
            Node::Comment { text } => match spec_comment_key(text@) {
                Err(_) => {},
                Ok(key) => {
                    let g2 = if groups.len() > 0 && prev == key {
                        groups
                    } else {
                        groups.push(GroupV { name: key.0, kind: key.1, intervals: Seq::empty() })
                    };
                    lemma_scan_groups_err(children, i + 1, key, key, g2);
                },
            },
            _ => {
                if children[i].is_element_named("range"@) {
                    lemma_range_interval_err(children[i]);
                    match spec_range_interval(children[i]) {
                        Err(_) => {},
                        Ok(iv) => {
                            if groups.len() > 0 && prev == cur {
                                let last = groups[groups.len() - 1];
                                let g2 = groups.update(
                                    groups.len() - 1,
                                    GroupV {
                                        name: last.name,
                                        kind: last.kind,
                                        intervals: last.intervals.push(iv),
                                    },
                                );
                                lemma_scan_groups_err(children, i + 1, cur, cur, g2);
                            } else {
                                let g2 = groups.push(
                                    GroupV { name: cur.0, kind: cur.1, intervals: seq![iv] },
                                );
                                lemma_scan_groups_err(children, i + 1, cur, cur, g2);
                            }
                        },
                    }
                } else {
                    let key = ("nil"@, "Custom"@);
                    let g2 = if groups.len() > 0 && prev == key {
                        groups
                    } else {
                        groups.push(GroupV { name: key.0, kind: key.1, intervals: Seq::empty() })
                    };
                    lemma_scan_groups_err(children, i + 1, cur, key, g2);
                }
            },
        }
    }
}

proof fn lemma_classify_groups_err(groups: Seq<GroupV>, i: int)
    ensures
        spec_classify_groups_from(groups, i) matches Err(er) ==> er
            matches SyncErrorV::InvalidRecord { .. },
    decreases groups.len() - i,
{
    if 0 <= i < groups.len() {
        lemma_classify_groups_err(groups, i + 1);
    }
}

/// Every failure the classifier reports is a record error: a bad group
/// comment, a wrong `int` count, a bad hexadecimal numeral, or a
/// multi-interval `Block` group.
pub proof fn lemma_classify_charset_err(children: Seq<Node>)
    ensures
        spec_classify_charset(children) matches Err(er) ==> er matches SyncErrorV::InvalidRecord {
            ..
        },
{
    lemma_scan_groups_err(children, 0, spec_nil_key(), spec_nil_key(), Seq::empty());
    match spec_scan_groups_from(children, 0, spec_nil_key(), spec_nil_key(), Seq::empty()) {
        Err(_) => {},
        Ok(gs) => {
            lemma_classify_groups_err(gs, 0);
        },
    }
}

/// Classifies the children of a charset element into `Range` values, as
/// [`spec_classify_charset`] describes.
#[verifier::loop_isolation(false)]
pub fn classify_charset(children: &Vec<Node>) -> (r: Result<Vec<Range>, SyncError>)
    ensures
        match r {
            Ok(v) => spec_classify_charset(children@) == Ok::<Seq<RangeV>, SyncErrorV>(
                v@.map_values(|rg: Range| rg@),
            ),
            Err(er) => spec_classify_charset(children@) == Err::<Seq<RangeV>, SyncErrorV>(er@),
        },
{
    let n = children.len();
    let mut groups: Vec<Group> = Vec::new();
    let mut cur: (String, String) = (String::from_str("nil"), String::from_str("Custom"));
    let mut prev: (String, String) = (String::from_str("nil"), String::from_str("Custom"));
    let mut i: usize = 0;
    proof {
        assert(groups@.map_values(|g: Group| g@) =~= Seq::<GroupV>::empty());
    }
    while i < n
        invariant
            i <= n,
            n == children@.len(),
            spec_scan_groups_from(
                children@,
                0,
                spec_nil_key(),
                spec_nil_key(),
                Seq::empty(),
            ) == spec_scan_groups_from(
                children@,
                i as int,
                (cur.0@, cur.1@),
                (prev.0@, prev.1@),
                groups@.map_values(|g: Group| g@),
            ),
        decreases n - i,
    {
        let ghost groupsv = groups@.map_values(|g: Group| g@);
        match &children[i] {
            Node::Comment { text: t } => {
                match parse_comment_key(t.as_str()) {
                    Err(er) => {
                        return Err(er);
                    },
                    Ok(key) => {
                        let same = groups.len() > 0 && str_eq(prev.0.as_str(), key.0.as_str())
                            && str_eq(prev.1.as_str(), key.1.as_str());
                        if !same {
                            let name2 = key.0.clone();
                            let kind2 = key.1.clone();
                            let iv: Vec<(i32, i32)> = Vec::new();
                            let g_new = Group { name: name2, kind: kind2, intervals: iv };
                            proof {
                                assert(groups@.push(g_new).map_values(|g: Group| g@)
                                    =~= groupsv.push(
                                    GroupV { name: key.0@, kind: key.1@, intervals: Seq::empty() },
                                ));
                            }
                            groups.push(g_new);
                        }
                        let pn = key.0.clone();
                        let pk = key.1.clone();
                        cur = (key.0, key.1);
                        prev = (pn, pk);
                    },
                }
            },
            _ => {
                let mut is_range: bool = false;
                match &children[i] {
                    Node::Element { name: tag, .. } => {
                        if str_eq(tag.as_str(), "range") {
                            is_range = true;
                        }
                    },
                    _ => {},
                }
                if is_range {
                    match range_interval(&children[i]) {
                        Err(er) => {
                            return Err(er);
                        },
                        Ok(iv) => {
                            let same = groups.len() > 0 && str_eq(prev.0.as_str(), cur.0.as_str())
                                && str_eq(prev.1.as_str(), cur.1.as_str());
                            if same {
                                match groups.pop() {
                                    Some(g) => {
                                        let mut g2 = g;
                                        g2.intervals.push(iv);
                                        proof {
                                            assert(groups@.push(g2).map_values(|g: Group| g@)
                                                =~= groupsv.update(
                                                groupsv.len() - 1,
                                                GroupV {
                                                    name: groupsv[groupsv.len() - 1].name,
                                                    kind: groupsv[groupsv.len() - 1].kind,
                                                    intervals: groupsv[groupsv.len()
                                                        - 1].intervals.push(iv),
                                                },
                                            ));
                                        }
                                        groups.push(g2);
                                    },
                                    None => {
                                        proof {
                                            assert(false);
                                        }
                                    },
                                }
                            } else {
                                let mut ivs: Vec<(i32, i32)> = Vec::new();
                                ivs.push(iv);
                                let name2 = cur.0.clone();
                                let kind2 = cur.1.clone();
                                let g_new = Group { name: name2, kind: kind2, intervals: ivs };
                                proof {
                                    assert(g_new.intervals@ =~= seq![iv]);
                                    assert(groups@.push(g_new).map_values(|g: Group| g@)
                                        =~= groupsv.push(
                                        GroupV { name: cur.0@, kind: cur.1@, intervals: seq![iv] },
                                    ));
                                }
                                groups.push(g_new);
                            }
                            let pn = cur.0.clone();
                            let pk = cur.1.clone();
                            prev = (pn, pk);
                        },
                    }
                } else {
                    let same = groups.len() > 0 && str_eq(prev.0.as_str(), "nil") && str_eq(
                        prev.1.as_str(),
                        "Custom",
                    );
                    if !same {
                        let name2 = String::from_str("nil");
                        let kind2 = String::from_str("Custom");
                        let iv: Vec<(i32, i32)> = Vec::new();
                        let g_new = Group { name: name2, kind: kind2, intervals: iv };
                        proof {
                            assert(groups@.push(g_new).map_values(|g: Group| g@) =~= groupsv.push(
                                GroupV { name: "nil"@, kind: "Custom"@, intervals: Seq::empty() },
                            ));
                        }
                        groups.push(g_new);
                    }
                    prev = (String::from_str("nil"), String::from_str("Custom"));
                }
            },
        }
        i += 1;
    }
    let ghost groupsv = groups@.map_values(|g: Group| g@);
    proof {
        assert(spec_classify_charset(children@) == spec_classify_groups_from(groupsv, 0));
    }
    let mut out: Vec<Range> = Vec::new();
    let gtotal: usize = groups.len();
    let ghost total = gtotal as int;
    let mut gi: usize = 0;
    proof {
        assert(out@.map_values(|rg: Range| rg@) =~= Seq::<RangeV>::empty());
        match spec_classify_groups_from(groupsv, 0) {
            Ok(rest) => {
                assert(Seq::<RangeV>::empty() + rest =~= rest);
            },
            Err(_) => {},
        }
    }
    while groups.len() > 0
        invariant
            gi as int + groups@.len() == total,
            groups@.map_values(|g: Group| g@) =~= groupsv.skip(gi as int),
            match spec_classify_groups_from(groupsv, gi as int) {
                Ok(rest) => spec_classify_groups_from(groupsv, 0) == Ok::<Seq<RangeV>, SyncErrorV>(
                    out@.map_values(|rg: Range| rg@) + rest,
                ),
                Err(er) => spec_classify_groups_from(groupsv, 0) == Err::<Seq<RangeV>, SyncErrorV>(
                    er,
                ),
            },
        decreases groups@.len(),
    {
        let ghost groups_pre = groups@;
        let g = groups.remove(0);
        proof {
            assert(groups_pre.map_values(|g: Group| g@)[0] == groupsv.skip(gi as int)[0]);
            assert(g@ == groupsv[gi as int]);
            assert forall|j: int| 0 <= j < groups@.len() implies groups@.map_values(|g: Group| g@)[j]
                == #[trigger] groupsv.skip(gi as int + 1)[j] by {
                assert(groups@[j] == groups_pre[j + 1]);
                assert(groups_pre.map_values(|g: Group| g@)[j + 1] == groups_pre[j + 1]@);
                assert(groups_pre.map_values(|g: Group| g@)[j + 1] == groupsv.skip(gi as int)[j
                    + 1]);
            }
            assert(groups@.map_values(|g: Group| g@) =~= groupsv.skip(gi as int + 1));
        }
        let ghost outv = out@.map_values(|rg: Range| rg@);
        if g.intervals.len() == 0 {
        } else if str_eq(g.kind.as_str(), "Block") {
            if g.intervals.len() != 1 {
                return Err(
                    SyncError::InvalidRecord {
                        element: String::from_str("charset"),
                        missing: String::from_str("Block"),
                    },
                );
            }
            let cp = g.intervals[0];
            let rg = Range::Block { name: g.name, code_points: cp };
            proof {
                match spec_classify_groups_from(groupsv, gi as int + 1) {
                    Ok(rest) => {
                        assert(out@.push(rg).map_values(|x: Range| x@) =~= outv.push(rg@));
                        assert(outv.push(rg@) + rest =~= outv + (seq![rg@] + rest));
                    },
                    Err(_) => {},
                }
            }
            out.push(rg);
        } else if str_eq(g.kind.as_str(), "Script") {
            let rg = Range::Script { name: g.name, code_points: g.intervals };
            proof {
                match spec_classify_groups_from(groupsv, gi as int + 1) {
                    Ok(rest) => {
                        assert(out@.push(rg).map_values(|x: Range| x@) =~= outv.push(rg@));
                        assert(outv.push(rg@) + rest =~= outv + (seq![rg@] + rest));
                    },
                    Err(_) => {},
                }
            }
            out.push(rg);
        } else {
            let cp = g.intervals[0];
            let rg = Range::Custom { name: g.name, code_points: cp };
            proof {
                match spec_classify_groups_from(groupsv, gi as int + 1) {
                    Ok(rest) => {
                        assert(out@.push(rg).map_values(|x: Range| x@) =~= outv.push(rg@));
                        assert(outv.push(rg@) + rest =~= outv + (seq![rg@] + rest));
                    },
                    Err(_) => {},
                }
            }
            out.push(rg);
        }
        gi += 1;
    }
    proof {
        assert(groupsv.skip(gi as int).len() == 0);
        assert(gi as int == total);
        assert(out@.map_values(|rg: Range| rg@) + Seq::<RangeV>::empty() =~= out@.map_values(
            |rg: Range| rg@,
        ));
    }
    Ok(out)
}

} // verus!
