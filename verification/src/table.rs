use vstd::prelude::*;

use crate::merge::{merge_intervals, spec_merge};
use crate::range::{Range, RangeV};
use crate::strutil::{
    find_char, find_pair, parse_hex_i32, spec_find_char, spec_find_pair, spec_parse_hex_i32,
    spec_trim, str_eq, trim,
};

verus! {

use vstd::string::StrSliceExecFns;
use vstd::string::StringExecFns;

/// A cleaned table row: `None` for a blank line or one that opens with the
/// comment character, else the text before any trailing comment.
pub open spec fn spec_clean_line(l: Seq<char>) -> Option<Seq<char>> {
    if l.len() == 0 || l[0] == '#' {
        None
    } else {
        match spec_find_char(l, '#') {
            Some(k) => Some(l.subrange(0, k)),
            None => Some(l),
        }
    }
}

/// Strips a raw table line, as [`spec_clean_line`] describes.
pub fn clean_line(l: &str) -> (r: Option<String>)
    ensures
        match r {
            Some(cl) => spec_clean_line(l@) == Some(cl@),
            None => spec_clean_line(l@) is None,
        },
{
    let n = l.unicode_len();
    if n == 0 {
        return None;
    }
    if l.get_char(0) == '#' {
        return None;
    }
    match find_char(l, '#') {
        Some(k) => {
            let piece = l.substring_char(0, k);
            Some(piece.to_owned())
        },
        None => Some(l.to_owned()),
    }
}

/// A parsed block-table row: `start..end; name`, the bounds in hexadecimal.
/// A row that does not fit the form is skipped.
pub open spec fn spec_block_row(l: Seq<char>) -> Option<(Seq<char>, (i32, i32))> {
    match spec_clean_line(l) {
        None => None,
        Some(cl) => match spec_find_pair(cl, ';', ' ') {
            None => None,
            Some(k) => {
                let left = cl.subrange(0, k);
                let name = cl.subrange(k + 2, cl.len() as int);
                match spec_find_pair(left, '.', '.') {
                    None => None,
                    Some(d) => {
                        let a = left.subrange(0, d);
                        let b = left.subrange(d + 2, left.len() as int);
                        match spec_parse_hex_i32(a) {
                            None => None,
                            Some(x) => match spec_parse_hex_i32(b) {
                                None => None,
                                Some(y) => Some((name, (x, y))),
                            },
                        }
                    },
                }
            },
        },
    }
}

/// Parses one block-table row, as [`spec_block_row`] describes.
pub fn block_row(l: &str) -> (r: Option<(String, (i32, i32))>)
    ensures
        match r {
            Some(row) => spec_block_row(l@) == Some((row.0@, row.1)),
            None => spec_block_row(l@) is None,
        },
{
    let cl = match clean_line(l) {
        Some(cl) => cl,
        None => {
            return None;
        },
    };
    let cls = cl.as_str();
    let n = cls.unicode_len();
    let k = match find_pair(cls, ';', ' ') {
        Some(k) => k,
        None => {
            return None;
        },
    };
    let left = cls.substring_char(0, k);
    let name = cls.substring_char(k + 2, n);
    let ln = left.unicode_len();
    let d = match find_pair(left, '.', '.') {
        Some(d) => d,
        None => {
            return None;
        },
    };
    let a = left.substring_char(0, d);
    let b = left.substring_char(d + 2, ln);
    let x = match parse_hex_i32(a) {
        Some(x) => x,
        None => {
            return None;
        },
    };
    let y = match parse_hex_i32(b) {
        Some(y) => y,
        None => {
            return None;
        },
    };
    Some((name.to_owned(), (x, y)))
}

/// The blocks named by the table rows from position `i` on, in input order.
pub open spec fn spec_blocks_from(lines: Seq<Seq<char>>, i: int) -> Seq<RangeV>
    decreases lines.len() - i,
{
    if i < 0 || i >= lines.len() {
        Seq::empty()
    } else {
        match spec_block_row(lines[i]) {
            None => spec_blocks_from(lines, i + 1),
            Some(row) => seq![RangeV::Block { name: row.0, code_points: row.1 }]
                + spec_blocks_from(lines, i + 1),
        }
    }
}

/// The whole block table: one `Block` entry per data row, in input order.
pub open spec fn spec_unicode_blocks(lines: Seq<Seq<char>>) -> Seq<RangeV> {
    spec_blocks_from(lines, 0)
}

/// Builds the block table from the raw lines of the block listing, as
/// [`spec_unicode_blocks`] describes.
#[verifier::loop_isolation(false)]
pub fn unicode_blocks(lines: &Vec<String>) -> (r: Vec<Range>)
    ensures
        r@.map_values(|rg: Range| rg@) == spec_unicode_blocks(
            lines@.map_values(|l: String| l@),
        ),
{
    let ghost linesv = lines@.map_values(|l: String| l@);
    let n = lines.len();
    let mut out: Vec<Range> = Vec::new();
    let mut i: usize = 0;
    proof {
        assert(out@.map_values(|rg: Range| rg@) =~= Seq::<RangeV>::empty());
        assert(Seq::<RangeV>::empty() + spec_blocks_from(linesv, 0) =~= spec_blocks_from(
            linesv,
            0,
        ));
    }
    while i < n
        invariant
            i <= n,
            n == lines@.len(),
            out@.map_values(|rg: Range| rg@) + spec_blocks_from(linesv, i as int)
                == spec_unicode_blocks(linesv),
        decreases n - i,
    {
        proof {
            assert(linesv[i as int] == lines@[i as int]@);
        }
        match block_row(lines[i].as_str()) {
            None => {},
            Some(row) => {
                let rg = Range::Block { name: row.0, code_points: row.1 };
                proof {
                    assert(out@.push(rg).map_values(|x: Range| x@) =~= out@.map_values(
                        |x: Range| x@,
                    ).push(rg@));
                    assert(out@.map_values(|x: Range| x@).push(rg@) + spec_blocks_from(
                        linesv,
                        i as int + 1,
                    ) =~= out@.map_values(|x: Range| x@) + (seq![rg@] + spec_blocks_from(
                        linesv,
                        i as int + 1,
                    )));
                }
                out.push(rg);
            },
        }
        i += 1;
    }
    proof {
        assert(out@.map_values(|rg: Range| rg@) + Seq::<RangeV>::empty() =~= out@.map_values(
            |rg: Range| rg@,
        ));
    }
    out
}

/// A parsed script-table row: `range-spec ; name`, the parts trimmed, the
/// range either `start..end` or a single code point. A row that does not
/// fit the form is skipped.
pub open spec fn spec_script_row(l: Seq<char>) -> Option<(Seq<char>, (i32, i32))> {
    match spec_clean_line(l) {
        None => None,
        Some(cl) => match spec_find_char(cl, ';') {
            None => None,
            Some(k) => {
                let spec0 = spec_trim(cl.subrange(0, k));
                let name = spec_trim(cl.subrange(k + 1, cl.len() as int));
                match spec_find_pair(spec0, '.', '.') {
                    None => match spec_parse_hex_i32(spec_trim(spec0)) {
                        None => None,
                        Some(v) => Some((name, (v, v))),
                    },
                    Some(d) => {
                        let a = spec_trim(spec0.subrange(0, d));
                        let b = spec_trim(spec0.subrange(d + 2, spec0.len() as int));
                        match spec_parse_hex_i32(a) {
                            None => None,
                            Some(x) => match spec_parse_hex_i32(b) {
                                None => None,
                                Some(y) => Some((name, (x, y))),
                            },
                        }
                    },
                }
            },
        },
    }
}

/// Parses one script-table row, as [`spec_script_row`] describes.
pub fn script_row(l: &str) -> (r: Option<(String, (i32, i32))>)
    ensures
        match r {
            Some(row) => spec_script_row(l@) == Some((row.0@, row.1)),
            None => spec_script_row(l@) is None,
        },
{
    let cl = match clean_line(l) {
        Some(cl) => cl,
        None => {
            return None;
        },
    };
    let cls = cl.as_str();
    let n = cls.unicode_len();
    let k = match find_char(cls, ';') {
        Some(k) => k,
        None => {
            return None;
        },
    };
    let part0 = trim(cls.substring_char(0, k));
    let name = trim(cls.substring_char(k + 1, n));
    let p0s = part0.as_str();
    let p0n = p0s.unicode_len();
    match find_pair(p0s, '.', '.') {
        None => {
            let single = trim(p0s);
            match parse_hex_i32(single.as_str()) {
                None => None,
                Some(v) => Some((name, (v, v))),
            }
        },
        Some(d) => {
            let a = trim(p0s.substring_char(0, d));
            let b = trim(p0s.substring_char(d + 2, p0n));
            match parse_hex_i32(a.as_str()) {
                None => None,
                Some(x) => match parse_hex_i32(b.as_str()) {
                    None => None,
                    Some(y) => Some((name, (x, y))),
                },
            }
        },
    }
}

/// One named script group being accumulated from the table rows.
pub struct ScriptGroup {
    pub name: String,
    pub intervals: Vec<(i32, i32)>,
}

impl View for ScriptGroup {
    type V = (Seq<char>, Seq<(i32, i32)>);

    open spec fn view(&self) -> (Seq<char>, Seq<(i32, i32)>) {
        (self.name@, self.intervals@)
    }
}

/// The position of the group named `name`, at or after `i`.
pub open spec fn spec_find_group(
    groups: Seq<(Seq<char>, Seq<(i32, i32)>)>,
    name: Seq<char>,
    i: int,
) -> Option<int>
    decreases groups.len() - i,
{
    if i < 0 || i >= groups.len() {
        None
    } else if groups[i].0 == name {
        Some(i)
    } else {
        spec_find_group(groups, name, i + 1)
    }
}

/// Grouping of the script rows from position `i`: rows sharing a name pool
/// their intervals into one group, first-seen group order, intra-group row
/// order kept.
pub open spec fn spec_group_rows_from(
    lines: Seq<Seq<char>>,
    i: int,
    groups: Seq<(Seq<char>, Seq<(i32, i32)>)>,
) -> Seq<(Seq<char>, Seq<(i32, i32)>)>
    decreases lines.len() - i,
{
    if i < 0 || i >= lines.len() {
        groups
    } else {
        match spec_script_row(lines[i]) {
            None => spec_group_rows_from(lines, i + 1, groups),
            Some(row) => {
                let g2 = match spec_find_group(groups, row.0, 0) {
                    Some(gi) => groups.update(gi, (groups[gi].0, groups[gi].1.push(row.1))),
                    None => groups.push((row.0, seq![row.1])),
                };
                spec_group_rows_from(lines, i + 1, g2)
            },
        }
    }
}

/// Every interval belonging to a group other than the one at `idx`, in
/// group order, from group `j` on.
pub open spec fn spec_other_intervals(
    groups: Seq<(Seq<char>, Seq<(i32, i32)>)>,
    idx: int,
    j: int,
) -> Seq<(i32, i32)>
    decreases groups.len() - j,
{
    if j < 0 || j >= groups.len() {
        Seq::empty()
    } else if j == idx {
        spec_other_intervals(groups, idx, j + 1)
    } else {
        groups[j].1 + spec_other_intervals(groups, idx, j + 1)
    }
}

/// The merged script entries for the groups from position `i` on: each
/// group's intervals coalesced by the adjacency merge, under the side
/// constraint given by every other group's intervals.
pub open spec fn spec_scripts_out_from(groups: Seq<(Seq<char>, Seq<(i32, i32)>)>, i: int) -> Seq<
    RangeV,
>
    decreases groups.len() - i,
{
    if i < 0 || i >= groups.len() {
        Seq::empty()
    } else {
        seq![
            RangeV::Script {
                name: groups[i].0,
                code_points: spec_merge(groups[i].1, spec_other_intervals(groups, i, 0)),
            },
        ] + spec_scripts_out_from(groups, i + 1)
    }
}

/// The whole script table: group the rows by name, then merge each group's
/// intervals against all the others'.
pub open spec fn spec_unicode_scripts(lines: Seq<Seq<char>>) -> Seq<RangeV> {
    spec_scripts_out_from(spec_group_rows_from(lines, 0, Seq::empty()), 0)
}

/// Builds the script table from the raw lines of the script listing, as
/// [`spec_unicode_scripts`] describes.
#[verifier::loop_isolation(false)]
pub fn unicode_scripts(lines: &Vec<String>) -> (r: Vec<Range>)
    ensures
        r@.map_values(|rg: Range| rg@) == spec_unicode_scripts(
            lines@.map_values(|l: String| l@),
        ),
{
    let ghost linesv = lines@.map_values(|l: String| l@);
    let n = lines.len();
    let mut groups: Vec<ScriptGroup> = Vec::new();
    let mut i: usize = 0;
    proof {
        assert(groups@.map_values(|g: ScriptGroup| g@) =~= Seq::<
            (Seq<char>, Seq<(i32, i32)>),
        >::empty());
    }
    while i < n
        invariant
            i <= n,
            n == lines@.len(),
            spec_group_rows_from(linesv, 0, Seq::empty()) == spec_group_rows_from(
                linesv,
                i as int,
                groups@.map_values(|g: ScriptGroup| g@),
            ),
        decreases n - i,
    {
        let ghost groupsv = groups@.map_values(|g: ScriptGroup| g@);
        proof {
            assert(linesv[i as int] == lines@[i as int]@);
        }
        match script_row(lines[i].as_str()) {
            None => {},
            Some(row) => {
                let gi_opt = find_group(&groups, row.0.as_str());
                match gi_opt {
                    Some(gi) => {
                        let ghost pre = groups@;
                        let g = groups.remove(gi);
                        let mut g2 = g;
                        g2.intervals.push(row.1);
                        groups.insert(gi, g2);
                        proof {
                            assert(groups@ =~= pre.update(gi as int, g2));
                            assert forall|j: int| 0 <= j < pre.len() implies groups@.map_values(
                                |g: ScriptGroup| g@,
                            )[j] == #[trigger] groupsv.update(
                                gi as int,
                                (groupsv[gi as int].0, groupsv[gi as int].1.push(row.1)),
                            )[j] by {
                                assert(groups@.map_values(|g: ScriptGroup| g@)[j] == groups@[j]@);
                                assert(groupsv[j] == pre[j]@);
                            }
                            assert(groups@.map_values(|g: ScriptGroup| g@) =~= groupsv.update(
                                gi as int,
                                (groupsv[gi as int].0, groupsv[gi as int].1.push(row.1)),
                            ));
                        }
                    },
                    None => {
                        let mut ivs: Vec<(i32, i32)> = Vec::new();
                        ivs.push(row.1);
                        let g_new = ScriptGroup { name: row.0, intervals: ivs };
                        proof {
                            assert(g_new.intervals@ =~= seq![row.1]);
                            assert(groups@.push(g_new).map_values(|g: ScriptGroup| g@)
                                =~= groupsv.push((g_new.name@, seq![row.1])));
                        }
                        groups.push(g_new);
                    },
                }
            },
        }
        i += 1;
    }
    let ghost groupsv = groups@.map_values(|g: ScriptGroup| g@);
    proof {
        assert(spec_unicode_scripts(linesv) == spec_scripts_out_from(groupsv, 0));
        assert(Seq::<RangeV>::empty() + spec_scripts_out_from(groupsv, 0) =~= spec_scripts_out_from(
            groupsv,
            0,
        ));
    }
    let gn = groups.len();
    let mut out: Vec<Range> = Vec::new();
    let mut gi: usize = 0;
    proof {
        assert(out@.map_values(|rg: Range| rg@) =~= Seq::<RangeV>::empty());
    }
    while gi < gn
        invariant
            gi <= gn,
            gn == groups@.len(),
            groups@.map_values(|g: ScriptGroup| g@) == groupsv,
            out@.map_values(|rg: Range| rg@) + spec_scripts_out_from(groupsv, gi as int)
                == spec_scripts_out_from(groupsv, 0),
        decreases gn - gi,
    {
        proof {
            assert(groups@.map_values(|g: ScriptGroup| g@)[gi as int] == groupsv[gi as int]);
        }
        let others = other_intervals(&groups, gi);
        let merged = merge_intervals(&groups[gi].intervals, &others);
        let nm = groups[gi].name.clone();
        let rg = Range::Script { name: nm, code_points: merged };
        proof {
            assert(out@.push(rg).map_values(|x: Range| x@) =~= out@.map_values(|x: Range| x@).push(
                rg@,
            ));
            assert(out@.map_values(|x: Range| x@).push(rg@) + spec_scripts_out_from(
                groupsv,
                gi as int + 1,
            ) =~= out@.map_values(|x: Range| x@) + (seq![rg@] + spec_scripts_out_from(
                groupsv,
                gi as int + 1,
            )));
        }
        out.push(rg);
        gi += 1;
    }
    proof {
        assert(out@.map_values(|rg: Range| rg@) + Seq::<RangeV>::empty() =~= out@.map_values(
            |rg: Range| rg@,
        ));
    }
    out
}

/// Finds the accumulated group named `name`.
fn find_group(groups: &Vec<ScriptGroup>, name: &str) -> (r: Option<usize>)
    ensures
        match r {
            Some(gi) => spec_find_group(groups@.map_values(|g: ScriptGroup| g@), name@, 0) == Some(
                gi as int,
            ) && gi < groups@.len(),
            None => spec_find_group(groups@.map_values(|g: ScriptGroup| g@), name@, 0) is None,
        },
{
    let n = groups.len();
    let mut i: usize = 0;
    while i < n
        invariant
            i <= n,
            n == groups@.len(),
            spec_find_group(groups@.map_values(|g: ScriptGroup| g@), name@, 0) == spec_find_group(
                groups@.map_values(|g: ScriptGroup| g@),
                name@,
                i as int,
            ),
        decreases n - i,
    {
        proof {
            assert(groups@.map_values(|g: ScriptGroup| g@)[i as int] == groups@[i as int]@);
        }
        if str_eq(groups[i].name.as_str(), name) {
            return Some(i);
        }
        i += 1;
    }
    None
}

/// Collects every interval of every group but the one at `idx`.
#[verifier::loop_isolation(false)]
fn other_intervals(groups: &Vec<ScriptGroup>, idx: usize) -> (r: Vec<(i32, i32)>)
    ensures
        r@ == spec_other_intervals(groups@.map_values(|g: ScriptGroup| g@), idx as int, 0),
{
    let ghost groupsv = groups@.map_values(|g: ScriptGroup| g@);
    let n = groups.len();
    let mut out: Vec<(i32, i32)> = Vec::new();
    let mut j: usize = 0;
    proof {
        assert(Seq::<(i32, i32)>::empty() + spec_other_intervals(groupsv, idx as int, 0)
            =~= spec_other_intervals(groupsv, idx as int, 0));
    }
    while j < n
        invariant
            j <= n,
            n == groups@.len(),
            out@ + spec_other_intervals(groupsv, idx as int, j as int) == spec_other_intervals(
                groupsv,
                idx as int,
                0,
            ),
        decreases n - j,
    {
        proof {
            assert(groupsv[j as int] == groups@[j as int]@);
        }
        if j != idx {
            let m = groups[j].intervals.len();
            let mut k: usize = 0;
            let ghost out_before = out@;
            while k < m
                invariant
                    k <= m,
                    m == groups@[j as int].intervals@.len(),
                    j < n,
                    out@ == out_before + groups@[j as int].intervals@.subrange(0, k as int),
                decreases m - k,
            {
                proof {
                    assert(out_before + groups@[j as int].intervals@.subrange(0, k as int + 1)
                        =~= (out_before + groups@[j as int].intervals@.subrange(0, k as int)).push(
                        groups@[j as int].intervals@[k as int],
                    ));
                }
                out.push(groups[j].intervals[k]);
                k += 1;
            }
            proof {
                assert(groups@[j as int].intervals@.subrange(0, m as int) =~= groups@[j as
                    int].intervals@);
                assert((out_before + groupsv[j as int].1) + spec_other_intervals(
                    groupsv,
                    idx as int,
                    j as int + 1,
                ) =~= out_before + (groupsv[j as int].1 + spec_other_intervals(
                    groupsv,
                    idx as int,
                    j as int + 1,
                )));
            }
        }
        j += 1;
    }
    proof {
        assert(out@ + Seq::<(i32, i32)>::empty() =~= out@);
    }
    out
}

} // verus!
