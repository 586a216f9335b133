use vstd::prelude::*;

verus! {

/// The interval `(l, r)` lies entirely outside the closed span `span`:
/// it ends before the span starts or starts after the span ends.
pub open spec fn spec_outside(other: (i32, i32), span: (i32, i32)) -> bool {
    other.1 < span.0 || other.0 > span.1
}

/// The span is clear of every interval in `others`.
pub open spec fn spec_clear_of(span: (i32, i32), others: Seq<(i32, i32)>) -> bool {
    forall|j: int| 0 <= j < others.len() ==> spec_outside(#[trigger] others[j], span)
}

/// Two adjacent intervals `x` and `y` may coalesce into `(x.0, y.1)` exactly
/// when that merged span is clear of every interval of the other scripts.
pub open spec fn spec_can_merge(x: (i32, i32), y: (i32, i32), others: Seq<(i32, i32)>) -> bool {
    spec_clear_of((x.0, y.1), others)
}

/// One left-to-right coalescing pass over `rs[i..]`, with `acc` the interval
/// currently being grown. Each next interval either merges into `acc` or
/// closes it and starts a new one.
pub open spec fn spec_coalesce_from(
    rs: Seq<(i32, i32)>,
    i: int,
    acc: (i32, i32),
    others: Seq<(i32, i32)>,
) -> Seq<(i32, i32)>
    decreases rs.len() - i,
{
    if i < 0 || i >= rs.len() {
        seq![acc]
    } else if spec_can_merge(acc, rs[i], others) {
        spec_coalesce_from(rs, i + 1, (acc.0, rs[i].1), others)
    } else {
        seq![acc] + spec_coalesce_from(rs, i + 1, rs[i], others)
    }
}

/// The merged form of one script's interval list, given the intervals
/// `others` belonging to every other script.
pub open spec fn spec_merge(rs: Seq<(i32, i32)>, others: Seq<(i32, i32)>) -> Seq<(i32, i32)> {
    if rs.len() == 0 {
        Seq::empty()
    } else {
        spec_coalesce_from(rs, 1, rs[0], others)
    }
}

/// Decides [`spec_can_merge`].
pub fn can_merge(x: (i32, i32), y: (i32, i32), others: &Vec<(i32, i32)>) -> (r: bool)
    ensures
        r == spec_can_merge(x, y, others@),
{
    let mut j: usize = 0;
    while j < others.len()
        invariant
            j <= others@.len(),
            forall|k: int| 0 <= k < j ==> spec_outside(#[trigger] others@[k], (x.0, y.1)),
        decreases others@.len() - j,
    {
        let o = others[j];
        if !(o.1 < x.0 || o.0 > y.1) {
            proof {
                assert(!spec_outside(others@[j as int], (x.0, y.1)));
            }
            return false;
        }
        j += 1;
    }
    true
}

/// The adjacency-merge pass: coalesces each interval with its predecessor
/// when the merged span claims no code point of another script.
pub fn merge_intervals(rs: &Vec<(i32, i32)>, others: &Vec<(i32, i32)>) -> (r: Vec<(i32, i32)>)
    ensures
        r@ == spec_merge(rs@, others@),
{
    let mut out: Vec<(i32, i32)> = Vec::new();
    if rs.len() == 0 {
        proof {
            assert(out@ =~= spec_merge(rs@, others@));
        }
        return out;
    }
    let mut acc: (i32, i32) = rs[0];
    let mut i: usize = 1;
    while i < rs.len()
        invariant
            1 <= i <= rs@.len(),
            out@ + spec_coalesce_from(rs@, i as int, acc, others@) == spec_merge(rs@, others@),
        decreases rs@.len() - i,
    {
        let y = rs[i];
        if can_merge(acc, y, others) {
            acc = (acc.0, y.1);
        } else {
            proof {
                assert(out@ + (seq![acc] + spec_coalesce_from(rs@, i + 1, rs@[i as int], others@))
                    =~= (out@ + seq![acc]) + spec_coalesce_from(rs@, i + 1, rs@[i as int], others@));
            }
            out.push(acc);
            acc = y;
        }
        i += 1;
    }
    proof {
        assert(out@ + seq![acc] == spec_merge(rs@, others@));
    }
    out.push(acc);
    out
}

/// Every interval of the merged output is either an interval of the input,
/// kept separate, or a span that the final merge step checked to be clear of
/// every other script's intervals.
proof fn lemma_coalesce_sound(rs: Seq<(i32, i32)>, i: int, acc: (i32, i32), others: Seq<(i32, i32)>)
    requires
        rs.contains(acc) || spec_clear_of(acc, others),
    ensures
        forall|k: int|
            0 <= k < spec_coalesce_from(rs, i, acc, others).len() ==> {
                let iv = #[trigger] spec_coalesce_from(rs, i, acc, others)[k];
                rs.contains(iv) || spec_clear_of(iv, others)
            },
    decreases rs.len() - i,
{
    if i < 0 || i >= rs.len() {
        assert(spec_coalesce_from(rs, i, acc, others) == seq![acc]);
        assert(seq![acc][0] == acc);
    } else if spec_can_merge(acc, rs[i], others) {
        lemma_coalesce_sound(rs, i + 1, (acc.0, rs[i].1), others);
        assert(spec_coalesce_from(rs, i, acc, others) == spec_coalesce_from(
            rs,
            i + 1,
            (acc.0, rs[i].1),
            others,
        ));
    } else {
        assert(rs.contains(rs[i]));
        lemma_coalesce_sound(rs, i + 1, rs[i], others);
        assert forall|k: int|
            0 <= k < spec_coalesce_from(rs, i, acc, others).len() implies rs.contains(
            #[trigger] spec_coalesce_from(rs, i, acc, others)[k],
        ) || spec_clear_of(spec_coalesce_from(rs, i, acc, others)[k], others) by {
            if k > 0 {
                assert(spec_coalesce_from(rs, i, acc, others)[k] == spec_coalesce_from(
                    rs,
                    i + 1,
                    rs[i],
                    others,
                )[k - 1]);
            } else {
                assert(spec_coalesce_from(rs, i, acc, others)[0] == acc);
            }
        }
    }
}

/// The interval ends `rs[i].1, rs[i+1].1, ...` never decrease from
/// position `i` on.
pub open spec fn spec_ends_nondec_from(rs: Seq<(i32, i32)>, i: int) -> bool {
    forall|p: int, q: int| i <= p <= q < rs.len() ==> (#[trigger] rs[p]).1 <= (#[trigger] rs[q]).1
}

/// The interval ends of `rs` never decrease, as in the source tables, where
/// each script's rows come in ascending order.
pub open spec fn spec_ends_nondec(rs: Seq<(i32, i32)>) -> bool {
    spec_ends_nondec_from(rs, 0)
}

/// No adjacent pair of `out` may coalesce any further.
pub open spec fn spec_no_adjacent_merge(out: Seq<(i32, i32)>, others: Seq<(i32, i32)>) -> bool {
    forall|k: int|
        0 <= k < out.len() - 1 ==> !spec_can_merge(#[trigger] out[k], out[k + 1], others)
}

proof fn lemma_coalesce_nomerge(rs: Seq<(i32, i32)>, i: int, acc: (i32, i32), others: Seq<
    (i32, i32),
>)
    requires
        0 <= i <= rs.len(),
        spec_ends_nondec_from(rs, i),
        i < rs.len() ==> acc.1 <= rs[i].1,
    ensures
        spec_coalesce_from(rs, i, acc, others).len() >= 1,
        spec_coalesce_from(rs, i, acc, others)[0].0 == acc.0,
        spec_coalesce_from(rs, i, acc, others)[0].1 >= acc.1,
        spec_no_adjacent_merge(spec_coalesce_from(rs, i, acc, others), others),
    decreases rs.len() - i,
{
    if i >= rs.len() {
    } else if spec_can_merge(acc, rs[i], others) {
        lemma_coalesce_nomerge(rs, i + 1, (acc.0, rs[i].1), others);
    } else {
        lemma_coalesce_nomerge(rs, i + 1, rs[i], others);
        let tail = spec_coalesce_from(rs, i + 1, rs[i], others);
        let out = spec_coalesce_from(rs, i, acc, others);
        assert(out == seq![acc] + tail);
        assert(out[0] == acc);
        // The failed check gives a witness that still overlaps the wider span
        // up to the end of the group that starts at rs[i].
        let j = choose|j: int|
            0 <= j < others.len() && !spec_outside(#[trigger] others[j], (acc.0, rs[i].1));
        assert(!spec_outside(others[j], (acc.0, tail[0].1)));
        assert(!spec_can_merge(out[0], out[1], others));
        assert forall|k: int|
            0 <= k < out.len() - 1 implies !spec_can_merge(#[trigger] out[k], out[k + 1], others) by {
            if k >= 1 {
                assert(out[k] == tail[k - 1]);
                assert(out[k + 1] == tail[k]);
            }
        }
    }
}

proof fn lemma_coalesce_id(out: Seq<(i32, i32)>, k: int, others: Seq<(i32, i32)>)
    requires
        1 <= k <= out.len(),
        spec_no_adjacent_merge(out, others),
    ensures
        spec_coalesce_from(out, k, out[k - 1], others) == out.skip(k - 1),
    decreases out.len() - k,
{
    if k >= out.len() {
        assert(spec_coalesce_from(out, k, out[k - 1], others) =~= out.skip(k - 1));
    } else {
        assert(!spec_can_merge(out[k - 1], out[k], others));
        lemma_coalesce_id(out, k + 1, others);
        assert(seq![out[k - 1]] + out.skip(k) =~= out.skip(k - 1));
    }
}

/// Merge idempotence: on a script whose interval ends come in ascending
/// order — as they do in the source tables — running the merge pass on its
/// own output changes nothing: no further coalescing is possible.
pub proof fn lemma_merge_idempotent(rs: Seq<(i32, i32)>, others: Seq<(i32, i32)>)
    requires
        spec_ends_nondec(rs),
    ensures
        spec_merge(spec_merge(rs, others), others) == spec_merge(rs, others),
{
    if rs.len() == 0 {
    } else {
        lemma_coalesce_nomerge(rs, 1, rs[0], others);
        let out = spec_merge(rs, others);
        lemma_coalesce_id(out, 1, others);
        assert(out.skip(0) =~= out);
    }
}

/// Merge soundness: every interval of the merged output either already stood
/// in the input list, or its whole span is clear of every other script's
/// intervals — no merge silently claims code points carved out elsewhere.
pub proof fn lemma_merge_soundness(rs: Seq<(i32, i32)>, others: Seq<(i32, i32)>)
    ensures
        forall|k: int|
            0 <= k < spec_merge(rs, others).len() ==> {
                let iv = #[trigger] spec_merge(rs, others)[k];
                rs.contains(iv) || spec_clear_of(iv, others)
            },
{
    if rs.len() > 0 {
        assert(rs.contains(rs[0]));
        lemma_coalesce_sound(rs, 1, rs[0], others);
    }
}

} // verus!
