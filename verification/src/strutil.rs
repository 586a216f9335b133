use vstd::prelude::*;

verus! {

use vstd::string::StrSliceExecFns;

/// True when `s` begins with the prefix `p`.
pub open spec fn seq_starts_with(s: Seq<char>, p: Seq<char>) -> bool {
    p.len() <= s.len() && s.subrange(0, p.len() as int) == p
}

/// Character-wise equality of two string slices.
pub fn str_eq(a: &str, b: &str) -> (r: bool)
    ensures
        r == (a@ == b@),
{
    let n = a.unicode_len();
    if n != b.unicode_len() {
        proof {
            if a@ == b@ {
                assert(a@.len() == b@.len());
            }
        }
        return false;
    }
    let mut i: usize = 0;
    while i < n
        invariant
            i <= n,
            n == a@.len(),
            n == b@.len(),
            forall|j: int| 0 <= j < i ==> a@[j] == b@[j],
        decreases n - i,
    {
        if a.get_char(i) != b.get_char(i) {
            proof {
                if a@ == b@ {
                    assert(a@[i as int] == b@[i as int]);
                }
            }
            return false;
        }
        i += 1;
    }
    proof {
        assert(a@ =~= b@);
    }
    true
}

/// Whether `s` starts with `p`, decided character by character.
pub fn str_starts_with(s: &str, p: &str) -> (r: bool)
    ensures
        r == seq_starts_with(s@, p@),
{
    let np = p.unicode_len();
    if np > s.unicode_len() {
        return false;
    }
    let mut i: usize = 0;
    while i < np
        invariant
            i <= np,
            np == p@.len(),
            np <= s@.len(),
            forall|j: int| 0 <= j < i ==> s@[j] == p@[j],
        decreases np - i,
    {
        if s.get_char(i) != p.get_char(i) {
            proof {
                if seq_starts_with(s@, p@) {
                    assert(s@.subrange(0, p@.len() as int)[i as int] == p@[i as int]);
                }
            }
            return false;
        }
        i += 1;
    }
    proof {
        assert(s@.subrange(0, p@.len() as int) =~= p@);
    }
    true
}

/// First position of `c` in `s` at or after `i`.
pub open spec fn spec_find_char_from(s: Seq<char>, c: char, i: int) -> Option<int>
    decreases s.len() - i,
{
    if i < 0 || i >= s.len() {
        None
    } else if s[i] == c {
        Some(i)
    } else {
        spec_find_char_from(s, c, i + 1)
    }
}

/// First position of `c` in `s`, if any.
pub open spec fn spec_find_char(s: Seq<char>, c: char) -> Option<int> {
    spec_find_char_from(s, c, 0)
}

/// Finds the first occurrence of `c` in `s`.
pub fn find_char(s: &str, c: char) -> (r: Option<usize>)
    ensures
        match r {
            Some(i) => spec_find_char(s@, c) == Some(i as int) && i < s@.len() && s@[i as int]
                == c,
            None => spec_find_char(s@, c) is None,
        },
{
    let n = s.unicode_len();
    let mut i: usize = 0;
    while i < n
        invariant
            i <= n,
            n == s@.len(),
            spec_find_char(s@, c) == spec_find_char_from(s@, c, i as int),
        decreases n - i,
    {
        if s.get_char(i) == c {
            return Some(i);
        }
        i += 1;
    }
    None
}

/// First position at or after `i` where `c0` is immediately followed by `c1`.
pub open spec fn spec_find_pair_from(s: Seq<char>, c0: char, c1: char, i: int) -> Option<int>
    decreases s.len() - i,
{
    if i < 0 || i + 1 >= s.len() {
        None
    } else if s[i] == c0 && s[i + 1] == c1 {
        Some(i)
    } else {
        spec_find_pair_from(s, c0, c1, i + 1)
    }
}

/// First position where `c0` is immediately followed by `c1`.
pub open spec fn spec_find_pair(s: Seq<char>, c0: char, c1: char) -> Option<int> {
    spec_find_pair_from(s, c0, c1, 0)
}

/// Finds the first occurrence of the two-character pattern `c0 c1` in `s`.
pub fn find_pair(s: &str, c0: char, c1: char) -> (r: Option<usize>)
    ensures
        match r {
            Some(i) => spec_find_pair(s@, c0, c1) == Some(i as int) && i as int + 1 < s@.len(),
            None => spec_find_pair(s@, c0, c1) is None,
        },
{
    let n = s.unicode_len();
    if n < 2 {
        return None;
    }
    let mut i: usize = 0;
    while i + 1 < n
        invariant
            i + 1 <= n,
            n == s@.len(),
            n >= 2,
            spec_find_pair(s@, c0, c1) == spec_find_pair_from(s@, c0, c1, i as int),
        decreases n - i,
    {
        if s.get_char(i) == c0 && s.get_char(i + 1) == c1 {
            return Some(i);
        }
        i += 1;
    }
    None
}

/// The characters that `str::trim` removes at either end.
pub open spec fn spec_is_whitespace(c: char) -> bool {
    let u = c as u32;
    (0x9 <= u && u <= 0xd) || u == 0x20 || u == 0x85 || u == 0xa0 || u == 0x1680 || (0x2000 <= u
        && u <= 0x200a) || u == 0x2028 || u == 0x2029 || u == 0x202f || u == 0x205f || u == 0x3000
}

/// Whitespace test matching [`spec_is_whitespace`].
pub fn is_whitespace_char(c: char) -> (r: bool)
    ensures
        r == spec_is_whitespace(c),
{
    let u = c as u32;
    (0x9 <= u && u <= 0xd) || u == 0x20 || u == 0x85 || u == 0xa0 || u == 0x1680 || (0x2000 <= u
        && u <= 0x200a) || u == 0x2028 || u == 0x2029 || u == 0x202f || u == 0x205f || u == 0x3000
}

/// `s` with leading whitespace removed.
pub open spec fn spec_trim_start(s: Seq<char>) -> Seq<char>
    decreases s.len(),
{
    if s.len() > 0 && spec_is_whitespace(s[0]) {
        spec_trim_start(s.drop_first())
    } else {
        s
    }
}

/// `s` with trailing whitespace removed.
pub open spec fn spec_trim_end(s: Seq<char>) -> Seq<char>
    decreases s.len(),
{
    if s.len() > 0 && spec_is_whitespace(s[s.len() - 1]) {
        spec_trim_end(s.drop_last())
    } else {
        s
    }
}

/// `s` with whitespace removed at both ends.
pub open spec fn spec_trim(s: Seq<char>) -> Seq<char> {
    spec_trim_end(spec_trim_start(s))
}

/// Removes whitespace from both ends, as `str::trim` does.
pub fn trim(s: &str) -> (r: String)
    ensures
        r@ == spec_trim(s@),
{
    let n = s.unicode_len();
    let mut b: usize = 0;
    proof {
        assert(s@.skip(0) =~= s@);
    }
    loop
        invariant
            b <= n,
            n == s@.len(),
            spec_trim_start(s@) == spec_trim_start(s@.skip(b as int)),
        ensures
            b <= n,
            n == s@.len(),
            spec_trim_start(s@) == spec_trim_start(s@.skip(b as int)),
            b == n || !spec_is_whitespace(s@[b as int]),
        decreases n - b,
    {
        if b >= n {
            break ;
        }
        if !is_whitespace_char(s.get_char(b)) {
            break ;
        }
        proof {
            assert(s@.skip(b as int)[0] == s@[b as int]);
            assert(s@.skip(b as int).drop_first() =~= s@.skip(b as int + 1));
        }
        b += 1;
    }
    proof {
        if b < n {
            assert(s@.skip(b as int)[0] == s@[b as int]);
        }
        assert(spec_trim_start(s@) == s@.skip(b as int));
    }
    let mut e: usize = n;
    loop
        invariant
            b <= e <= n,
            n == s@.len(),
            spec_trim_start(s@) == s@.skip(b as int),
            spec_trim_end(s@.skip(b as int)) == spec_trim_end(s@.subrange(b as int, e as int)),
        ensures
            b <= e <= n,
            spec_trim_end(s@.skip(b as int)) == spec_trim_end(s@.subrange(b as int, e as int)),
            e == b || !spec_is_whitespace(s@[e as int - 1]),
        decreases e,
    {
        if e <= b {
            break ;
        }
        if !is_whitespace_char(s.get_char(e - 1)) {
            break ;
        }
        proof {
            let t = s@.subrange(b as int, e as int);
            assert(t[t.len() - 1] == s@[e - 1]);
            assert(t.drop_last() =~= s@.subrange(b as int, e as int - 1));
        }
        e -= 1;
    }
    proof {
        let t = s@.subrange(b as int, e as int);
        if e > b {
            assert(t[t.len() - 1] == s@[e - 1]);
        }
        assert(spec_trim(s@) == s@.subrange(b as int, e as int));
    }
    let piece = s.substring_char(b, e);
    piece.to_owned()
}

/// Hexadecimal digit test.
pub open spec fn spec_is_hex_digit(c: char) -> bool {
    let u = c as u32;
    (0x30 <= u && u <= 0x39) || (0x61 <= u && u <= 0x66) || (0x41 <= u && u <= 0x46)
}

/// Numeric value of one hexadecimal digit.
pub open spec fn spec_hex_digit_val(c: char) -> int {
    let u = c as u32;
    if 0x30 <= u && u <= 0x39 {
        u - 0x30
    } else if 0x61 <= u && u <= 0x66 {
        u - 0x61 + 10
    } else if 0x41 <= u && u <= 0x46 {
        u - 0x41 + 10
    } else {
        0
    }
}

/// Whether every character of `s` is a hexadecimal digit.
pub open spec fn spec_all_hex(s: Seq<char>) -> bool {
    forall|i: int| 0 <= i < s.len() ==> spec_is_hex_digit(#[trigger] s[i])
}

/// Value of `s` read as a big-endian hexadecimal numeral.
pub open spec fn spec_hex_val(s: Seq<char>) -> int
    decreases s.len(),
{
    if s.len() == 0 {
        0
    } else {
        spec_hex_val(s.drop_last()) * 16 + spec_hex_digit_val(s.last())
    }
}

/// What a hexadecimal numeral parses to: defined exactly when `s` is a
/// non-empty run of hexadecimal digits whose value fits in an `i32`.
pub open spec fn spec_parse_hex_i32(s: Seq<char>) -> Option<i32> {
    if s.len() > 0 && spec_all_hex(s) && spec_hex_val(s) <= i32::MAX as int {
        Some(spec_hex_val(s) as i32)
    } else {
        None
    }
}

proof fn lemma_hex_val_nonneg(s: Seq<char>)
    requires
        spec_all_hex(s),
    ensures
        spec_hex_val(s) >= 0,
    decreases s.len(),
{
    if s.len() > 0 {
        assert(spec_all_hex(s.drop_last())) by {
            assert(forall|i: int|
                0 <= i < s.drop_last().len() ==> #[trigger] s.drop_last()[i] == s[i]);
        }
        lemma_hex_val_nonneg(s.drop_last());
    }
}

proof fn lemma_hex_val_prefix_le(s: Seq<char>, i: int)
    requires
        spec_all_hex(s),
        0 <= i <= s.len(),
    ensures
        spec_hex_val(s.subrange(0, i)) <= spec_hex_val(s),
    decreases s.len() - i,
{
    if i < s.len() {
        lemma_hex_val_prefix_le(s, i + 1);
        let p = s.subrange(0, i);
        let q = s.subrange(0, i + 1);
        assert(q.drop_last() =~= p);
        assert(q.last() == s[i]);
        assert(spec_all_hex(p)) by {
            assert(forall|j: int| 0 <= j < p.len() ==> #[trigger] p[j] == s[j]);
        }
        lemma_hex_val_nonneg(p);
        assert(spec_hex_val(q) == spec_hex_val(p) * 16 + spec_hex_digit_val(s[i]));
        assert(spec_hex_val(p) * 16 >= spec_hex_val(p)) by (nonlinear_arith)
            requires
                spec_hex_val(p) >= 0,
        ;
        assert(spec_hex_digit_val(s[i]) >= 0);
    } else {
        assert(s.subrange(0, i) =~= s);
    }
}

/// Reads `s` as a hexadecimal numeral, as [`spec_parse_hex_i32`] describes.
pub fn parse_hex_i32(s: &str) -> (r: Option<i32>)
    ensures
        r == spec_parse_hex_i32(s@),
{
    let n = s.unicode_len();
    if n == 0 {
        return None;
    }
    let mut val: i32 = 0;
    let mut i: usize = 0;
    while i < n
        invariant
            i <= n,
            n == s@.len(),
            spec_all_hex(s@.subrange(0, i as int)),
            0 <= val,
            val as int == spec_hex_val(s@.subrange(0, i as int)),
        decreases n - i,
    {
        let c = s.get_char(i);
        let u = c as u32;
        let d: u32 = if 0x30 <= u && u <= 0x39 {
            u - 0x30
        } else if 0x61 <= u && u <= 0x66 {
            u - 0x61 + 10
        } else if 0x41 <= u && u <= 0x46 {
            u - 0x41 + 10
        } else {
            proof {
                assert(!spec_is_hex_digit(s@[i as int]));
            }
            return None;
        };
        if val > 0x07ff_ffff {
            proof {
                let p = s@.subrange(0, i as int);
                let q = s@.subrange(0, i as int + 1);
                assert(q.drop_last() =~= p);
                assert(q.last() == s@[i as int]);
                assert(spec_hex_digit_val(s@[i as int]) == d as int);
                assert(spec_hex_val(q) == val * 16 + d);
                if spec_all_hex(s@) {
                    lemma_hex_val_prefix_le(s@, i as int + 1);
                }
            }
            return None;
        }
        proof {
            let p = s@.subrange(0, i as int);
            let q = s@.subrange(0, i as int + 1);
            assert(q.drop_last() =~= p);
            assert(q.last() == s@[i as int]);
        }
        val = val * 16 + (d as i32);
        i += 1;
    }
    proof {
        assert(s@.subrange(0, n as int) =~= s@);
    }
    Some(val)
}

} // verus!
