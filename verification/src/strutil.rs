//! Verified string primitives used by the request classifier and the
//! cache-file name filter: equality, prefix, substring search, positional
//! segment extraction, query-parameter lookup, and 8-bit decimal parsing.

use vstd::prelude::*;

verus! {

/// The pattern `pat` occurs in `s` at position `i`.
pub open spec fn matches_at(s: Seq<char>, pat: Seq<char>, i: int) -> bool {
    &&& 0 <= i
    &&& i + pat.len() <= s.len()
    &&& s.subrange(i, i + pat.len() as int) == pat
}

/// The pattern `pat` occurs somewhere in `s`.
pub open spec fn contains_sub(s: Seq<char>, pat: Seq<char>) -> bool {
    exists|i: int| matches_at(s, pat, i)
}

/// `p` is a prefix of `s`.
pub open spec fn is_prefix(p: Seq<char>, s: Seq<char>) -> bool {
    p.len() <= s.len() && s.take(p.len() as int) == p
}

/// The first position `>= from` holding character `c`, if any.
pub open spec fn find_from(s: Seq<char>, c: char, from: int) -> Option<int>
    decreases s.len() - from,
{
    if from < 0 || from >= s.len() {
        None
    } else if s[from] == c {
        Some(from)
    } else {
        find_from(s, c, from + 1)
    }
}

/// The first position `>= from` where the pattern `pat` occurs, if any.
pub open spec fn find_sub_from(s: Seq<char>, pat: Seq<char>, from: int) -> Option<int>
    decreases s.len() - from,
{
    if from < 0 || from + pat.len() > s.len() {
        None
    } else if matches_at(s, pat, from) {
        Some(from)
    } else if from + pat.len() == s.len() {
        None
    } else {
        find_sub_from(s, pat, from + 1)
    }
}

/// The `n`-th piece of `s` delimited by `c` (pieces may be empty).
pub open spec fn seg(s: Seq<char>, c: char, n: int) -> Option<Seq<char>>
    decreases n,
{
    if n < 0 {
        None
    } else {
        match find_from(s, c, 0) {
            None => if n == 0 {
                Some(s)
            } else {
                None
            },
            Some(i) => if n == 0 {
                Some(s.take(i))
            } else {
                seg(s.skip(i + 1), c, n - 1)
            },
        }
    }
}

/// Wherever `find_from` finds `c`, the position is in range and holds `c`,
/// and no earlier position at or past `from` does.
pub proof fn lemma_find_from_bounds(s: Seq<char>, c: char, from: int)
    ensures
        match find_from(s, c, from) {
            Some(i) => from <= i < s.len() && s[i] == c && forall|j: int|
                from <= j < i ==> s[j] != c,
            None => from >= 0 ==> forall|j: int| from <= j < s.len() ==> s[j] != c,
        },
    decreases s.len() - from,
{
    if from < 0 || from >= s.len() {
    } else if s[from] == c {
    } else {
        lemma_find_from_bounds(s, c, from + 1);
    }
}

/// The value of the first `key=value` pair of the `&`-separated list `q`,
/// if any.
pub open spec fn param_value(q: Seq<char>, key: Seq<char>) -> Option<Seq<char>>
    decreases q.len(),
    via param_value_decreases
{
    let piece_end = match find_from(q, '&', 0) {
        None => q.len() as int,
        Some(i) => i,
    };
    let piece = q.take(piece_end);
    if is_prefix(key.push('='), piece) {
        Some(piece.skip(key.len() + 1 as int))
    } else {
        match find_from(q, '&', 0) {
            None => None,
            Some(i) => param_value(q.skip(i + 1), key),
        }
    }
}

#[via_fn]
proof fn param_value_decreases(q: Seq<char>, key: Seq<char>) {
    lemma_find_from_bounds(q, '&', 0);
}

/// The numeric value of the decimal digit `c`.
pub open spec fn digit_val(c: char) -> int {
    c as int - 48
}

/// `c` is a decimal digit.
pub open spec fn is_digit(c: char) -> bool {
    48 <= c as int <= 57
}

/// The value of a digit string, most significant digit first.
pub open spec fn digits_val(s: Seq<char>) -> int
    decreases s.len(),
{
    if s.len() == 0 {
        0
    } else {
        digits_val(s.drop_last()) * 10 + digit_val(s.last())
    }
}

/// `s` denotes an unsigned 8-bit integer: nonempty, all decimal digits
/// (leading zeroes allowed), value at most 255.
pub open spec fn valid_u8_str(s: Seq<char>) -> bool {
    &&& s.len() >= 1
    &&& forall|i: int| 0 <= i < s.len() ==> is_digit(s[i])
    &&& digits_val(s) <= 255
}

/// The parse of `s` as an unsigned 8-bit integer.
pub open spec fn parse_u8_spec(s: Seq<char>) -> Option<u8> {
    if valid_u8_str(s) {
        Some(digits_val(s) as u8)
    } else {
        None
    }
}

/// The model of an optional owned string.
pub open spec fn opt_str_view(r: Option<String>) -> Option<Seq<char>> {
    match r {
        Some(s) => Some(s@),
        None => None,
    }
}

proof fn lemma_digits_val_nonneg(s: Seq<char>)
    requires
        forall|i: int| 0 <= i < s.len() ==> is_digit(s[i]),
    ensures
        digits_val(s) >= 0,
    decreases s.len(),
{
    if s.len() > 0 {
        assert(forall|i: int| 0 <= i < s.drop_last().len() ==> is_digit(s.drop_last()[i]));
        lemma_digits_val_nonneg(s.drop_last());
    }
}

proof fn lemma_digits_val_prefix(s: Seq<char>, i: int)
    requires
        0 <= i <= s.len(),
        forall|j: int| 0 <= j < s.len() ==> is_digit(s[j]),
    ensures
        digits_val(s.take(i)) <= digits_val(s),
    decreases s.len() - i,
{
    if i == s.len() {
        assert(s.take(i) =~= s);
    } else {
        lemma_digits_val_prefix(s, i + 1);
        assert(s.take(i + 1).drop_last() =~= s.take(i));
        assert(s.take(i + 1).last() == s[i]);
        assert(forall|j: int| 0 <= j < s.take(i).len() ==> is_digit(s.take(i)[j]));
        lemma_digits_val_nonneg(s.take(i));
    }
}

/// Character-by-character string equality.
pub fn str_eq(a: &str, b: &str) -> (r: bool)
    ensures
        r == (a@ == b@),
{
    let n = a.unicode_len();
    let m = b.unicode_len();
    if n != m {
        return false;
    }
    for i in 0..n
        invariant
            n == a@.len(),
            n == b@.len(),
            forall|j: int| 0 <= j < i ==> a@[j] == b@[j],
    {
        if a.get_char(i) != b.get_char(i) {
            return false;
        }
    }
    proof {
        assert(a@ =~= b@);
    }
    true
}

/// Does `p` start `s`?
pub fn has_prefix(s: &str, p: &str) -> (r: bool)
    ensures
        r == is_prefix(p@, s@),
{
    let n = s.unicode_len();
    let m = p.unicode_len();
    if m > n {
        return false;
    }
    for i in 0..m
        invariant
            n == s@.len(),
            m == p@.len(),
            m <= n,
            forall|j: int| 0 <= j < i ==> s@[j] == p@[j],
    {
        if s.get_char(i) != p.get_char(i) {
            assert(s@.take(m as int)[i as int] != p@[i as int]);
            return false;
        }
    }
    proof {
        assert(s@.take(m as int) =~= p@);
    }
    true
}

/// Does `pat` occur in `s` at position `i`?
pub fn match_at(s: &str, pat: &str, i: usize) -> (r: bool)
    ensures
        r == matches_at(s@, pat@, i as int),
{
    let n = s.unicode_len();
    let m = pat.unicode_len();
    if m > n || i > n - m {
        return false;
    }
    for j in 0..m
        invariant
            n == s@.len(),
            m == pat@.len(),
            m <= n,
            i <= n - m,
            forall|k: int| 0 <= k < j ==> s@[i + k] == pat@[k],
    {
        if s.get_char(i + j) != pat.get_char(j) {
            assert(s@.subrange(i as int, i + m as int)[j as int] != pat@[j as int]);
            return false;
        }
    }
    proof {
        assert(s@.subrange(i as int, i + m as int) =~= pat@);
    }
    true
}

/// Does `pat` occur anywhere in `s`?
pub fn contains(s: &str, pat: &str) -> (r: bool)
    ensures
        r == contains_sub(s@, pat@),
{
    let n = s.unicode_len();
    let m = pat.unicode_len();
    if m > n {
        assert(forall|i: int| !matches_at(s@, pat@, i));
        return false;
    }
    if m == 0 {
        proof {
            assert(s@.subrange(0, 0) =~= pat@);
            assert(matches_at(s@, pat@, 0));
        }
        return true;
    }
    let end = n - m;
    let mut i: usize = 0;
    while i <= end
        invariant
            n == s@.len(),
            m == pat@.len(),
            1 <= m <= n,
            end == n - m,
            i <= end + 1,
            forall|j: int| 0 <= j < i ==> !matches_at(s@, pat@, j),
        decreases end + 1 - i,
    {
        if match_at(s, pat, i) {
            return true;
        }
        i = i + 1;
    }
    assert(forall|j: int| matches_at(s@, pat@, j) ==> 0 <= j <= end);
    false
}

/// The first position where `pat` occurs in `s`, if any.
pub fn find_sub(s: &str, pat: &str) -> (r: Option<usize>)
    ensures
        match r {
            Some(i) => Some(i as int) == find_sub_from(s@, pat@, 0) && i + pat@.len() <= s@.len(),
            None => find_sub_from(s@, pat@, 0) is None,
        },
{
    let n = s.unicode_len();
    let m = pat.unicode_len();
    if m > n {
        return None;
    }
    if m == 0 {
        proof {
            assert(s@.subrange(0, 0) =~= pat@);
        }
        return Some(0);
    }
    let end = n - m;
    let mut i: usize = 0;
    while i <= end
        invariant
            n == s@.len(),
            m == pat@.len(),
            1 <= m <= n,
            end == n - m,
            i <= end + 1,
            find_sub_from(s@, pat@, 0) == find_sub_from(s@, pat@, i as int),
        decreases end + 1 - i,
    {
        if match_at(s, pat, i) {
            return Some(i);
        }
        i = i + 1;
    }
    None
}

/// The first position `>= from` holding character `c`, if any.
pub fn find_char_from(s: &str, c: char, from: usize) -> (r: Option<usize>)
    ensures
        match r {
            Some(i) => Some(i as int) == find_from(s@, c, from as int) && from <= i < s@.len()
                && s@[i as int] == c,
            None => find_from(s@, c, from as int) is None,
        },
{
    let n = s.unicode_len();
    let mut i = from;
    while i < n
        invariant
            n == s@.len(),
            from <= i,
            find_from(s@, c, from as int) == find_from(s@, c, i as int),
        decreases n - i,
    {
        if s.get_char(i) == c {
            return Some(i);
        }
        i = i + 1;
    }
    None
}

/// The `n`-th piece of `s` delimited by `c`.
pub fn nth_segment(s: &str, c: char, n: usize) -> (r: Option<String>)
    ensures
        opt_str_view(r) == seg(s@, c, n as int),
    decreases n,
{
    let len = s.unicode_len();
    match find_char_from(s, c, 0) {
        None => {
            if n == 0 {
                Some(s.to_owned())
            } else {
                None
            }
        },
        Some(i) => {
            if n == 0 {
                Some(s.substring_char(0, i).to_owned())
            } else {
                nth_segment(s.substring_char(i + 1, len), c, n - 1)
            }
        },
    }
}

/// The value of the first `key=value` pair in the `&`-separated list `q`.
pub fn query_param(q: &str, key: &str) -> (r: Option<String>)
    ensures
        opt_str_view(r) == param_value(q@, key@),
    decreases q@.len(),
{
    let qlen = q.unicode_len();
    let klen = key.unicode_len();
    let found = find_char_from(q, '&', 0);
    let piece_end = match found {
        None => qlen,
        Some(i) => i,
    };
    let ghost piece = q@.take(piece_end as int);
    let ghost kp = key@.push('=');
    proof {
        assert(piece.len() == piece_end);
        assert(kp.len() == klen + 1);
    }
    let hit = if klen < piece_end && match_at(q, key, 0) {
        q.get_char(klen) == '='
    } else {
        false
    };
    proof {
        if hit {
            assert(q@.subrange(0, klen as int) == key@);
            assert forall|j: int| 0 <= j < klen + 1 implies piece.take(klen + 1)[j] == kp[j] by {
                if j < klen {
                    assert(q@.subrange(0, klen as int)[j] == q@[j]);
                }
            }
            assert(piece.take(klen + 1) =~= kp);
            assert(is_prefix(kp, piece));
        } else {
            if is_prefix(kp, piece) {
                assert(piece.take(klen + 1) == kp);
                assert(klen < piece_end);
                assert forall|j: int| 0 <= j < klen implies q@.subrange(0, klen as int)[j]
                    == key@[j] by {
                    assert(piece.take(klen + 1)[j] == kp[j]);
                }
                assert(q@.subrange(0, klen as int) =~= key@);
                assert(matches_at(q@, key@, 0));
                assert(piece.take(klen + 1)[klen as int] == kp[klen as int]);
                assert(q@[klen as int] == '=');
                assert(false);
            }
        }
        assert(hit == is_prefix(kp, piece));
    }
    if hit {
        let v = q.substring_char(klen + 1, piece_end).to_owned();
        proof {
            assert(q@.subrange(klen + 1, piece_end as int) =~= piece.skip(klen + 1));
        }
        Some(v)
    } else {
        match found {
            None => None,
            Some(i) => {
                let rest = q.substring_char(i + 1, qlen);
                proof {
                    assert(rest@ =~= q@.skip(i + 1));
                }
                query_param(rest, key)
            },
        }
    }
}

/// Parse `s` as an unsigned 8-bit decimal integer.
pub fn parse_u8(s: &str) -> (r: Option<u8>)
    ensures
        r == parse_u8_spec(s@),
{
    let n = s.unicode_len();
    if n == 0 {
        return None;
    }
    let mut acc: u32 = 0;
    for i in 0..n
        invariant
            n == s@.len(),
            n >= 1,
            acc == digits_val(s@.take(i as int)),
            acc <= 255,
            forall|j: int| 0 <= j < i ==> is_digit(s@[j]),
    {
        let u = s.get_char(i) as u32;
        if u < 48 || u > 57 {
            assert(!is_digit(s@[i as int]));
            return None;
        }
        let d = u - 48;
        proof {
            assert(s@.take(i + 1).drop_last() =~= s@.take(i as int));
            assert(s@.take(i + 1).last() == s@[i as int]);
        }
        acc = acc * 10 + d;
        if acc > 255 {
            proof {
                if forall|j: int| 0 <= j < s@.len() ==> is_digit(s@[j]) {
                    lemma_digits_val_prefix(s@, i + 1);
                }
            }
            return None;
        }
    }
    proof {
        assert(s@.take(n as int) =~= s@);
    }
    Some(acc as u8)
}

} // verus!
