//! Byte-level text helpers: ASCII literals, decimal numerals, substring
//! search and whitespace trimming. Every command, payload and config file
//! this crate produces or reads is a sequence of bytes, so the spec-level
//! vocabulary lives here.

use vstd::prelude::*;

verus! {

use vstd::string::StrSliceExecFns;

/// The bytes of a string, each character narrowed to a byte. For the ASCII
/// literals this crate uses, this is exactly the UTF-8 encoding.
pub open spec fn lit_bytes(s: Seq<char>) -> Seq<u8> {
    Seq::new(s.len(), |i: int| s[i] as u8)
}

/// Appends `lit_bytes(s@)` to `out`.
pub fn push_text(out: &mut Vec<u8>, s: &str)
    ensures
        final(out)@ == old(out)@ + lit_bytes(s@),
{
    let n = s.unicode_len();
    let mut i: usize = 0;
    while i < n
        invariant
            i <= n,
            n == s@.len(),
            out@ == old(out)@ + lit_bytes(s@).subrange(0, i as int),
        decreases n - i,
    {
        let c = s.get_char(i);
        out.push(c as u8);
        i = i + 1;
        assert(out@ =~= old(out)@ + lit_bytes(s@).subrange(0, i as int));
    }
    assert(out@ =~= old(out)@ + lit_bytes(s@));
}

/// `lit_bytes(s@)` as a fresh vector.
pub fn text_bytes(s: &str) -> (r: Vec<u8>)
    ensures
        r@ == lit_bytes(s@),
{
    let mut out: Vec<u8> = Vec::new();
    push_text(&mut out, s);
    out
}

/// Appends a copy of `s` to `out`.
pub fn push_bytes(out: &mut Vec<u8>, s: &[u8])
    ensures
        final(out)@ == old(out)@ + s@,
{
    let n = s.len();
    let mut i: usize = 0;
    while i < n
        invariant
            i <= n,
            n == s@.len(),
            out@ == old(out)@ + s@.subrange(0, i as int),
        decreases n - i,
    {
        out.push(s[i]);
        i = i + 1;
        assert(out@ =~= old(out)@ + s@.subrange(0, i as int));
    }
    assert(out@ =~= old(out)@ + s@);
}

/// The bytes of `s` from `a` (inclusive) to `b` (exclusive) as a fresh vector.
pub fn bytes_range(s: &[u8], a: usize, b: usize) -> (r: Vec<u8>)
    requires
        a <= b <= s@.len(),
    ensures
        r@ == s@.subrange(a as int, b as int),
{
    let mut out: Vec<u8> = Vec::new();
    let mut i: usize = a;
    while i < b
        invariant
            a <= i <= b <= s@.len(),
            out@ == s@.subrange(a as int, i as int),
        decreases b - i,
    {
        out.push(s[i]);
        i = i + 1;
        assert(out@ =~= s@.subrange(a as int, i as int));
    }
    out
}

/// A decimal digit as its ASCII byte.
pub open spec fn digit_byte(d: nat) -> u8 {
    (48 + d) as u8
}

/// The ASCII decimal numeral of `n`, most significant digit first.
pub open spec fn dec_bytes(n: nat) -> Seq<u8>
    decreases n,
{
    if n < 10 {
        seq![digit_byte(n)]
    } else {
        dec_bytes(n / 10).push(digit_byte(n % 10))
    }
}

/// The ASCII numeral of a signed value: a leading `-` for negatives.
pub open spec fn int_bytes(n: int) -> Seq<u8> {
    if n < 0 {
        seq![45u8] + dec_bytes((-n) as nat)
    } else {
        dec_bytes(n as nat)
    }
}

/// Appends the decimal numeral of `n` to `out`.
pub fn push_decimal_u64(out: &mut Vec<u8>, n: u64)
    ensures
        final(out)@ == old(out)@ + dec_bytes(n as nat),
    decreases n,
{
    if n >= 10 {
        push_decimal_u64(out, n / 10);
    }
    out.push(48 + (n % 10) as u8);
}

/// The decimal numeral of `n` as a fresh vector.
pub fn decimal_u64(n: u64) -> (r: Vec<u8>)
    ensures
        r@ == dec_bytes(n as nat),
{
    let mut out: Vec<u8> = Vec::new();
    push_decimal_u64(&mut out, n);
    out
}

/// Appends the signed decimal numeral of `n` to `out`.
pub fn push_decimal_i64(out: &mut Vec<u8>, n: i64)
    requires
        n > i64::MIN,
    ensures
        final(out)@ == old(out)@ + int_bytes(n as int),
{
    if n < 0 {
        out.push(45);
        push_decimal_u64(out, (-n) as u64);
    } else {
        push_decimal_u64(out, n as u64);
    }
}

/// The needle `n` occurs in `h` starting at position `i`.
pub open spec fn matches_at(h: Seq<u8>, n: Seq<u8>, i: int) -> bool {
    &&& 0 <= i
    &&& i + n.len() <= h.len()
    &&& h.subrange(i, i + n.len() as int) == n
}

/// The position of the first occurrence of `n` in `h` at or after `i`,
/// if there is one.
pub open spec fn first_match_from(h: Seq<u8>, n: Seq<u8>, i: int) -> Option<int>
    decreases h.len() - i,
{
    if i < 0 || i + n.len() > h.len() {
        None
    } else if n.len() == 0 || matches_at(h, n, i) {
        Some(i)
    } else {
        first_match_from(h, n, i + 1)
    }
}

/// The needle occurs somewhere in the haystack.
pub open spec fn contains_bytes(h: Seq<u8>, n: Seq<u8>) -> bool {
    first_match_from(h, n, 0) is Some
}

/// `first_match_from` finds exactly the earliest occurrence.
pub proof fn lemma_first_match_from(h: Seq<u8>, n: Seq<u8>, i: int)
    requires
        0 <= i,
    ensures
        match first_match_from(h, n, i) {
            Some(j) => i <= j && matches_at(h, n, j) && forall|k: int|
                i <= k < j ==> !matches_at(h, n, k),
            None => forall|k: int| i <= k ==> !matches_at(h, n, k),
        },
    decreases h.len() - i,
{
    if i + n.len() > h.len() {
        assert forall|k: int| i <= k implies !matches_at(h, n, k) by {}
    } else if n.len() == 0 || matches_at(h, n, i) {
        if n.len() == 0 {
            assert(h.subrange(i, i) =~= n);
        }
    } else {
        lemma_first_match_from(h, n, i + 1);
    }
}

/// Compares `n` against the bytes of `h` starting at `i`.
pub fn bytes_eq_at(h: &[u8], n: &[u8], i: usize) -> (r: bool)
    requires
        i + n@.len() <= h@.len(),
    ensures
        r == matches_at(h@, n@, i as int),
{
    let m: usize = n.len();
    let hl: usize = h.len();
    let mut j: usize = 0;
    while j < m
        invariant
            j <= m,
            m == n@.len(),
            hl == h@.len(),
            i + m <= hl,
            forall|k: int| 0 <= k < j ==> h@[i + k] == n@[k],
        decreases m - j,
    {
        if h[i + j] != n[j] {
            assert(h@.subrange(i as int, i + n@.len() as int)[j as int] != n@[j as int]);
            return false;
        }
        j = j + 1;
    }
    assert(h@.subrange(i as int, i + n@.len() as int) =~= n@);
    true
}

/// Finds the first occurrence of `n` in `h`.
pub fn find_bytes(h: &[u8], n: &[u8]) -> (r: Option<usize>)
    ensures
        match r {
            Some(j) => first_match_from(h@, n@, 0) == Some(j as int),
            None => first_match_from(h@, n@, 0) is None,
        },
{
    if n.len() > h.len() {
        return None;
    }
    let bound: usize = h.len() - n.len();
    let mut i: usize = 0;
    while i < bound
        invariant
            n@.len() <= h@.len(),
            bound == h@.len() - n@.len(),
            i <= bound,
            first_match_from(h@, n@, 0) == first_match_from(h@, n@, i as int),
        decreases bound - i,
    {
        if bytes_eq_at(h, n, i) {
            return Some(i);
        }
        proof {
            if n@.len() == 0 {
                assert(h@.subrange(i as int, i as int) =~= n@);
            }
            assert(first_match_from(h@, n@, i as int) == first_match_from(h@, n@, i + 1));
        }
        i = i + 1;
    }
    if bytes_eq_at(h, n, bound) {
        return Some(bound);
    }
    proof {
        if n@.len() == 0 {
            assert(h@.subrange(bound as int, bound as int) =~= n@);
        }
        assert(first_match_from(h@, n@, bound + 1) is None);
        assert(first_match_from(h@, n@, bound as int) == first_match_from(h@, n@, bound + 1));
    }
    None
}

/// Whether `n` occurs in `h`.
pub fn contains_bytes_exec(h: &[u8], n: &[u8]) -> (r: bool)
    ensures
        r == contains_bytes(h@, n@),
{
    find_bytes(h, n).is_some()
}

/// ASCII whitespace: space, tab, line feed, carriage return.
pub open spec fn is_ws(b: u8) -> bool {
    b == 32 || b == 9 || b == 10 || b == 13
}

/// Whether `b` is ASCII whitespace.
pub fn is_ws_byte(b: u8) -> (r: bool)
    ensures
        r == is_ws(b),
{
    b == 32 || b == 9 || b == 10 || b == 13
}

/// The position of the first non-whitespace byte at or after `i`
/// (the length if there is none).
pub open spec fn skip_ws(s: Seq<u8>, i: int) -> int
    decreases s.len() - i,
{
    if 0 <= i < s.len() && is_ws(s[i]) {
        skip_ws(s, i + 1)
    } else {
        i
    }
}

/// One past the last non-whitespace byte (0 if the whole text is whitespace).
pub open spec fn trim_end_idx(s: Seq<u8>) -> int
    decreases s.len(),
{
    if s.len() == 0 {
        0
    } else if is_ws(s.last()) {
        trim_end_idx(s.drop_last())
    } else {
        s.len() as int
    }
}

/// `s` with leading and trailing ASCII whitespace removed.
pub open spec fn spec_trim(s: Seq<u8>) -> Seq<u8> {
    let a = skip_ws(s, 0);
    let b = trim_end_idx(s);
    if a <= b {
        s.subrange(a, b)
    } else {
        Seq::empty()
    }
}

/// The characterization of `skip_ws`: whitespace up to `a`, then either the
/// end or a non-whitespace byte.
pub proof fn lemma_skip_ws(s: Seq<u8>, i: int, a: int)
    requires
        0 <= i <= a <= s.len(),
        forall|j: int| i <= j < a ==> is_ws(s[j]),
        a == s.len() || !is_ws(s[a]),
    ensures
        skip_ws(s, i) == a,
    decreases a - i,
{
    if i < a {
        lemma_skip_ws(s, i + 1, a);
    }
}

/// The characterization of `trim_end_idx`: whitespace from `b` on, and either
/// `b == 0` or a non-whitespace byte just before it.
pub proof fn lemma_trim_end_idx(s: Seq<u8>, b: int)
    requires
        0 <= b <= s.len(),
        forall|j: int| b <= j < s.len() ==> is_ws(s[j]),
        b == 0 || !is_ws(s[b - 1]),
    ensures
        trim_end_idx(s) == b,
    decreases s.len(),
{
    if s.len() > 0 {
        if b < s.len() {
            assert(is_ws(s.last()));
            assert(forall|j: int| b <= j < s.drop_last().len() ==> s.drop_last()[j] == s[j]);
            lemma_trim_end_idx(s.drop_last(), b);
        }
    }
}

/// A copy of `s` with leading and trailing ASCII whitespace removed.
pub fn trim_bytes(s: &[u8]) -> (r: Vec<u8>)
    ensures
        r@ == spec_trim(s@),
{
    let mut a: usize = 0;
    while a < s.len() && is_ws_byte(s[a])
        invariant
            a <= s@.len(),
            forall|j: int| 0 <= j < a ==> is_ws(s@[j]),
        decreases s@.len() - a,
    {
        a = a + 1;
    }
    proof {
        lemma_skip_ws(s@, 0, a as int);
    }
    let mut b: usize = s.len();
    while b > a && is_ws_byte(s[b - 1])
        invariant
            a <= b <= s@.len(),
            forall|j: int| b <= j < s@.len() ==> is_ws(s@[j]),
        decreases b,
    {
        b = b - 1;
    }
    let mut out: Vec<u8> = Vec::new();
    if a == b {
        proof {
            lemma_trim_end_idx(s@, 0);
            assert(spec_trim(s@) =~= Seq::<u8>::empty());
        }
        return out;
    }
    proof {
        lemma_trim_end_idx(s@, b as int);
        assert(out@ =~= s@.subrange(a as int, a as int));
    }
    let mut i: usize = a;
    while i < b
        invariant
            a <= i <= b <= s@.len(),
            out@ == s@.subrange(a as int, i as int),
        decreases b - i,
    {
        out.push(s[i]);
        assert(out@ =~= s@.subrange(a as int, i + 1));
        i = i + 1;
    }
    proof {
        assert(out@ =~= spec_trim(s@));
    }
    out
}

} // verus!
