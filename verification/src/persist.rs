//! The JSON text a window geometry is saved as, and the parser that restores
//! it. The writer emits one object with the fields `x`, `y`, `width`,
//! `height` in that order; the parser accepts the same shape with any ASCII
//! whitespace between the tokens, and rejects everything else, leading zeros
//! and out-of-range values included.

use vstd::prelude::*;

verus! {

use crate::geometry::WindowGeometry;
use crate::text::{
    lit_bytes, dec_bytes, digit_byte, int_bytes, is_ws, skip_ws, matches_at, push_text,
    push_decimal_u64, push_decimal_i64, text_bytes, is_ws_byte, lemma_skip_ws,
};

/// The saved form of `g`: `{"x":X,"y":Y,"width":W,"height":H}`.
pub open spec fn spec_geometry_json(g: WindowGeometry) -> Seq<u8> {
    lit_bytes("{\"x\":"@) + int_bytes(g.x as int) + lit_bytes(",\"y\":"@) + int_bytes(g.y as int)
        + lit_bytes(",\"width\":"@) + dec_bytes(g.width as nat) + lit_bytes(",\"height\":"@)
        + dec_bytes(g.height as nat) + lit_bytes("}"@)
}

/// Renders `g` as the JSON text it is saved as.
pub fn geometry_json(g: &WindowGeometry) -> (r: Vec<u8>)
    ensures
        r@ == spec_geometry_json(*g),
{
    let mut out: Vec<u8> = Vec::new();
    push_text(&mut out, "{\"x\":");
    push_decimal_i64(&mut out, g.x as i64);
    push_text(&mut out, ",\"y\":");
    push_decimal_i64(&mut out, g.y as i64);
    push_text(&mut out, ",\"width\":");
    push_decimal_u64(&mut out, g.width as u64);
    push_text(&mut out, ",\"height\":");
    push_decimal_u64(&mut out, g.height as u64);
    push_text(&mut out, "}");
    assert(out@ =~= spec_geometry_json(*g));
    out
}

/// An ASCII decimal digit.
pub open spec fn is_digit(b: u8) -> bool {
    48 <= b <= 57
}

/// Whether `b` is an ASCII decimal digit.
pub fn is_digit_byte(b: u8) -> (r: bool)
    ensures
        r == is_digit(b),
{
    48 <= b && b <= 57
}

/// The position of the first non-digit byte at or after `i`.
pub open spec fn digit_end(s: Seq<u8>, i: int) -> int
    decreases s.len() - i,
{
    if 0 <= i < s.len() && is_digit(s[i]) {
        digit_end(s, i + 1)
    } else {
        i
    }
}

/// The characterization of `digit_end`: digits up to `e`, then either the end
/// or a non-digit byte.
pub proof fn lemma_digit_end(s: Seq<u8>, i: int, e: int)
    requires
        0 <= i <= e <= s.len(),
        forall|j: int| i <= j < e ==> is_digit(s[j]),
        e == s.len() || !is_digit(s[e]),
    ensures
        digit_end(s, i) == e,
    decreases e - i,
{
    if i < e {
        lemma_digit_end(s, i + 1, e);
    }
}

/// The value of a digit run, most significant digit first.
pub open spec fn digits_val(s: Seq<u8>) -> int
    decreases s.len(),
{
    if s.len() == 0 {
        0
    } else {
        digits_val(s.drop_last()) * 10 + (s.last() - 48)
    }
}

/// Ten to the `n`.
pub open spec fn pow10(n: nat) -> int
    decreases n,
{
    if n == 0 {
        1
    } else {
        10 * pow10((n - 1) as nat)
    }
}

/// A digit run's value is nonnegative and below ten to its length.
pub proof fn lemma_digits_val_bounds(s: Seq<u8>)
    requires
        forall|j: int| 0 <= j < s.len() ==> is_digit(s[j]),
    ensures
        0 <= digits_val(s) < pow10(s.len()),
    decreases s.len(),
{
    if s.len() > 0 {
        assert(forall|j: int|
            0 <= j < s.drop_last().len() ==> is_digit(#[trigger] s.drop_last()[j]));
        lemma_digits_val_bounds(s.drop_last());
        assert(is_digit(s.last()));
    }
}

/// A digit run that does not start with zero is at least ten to one less
/// than its length.
pub proof fn lemma_digits_val_min(s: Seq<u8>)
    requires
        s.len() >= 1,
        forall|j: int| 0 <= j < s.len() ==> is_digit(s[j]),
        s[0] != 48,
    ensures
        digits_val(s) >= pow10((s.len() - 1) as nat),
    decreases s.len(),
{
    if s.len() == 1 {
        assert(is_digit(s[0]));
    } else {
        assert(forall|j: int|
            0 <= j < s.drop_last().len() ==> is_digit(#[trigger] s.drop_last()[j]));
        assert(s.drop_last()[0] == s[0]);
        lemma_digits_val_min(s.drop_last());
        assert(digits_val(s.drop_last()) >= pow10((s.len() - 2) as nat));
        assert(pow10((s.len() - 1) as nat) == 10 * pow10((s.len() - 2) as nat));
        assert(digits_val(s) == digits_val(s.drop_last()) * 10 + (s.last() - 48));
        assert(is_digit(s.last()));
    }
}

/// `pow10` does not decrease.
pub proof fn lemma_pow10_mono(a: nat, b: nat)
    requires
        a <= b,
    ensures
        pow10(a) <= pow10(b),
    decreases b,
{
    if a < b {
        lemma_pow10_mono(a, (b - 1) as nat);
        assert(pow10((b - 1) as nat) >= 1) by {
            lemma_pow10_mono(0, (b - 1) as nat);
        }
    }
}

/// Parses the digit run beginning exactly at `j`: its value and the position
/// after it. There must be at least one digit, and a run of several digits
/// may not start with zero.
pub open spec fn parse_digits(s: Seq<u8>, j: int) -> Option<(int, int)> {
    let e = digit_end(s, j);
    if e == j {
        None
    } else if s[j] == 48 && e > j + 1 {
        None
    } else {
        Some((digits_val(s.subrange(j, e)), e))
    }
}

/// Parses an optionally signed integer after whitespace: its value and the
/// position after its digits.
pub open spec fn parse_int_at(s: Seq<u8>, i: int) -> Option<(int, int)> {
    let j = skip_ws(s, i);
    if j < s.len() && s[j] == 45 {
        match parse_digits(s, j + 1) {
            Some((v, e)) => Some((-v, e)),
            None => None,
        }
    } else {
        parse_digits(s, j)
    }
}

/// The position after `tok` where `tok` stands right after the whitespace
/// following `i`.
pub open spec fn expect_at(s: Seq<u8>, i: int, tok: Seq<u8>) -> Option<int> {
    let j = skip_ws(s, i);
    if matches_at(s, tok, j) {
        Some(j + tok.len())
    } else {
        None
    }
}

/// One `"key": value` pair: the value and the position after its digits.
pub open spec fn field_value(s: Seq<u8>, i: int, key: Seq<u8>) -> Option<(int, int)> {
    match expect_at(s, i, key) {
        Some(i1) => match expect_at(s, i1, lit_bytes(":"@)) {
            Some(i2) => parse_int_at(s, i2),
            None => None,
        },
        None => None,
    }
}

/// The geometry a saved text denotes, if it is well-formed and every field
/// fits its type.
pub open spec fn spec_parse_geometry(s: Seq<u8>) -> Option<WindowGeometry> {
    match expect_at(s, 0, lit_bytes("{"@)) {
        Some(i0) => match field_value(s, i0, lit_bytes("\"x\""@)) {
            Some((x, i1)) => match expect_at(s, i1, lit_bytes(","@)) {
                Some(j1) => match field_value(s, j1, lit_bytes("\"y\""@)) {
                    Some((y, i2)) => match expect_at(s, i2, lit_bytes(","@)) {
                        Some(j2) => match field_value(s, j2, lit_bytes("\"width\""@)) {
                            Some((w, i3)) => match expect_at(s, i3, lit_bytes(","@)) {
                                Some(j3) => match field_value(s, j3, lit_bytes("\"height\""@)) {
                                    Some((h, i4)) => match expect_at(s, i4, lit_bytes("}"@)) {
                                        Some(i5) => if skip_ws(s, i5) == s.len() && i32::MIN <= x
                                            <= i32::MAX && i32::MIN <= y <= i32::MAX && 0 <= w
                                            <= u32::MAX && 0 <= h <= u32::MAX {
                                            Some(
                                                WindowGeometry {
                                                    x: x as i32,
                                                    y: y as i32,
                                                    width: w as u32,
                                                    height: h as u32,
                                                },
                                            )
                                        } else {
                                            None
                                        },
                                        None => None,
                                    },
                                    None => None,
                                },
                                None => None,
                            },
                            None => None,
                        },
                        None => None,
                    },
                    None => None,
                },
                None => None,
            },
            None => None,
        },
        None => None,
    }
}

/// A decimal numeral is at least one byte of digits, carries the rendered
/// value, and starts with zero only for the value zero.
pub proof fn lemma_dec_bytes(n: nat)
    ensures
        dec_bytes(n).len() >= 1,
        forall|j: int| 0 <= j < dec_bytes(n).len() ==> is_digit(#[trigger] dec_bytes(n)[j]),
        digits_val(dec_bytes(n)) == n,
        n > 0 ==> dec_bytes(n)[0] != 48,
    decreases n,
{
    if n < 10 {
        assert(dec_bytes(n) =~= seq![digit_byte(n)]);
        assert(dec_bytes(n).drop_last() =~= Seq::<u8>::empty());
        assert(digits_val(Seq::<u8>::empty()) == 0);
        assert(dec_bytes(n).last() == digit_byte(n));
        assert(digits_val(dec_bytes(n)) == digits_val(dec_bytes(n).drop_last()) * 10 + (
        dec_bytes(n).last() - 48));
        assert(digits_val(dec_bytes(n)) == digit_byte(n) - 48);
    } else {
        lemma_dec_bytes(n / 10);
        let head = dec_bytes(n / 10);
        assert(dec_bytes(n) == head.push(digit_byte(n % 10)));
        assert(dec_bytes(n).drop_last() =~= head);
        assert(dec_bytes(n).last() == digit_byte(n % 10));
        assert(digits_val(dec_bytes(n)) == digits_val(head) * 10 + (digit_byte(n % 10) - 48));
        assert(digits_val(dec_bytes(n)) == (n / 10) * 10 + n % 10);
        assert(dec_bytes(n)[0] == head[0]);
        assert forall|j: int| 0 <= j < dec_bytes(n).len() implies is_digit(
            #[trigger] dec_bytes(n)[j],
        ) by {
            if j < head.len() {
                assert(dec_bytes(n)[j] == head[j]);
            }
        }
    }
}

/// Parsing right at a rendered numeral yields the rendered value and stops
/// after its digits, provided no digit follows it.
pub proof fn lemma_parse_int_rendered(s: Seq<u8>, i: int, v: int)
    requires
        0 <= i,
        matches_at(s, int_bytes(v), i),
        i + int_bytes(v).len() == s.len() || !is_digit(s[i + int_bytes(v).len()]),
    ensures
        parse_int_at(s, i) == Some((v, i + int_bytes(v).len())),
{
    let e = i + int_bytes(v).len();
    assert(s.subrange(i, e) == int_bytes(v));
    if v >= 0 {
        lemma_dec_bytes(v as nat);
        assert(int_bytes(v) == dec_bytes(v as nat));
        assert forall|k: int| i <= k < e implies is_digit(s[k]) by {
            assert(s[k] == s.subrange(i, e)[k - i]);
        }
        assert(is_digit(s[i]));
        assert(!is_ws(s[i]));
        assert(skip_ws(s, i) == i);
        assert(s[i] != 45);
        lemma_digit_end(s, i, e);
        if s[i] == 48 {
            assert(int_bytes(v)[0] == 48);
            assert(v == 0);
            assert(e == i + 1);
        }
        assert(digits_val(s.subrange(i, e)) == v);
    } else {
        lemma_dec_bytes((-v) as nat);
        let digits = dec_bytes((-v) as nat);
        assert(int_bytes(v) == seq![45u8] + digits);
        assert(s[i] == s.subrange(i, e)[0]);
        assert(s[i] == 45);
        assert(!is_ws(s[i]));
        assert(skip_ws(s, i) == i);
        assert(i < s.len());
        assert(s.subrange(i + 1, e) =~= digits) by {
            assert forall|k: int| 0 <= k < e - i - 1 implies s.subrange(i + 1, e)[k]
                == digits[k] by {
                assert(s.subrange(i + 1, e)[k] == s[i + 1 + k]);
                assert(s[i + 1 + k] == s.subrange(i, e)[k + 1]);
                assert(s.subrange(i, e)[k + 1] == (seq![45u8] + digits)[k + 1]);
            }
        }
        assert forall|k: int| i + 1 <= k < e implies is_digit(s[k]) by {
            assert(s[k] == s.subrange(i + 1, e)[k - i - 1]);
        }
        lemma_digit_end(s, i + 1, e);
        assert(s[i + 1] == s.subrange(i + 1, e)[0]);
        assert(s[i + 1] != 48);
        assert(digits_val(s.subrange(i + 1, e)) == -v);
        assert(parse_digits(s, i + 1) == Some((-v, e)));
    }
}

/// A token standing right at `i` (with no whitespace before it) is found
/// there.
pub proof fn lemma_expect_exact(s: Seq<u8>, i: int, tok: Seq<u8>)
    requires
        0 <= i,
        matches_at(s, tok, i),
        tok.len() > 0,
        !is_ws(s[i]),
    ensures
        expect_at(s, i, tok) == Some(i + tok.len()),
{
    assert(skip_ws(s, i) == i);
}

/// A rendered `"key":value` pair beginning right at `i` parses to the
/// rendered value.
pub proof fn lemma_field_rendered(s: Seq<u8>, i: int, key: Seq<u8>, v: int)
    requires
        0 <= i,
        key.len() > 0,
        !is_ws(s[i]),
        matches_at(s, key, i),
        i + key.len() < s.len(),
        s[i + key.len()] == 58,
        matches_at(s, int_bytes(v), i + key.len() + 1),
        i + key.len() + 1 + int_bytes(v).len() == s.len() || !is_digit(
            s[i + key.len() + 1 + int_bytes(v).len()],
        ),
    ensures
        field_value(s, i, key) == Some((v, i + key.len() + 1 + int_bytes(v).len())),
{
    lemma_expect_exact(s, i, key);
    let c = i + key.len();
    reveal_strlit(":");
    assert(lit_bytes(":"@).len() == 1);
    assert(lit_bytes(":"@)[0] == 58);
    assert(s.subrange(c, c + 1) =~= lit_bytes(":"@));
    assert(matches_at(s, lit_bytes(":"@), c));
    assert(!is_ws(s[c]));
    lemma_expect_exact(s, c, lit_bytes(":"@));
    lemma_parse_int_rendered(s, c + 1, v);
}

/// Where each token and numeral of the rendered text stands.
#[verifier::rlimit(100)]
#[verifier::spinoff_prover]
proof fn lemma_geometry_json_layout(g: WindowGeometry)
    ensures
        ({
            let s = spec_geometry_json(g);
            let n1 = int_bytes(g.x as int);
            let n2 = int_bytes(g.y as int);
            let n3 = dec_bytes(g.width as nat);
            let n4 = dec_bytes(g.height as nat);
            let b1 = 5 + n1.len() as int;
            let b2 = b1 + 5 + n2.len() as int;
            let b3 = b2 + 9 + n3.len() as int;
            let b4 = b3 + 10 + n4.len() as int;
            &&& s.len() == b4 + 1
            &&& s.subrange(0, 5) == lit_bytes("{\"x\":"@)
            &&& s.subrange(5, b1) == n1
            &&& s.subrange(b1, b1 + 5) == lit_bytes(",\"y\":"@)
            &&& s.subrange(b1 + 5, b2) == n2
            &&& s.subrange(b2, b2 + 9) == lit_bytes(",\"width\":"@)
            &&& s.subrange(b2 + 9, b3) == n3
            &&& s.subrange(b3, b3 + 10) == lit_bytes(",\"height\":"@)
            &&& s.subrange(b3 + 10, b4) == n4
            &&& s.subrange(b4, b4 + 1) == lit_bytes("}"@)
        }),
{
    let s = spec_geometry_json(g);
    let t1 = lit_bytes("{\"x\":"@);
    let n1 = int_bytes(g.x as int);
    let t2 = lit_bytes(",\"y\":"@);
    let n2 = int_bytes(g.y as int);
    let t3 = lit_bytes(",\"width\":"@);
    let n3 = dec_bytes(g.width as nat);
    let t4 = lit_bytes(",\"height\":"@);
    let n4 = dec_bytes(g.height as nat);
    let t5 = lit_bytes("}"@);
    reveal_strlit("{\"x\":");
    reveal_strlit(",\"y\":");
    reveal_strlit(",\"width\":");
    reveal_strlit(",\"height\":");
    reveal_strlit("}");
    assert(t1.len() == 5 && t2.len() == 5 && t3.len() == 9 && t4.len() == 10 && t5.len() == 1);
    let b1 = 5 + n1.len() as int;
    let b2 = b1 + 5 + n2.len() as int;
    let b3 = b2 + 9 + n3.len() as int;
    let b4 = b3 + 10 + n4.len() as int;
    assert(s == t1 + n1 + t2 + n2 + t3 + n3 + t4 + n4 + t5);
    assert(s.subrange(0, 5) =~= t1);
    assert(s.subrange(5, b1) =~= n1);
    assert(s.subrange(b1, b1 + 5) =~= t2);
    assert(s.subrange(b1 + 5, b2) =~= n2);
    assert(s.subrange(b2, b2 + 9) =~= t3);
    assert(s.subrange(b2 + 9, b3) =~= n3);
    assert(s.subrange(b3, b3 + 10) =~= t4);
    assert(s.subrange(b3 + 10, b4) =~= n4);
    assert(s.subrange(b4, b4 + 1) =~= t5);
}

/// What is saved is restored: parsing the rendered text of any geometry
/// gives that geometry back.
#[verifier::rlimit(100)]
#[verifier::spinoff_prover]
pub proof fn lemma_geometry_round_trip(g: WindowGeometry)
    ensures
        spec_parse_geometry(spec_geometry_json(g)) == Some(g),
{
    lemma_geometry_json_layout(g);
    lemma_parse_of_layout(spec_geometry_json(g), g);
}

/// A text laid out as the renderer lays one out parses to the rendered
/// geometry.
#[verifier::rlimit(100)]
#[verifier::spinoff_prover]
proof fn lemma_parse_of_layout(s: Seq<u8>, g: WindowGeometry)
    requires
        ({
            let n1 = int_bytes(g.x as int);
            let n2 = int_bytes(g.y as int);
            let n3 = dec_bytes(g.width as nat);
            let n4 = dec_bytes(g.height as nat);
            let b1 = 5 + n1.len() as int;
            let b2 = b1 + 5 + n2.len() as int;
            let b3 = b2 + 9 + n3.len() as int;
            let b4 = b3 + 10 + n4.len() as int;
            &&& s.len() == b4 + 1
            &&& s.subrange(0, 5) == lit_bytes("{\"x\":"@)
            &&& s.subrange(5, b1) == n1
            &&& s.subrange(b1, b1 + 5) == lit_bytes(",\"y\":"@)
            &&& s.subrange(b1 + 5, b2) == n2
            &&& s.subrange(b2, b2 + 9) == lit_bytes(",\"width\":"@)
            &&& s.subrange(b2 + 9, b3) == n3
            &&& s.subrange(b3, b3 + 10) == lit_bytes(",\"height\":"@)
            &&& s.subrange(b3 + 10, b4) == n4
            &&& s.subrange(b4, b4 + 1) == lit_bytes("}"@)
        }),
    ensures
        spec_parse_geometry(s) == Some(g),
{
    reveal_strlit("{\"x\":");
    reveal_strlit(",\"y\":");
    reveal_strlit(",\"width\":");
    reveal_strlit(",\"height\":");
    reveal_strlit("}");
    reveal_strlit("{");
    reveal_strlit("\"x\"");
    reveal_strlit("\"y\"");
    reveal_strlit("\"width\"");
    reveal_strlit("\"height\"");
    reveal_strlit(",");
    let t1 = lit_bytes("{\"x\":"@);
    let n1 = int_bytes(g.x as int);
    let t2 = lit_bytes(",\"y\":"@);
    let n2 = int_bytes(g.y as int);
    let t3 = lit_bytes(",\"width\":"@);
    let n3 = dec_bytes(g.width as nat);
    let t4 = lit_bytes(",\"height\":"@);
    let n4 = dec_bytes(g.height as nat);
    let t5 = lit_bytes("}"@);
    let b1 = 5 + n1.len() as int;
    let b2 = b1 + 5 + n2.len() as int;
    let b3 = b2 + 9 + n3.len() as int;
    let b4 = b3 + 10 + n4.len() as int;
    assert(s[0] == t1[0]) by {
        assert(s.subrange(0, 5)[0] == t1[0]);
    }
    assert(s[1] == t1[1]) by {
        assert(s.subrange(0, 5)[1] == t1[1]);
    }
    assert(s[2] == t1[2]) by {
        assert(s.subrange(0, 5)[2] == t1[2]);
    }
    assert(s[3] == t1[3]) by {
        assert(s.subrange(0, 5)[3] == t1[3]);
    }
    assert(s[4] == t1[4]) by {
        assert(s.subrange(0, 5)[4] == t1[4]);
    }
    assert(s[b1] == t2[0]) by {
        assert(s.subrange(b1, b1 + 5)[0] == t2[0]);
    }
    assert(s[b1 + 1] == t2[1]) by {
        assert(s.subrange(b1, b1 + 5)[1] == t2[1]);
    }
    assert(s[b1 + 2] == t2[2]) by {
        assert(s.subrange(b1, b1 + 5)[2] == t2[2]);
    }
    assert(s[b1 + 3] == t2[3]) by {
        assert(s.subrange(b1, b1 + 5)[3] == t2[3]);
    }
    assert(s[b1 + 4] == t2[4]) by {
        assert(s.subrange(b1, b1 + 5)[4] == t2[4]);
    }
    assert(s[b2] == t3[0]) by {
        assert(s.subrange(b2, b2 + 9)[0] == t3[0]);
    }
    assert(s[b2 + 1] == t3[1]) by {
        assert(s.subrange(b2, b2 + 9)[1] == t3[1]);
    }
    assert(s[b2 + 2] == t3[2]) by {
        assert(s.subrange(b2, b2 + 9)[2] == t3[2]);
    }
    assert(s[b2 + 3] == t3[3]) by {
        assert(s.subrange(b2, b2 + 9)[3] == t3[3]);
    }
    assert(s[b2 + 4] == t3[4]) by {
        assert(s.subrange(b2, b2 + 9)[4] == t3[4]);
    }
    assert(s[b2 + 5] == t3[5]) by {
        assert(s.subrange(b2, b2 + 9)[5] == t3[5]);
    }
    assert(s[b2 + 6] == t3[6]) by {
        assert(s.subrange(b2, b2 + 9)[6] == t3[6]);
    }
    assert(s[b2 + 7] == t3[7]) by {
        assert(s.subrange(b2, b2 + 9)[7] == t3[7]);
    }
    assert(s[b2 + 8] == t3[8]) by {
        assert(s.subrange(b2, b2 + 9)[8] == t3[8]);
    }
    assert(s[b3] == t4[0]) by {
        assert(s.subrange(b3, b3 + 10)[0] == t4[0]);
    }
    assert(s[b3 + 1] == t4[1]) by {
        assert(s.subrange(b3, b3 + 10)[1] == t4[1]);
    }
    assert(s[b3 + 2] == t4[2]) by {
        assert(s.subrange(b3, b3 + 10)[2] == t4[2]);
    }
    assert(s[b3 + 3] == t4[3]) by {
        assert(s.subrange(b3, b3 + 10)[3] == t4[3]);
    }
    assert(s[b3 + 4] == t4[4]) by {
        assert(s.subrange(b3, b3 + 10)[4] == t4[4]);
    }
    assert(s[b3 + 5] == t4[5]) by {
        assert(s.subrange(b3, b3 + 10)[5] == t4[5]);
    }
    assert(s[b3 + 6] == t4[6]) by {
        assert(s.subrange(b3, b3 + 10)[6] == t4[6]);
    }
    assert(s[b3 + 7] == t4[7]) by {
        assert(s.subrange(b3, b3 + 10)[7] == t4[7]);
    }
    assert(s[b3 + 8] == t4[8]) by {
        assert(s.subrange(b3, b3 + 10)[8] == t4[8]);
    }
    assert(s[b3 + 9] == t4[9]) by {
        assert(s.subrange(b3, b3 + 10)[9] == t4[9]);
    }
    assert(s[b4] == t5[0]) by {
        assert(s.subrange(b4, b4 + 1)[0] == t5[0]);
    }
    // the opening brace
    assert(s[0] == 123);
    assert(s.subrange(0, 1) =~= lit_bytes("{"@));
    lemma_expect_exact(s, 0, lit_bytes("{"@));
    // the x field
    assert(s.subrange(1, 4) =~= lit_bytes("\"x\""@));
    assert(!is_ws(s[1]));
    assert(s[4] == 58);
    assert(s[b1] == 44 && !is_digit(s[b1]));
    assert(matches_at(s, n1, 5));
    lemma_field_rendered(s, 1, lit_bytes("\"x\""@), g.x as int);
    // the comma and the y field
    assert(s.subrange(b1, b1 + 1) =~= lit_bytes(","@));
    lemma_expect_exact(s, b1, lit_bytes(","@));
    assert(s.subrange(b1 + 1, b1 + 4) =~= lit_bytes("\"y\""@));
    assert(!is_ws(s[b1 + 1]));
    assert(s[b1 + 4] == 58);
    assert(s[b2] == 44 && !is_digit(s[b2]));
    assert(matches_at(s, n2, b1 + 5));
    lemma_field_rendered(s, b1 + 1, lit_bytes("\"y\""@), g.y as int);
    // the comma and the width field
    assert(s.subrange(b2, b2 + 1) =~= lit_bytes(","@));
    lemma_expect_exact(s, b2, lit_bytes(","@));
    assert(s.subrange(b2 + 1, b2 + 8) =~= lit_bytes("\"width\""@));
    assert(!is_ws(s[b2 + 1]));
    assert(s[b2 + 8] == 58);
    assert(int_bytes(g.width as int) == n3);
    assert(s[b3] == 44 && !is_digit(s[b3]));
    assert(matches_at(s, n3, b2 + 9));
    lemma_field_rendered(s, b2 + 1, lit_bytes("\"width\""@), g.width as int);
    // the comma and the height field
    assert(s.subrange(b3, b3 + 1) =~= lit_bytes(","@));
    lemma_expect_exact(s, b3, lit_bytes(","@));
    assert(s.subrange(b3 + 1, b3 + 9) =~= lit_bytes("\"height\""@));
    assert(!is_ws(s[b3 + 1]));
    assert(s[b3 + 9] == 58);
    assert(int_bytes(g.height as int) == n4);
    assert(s[b4] == 125 && !is_digit(s[b4]));
    assert(matches_at(s, n4, b3 + 10));
    lemma_field_rendered(s, b3 + 1, lit_bytes("\"height\""@), g.height as int);
    // the closing brace and the end of the text
    assert(s.subrange(b4, b4 + 1) =~= lit_bytes("}"@));
    lemma_expect_exact(s, b4, lit_bytes("}"@));
    assert(skip_ws(s, b4 + 1) == s.len());
    assert(spec_parse_geometry(s) == Some(g));
}

/// Skips ASCII whitespace from `i` on.
fn skip_ws_exec(s: &[u8], i: usize) -> (r: usize)
    requires
        i <= s@.len(),
    ensures
        r as int == skip_ws(s@, i as int),
        i <= r <= s@.len(),
{
    let n = s.len();
    let mut r: usize = i;
    while r < n && is_ws_byte(s[r])
        invariant
            i <= r <= n,
            n == s@.len(),
            forall|j: int| i <= j < r ==> is_ws(s@[j]),
        decreases n - r,
    {
        r = r + 1;
    }
    proof {
        lemma_skip_ws(s@, i as int, r as int);
    }
    r
}

/// Looks for `tok` right after the whitespace following `i`.
fn expect_at_exec(s: &[u8], i: usize, tok: &[u8]) -> (r: Option<usize>)
    requires
        i <= s@.len(),
    ensures
        match r {
            Some(p) => expect_at(s@, i as int, tok@) == Some(p as int) && i <= p <= s@.len(),
            None => expect_at(s@, i as int, tok@) is None,
        },
{
    let j = skip_ws_exec(s, i);
    if s.len() - j >= tok.len() {
        if crate::text::bytes_eq_at(s, tok, j) {
            Some(j + tok.len())
        } else {
            None
        }
    } else {
        None
    }
}

/// Reads the digit run beginning exactly at `j`. `None` also stands for a
/// value too large for any geometry field; the caller's range checks reject
/// those the same way.
fn parse_digits_exec(s: &[u8], j: usize) -> (r: Option<(u64, usize)>)
    requires
        j <= s@.len(),
    ensures
        match r {
            Some((v, e)) => parse_digits(s@, j as int) == Some((v as int, e as int)) && j < e
                <= s@.len() && v <= 9999999999,
            None => match parse_digits(s@, j as int) {
                Some(p) => p.0 > 4294967295,
                None => true,
            },
        },
{
    let n = s.len();
    let mut e: usize = j;
    while e < n && is_digit_byte(s[e])
        invariant
            j <= e <= n,
            n == s@.len(),
            forall|k: int| j <= k < e ==> is_digit(s@[k]),
        decreases n - e,
    {
        e = e + 1;
    }
    proof {
        lemma_digit_end(s@, j as int, e as int);
    }
    if e == j {
        return None;
    }
    if s[j] == 48 && e > j + 1 {
        return None;
    }
    proof {
        assert(forall|k: int|
            0 <= k < s@.subrange(j as int, e as int).len() ==> is_digit(
                #[trigger] s@.subrange(j as int, e as int)[k],
            ));
        lemma_digits_val_bounds(s@.subrange(j as int, e as int));
    }
    if e - j > 10 {
        proof {
            let run = s@.subrange(j as int, e as int);
            assert(run[0] == s@[j as int]);
            lemma_digits_val_min(run);
            lemma_pow10_mono(10, (run.len() - 1) as nat);
            assert(pow10(10) == 10000000000) by {
                reveal_with_fuel(pow10, 11);
            }
        }
        return None;
    }
    let mut v: u64 = 0;
    let mut k: usize = j;
    while k < e
        invariant
            j <= k <= e <= n,
            n == s@.len(),
            e as int == digit_end(s@, j as int),
            forall|t: int| j <= t < e ==> is_digit(s@[t]),
            e - j <= 10,
            v as int == digits_val(s@.subrange(j as int, k as int)),
            (v as int) < pow10((k - j) as nat),
        decreases e - k,
    {
        proof {
            assert(s@.subrange(j as int, k + 1).drop_last() =~= s@.subrange(j as int, k as int));
            assert(s@.subrange(j as int, k + 1).last() == s@[k as int]);
            lemma_pow10_mono((k - j + 1) as nat, 10);
            assert(pow10(10) == 10000000000) by {
                reveal_with_fuel(pow10, 11);
            }
        }
        v = v * 10 + (s[k] - 48) as u64;
        k = k + 1;
    }
    proof {
        lemma_pow10_mono((e - j) as nat, 10);
        assert(pow10(10) == 10000000000) by {
            reveal_with_fuel(pow10, 11);
        }
    }
    Some((v, e))
}

/// Reads an optionally signed integer after whitespace. `None` also stands
/// for a value out of every field's range.
fn parse_int_exec(s: &[u8], i: usize) -> (r: Option<(i64, usize)>)
    requires
        i <= s@.len(),
    ensures
        match r {
            Some((v, e)) => parse_int_at(s@, i as int) == Some((v as int, e as int)) && i <= e
                <= s@.len(),
            None => match parse_int_at(s@, i as int) {
                Some(p) => p.0 > 4294967295 || p.0 < -4294967295,
                None => true,
            },
        },
{
    let j = skip_ws_exec(s, i);
    if j < s.len() && s[j] == 45 {
        match parse_digits_exec(s, j + 1) {
            Some((v, e)) => Some((-(v as i64), e)),
            None => None,
        }
    } else {
        match parse_digits_exec(s, j) {
            Some((v, e)) => Some((v as i64, e)),
            None => None,
        }
    }
}

/// Reads one `"key": value` pair.
fn field_value_exec(s: &[u8], i: usize, key: &[u8]) -> (r: Option<(i64, usize)>)
    requires
        i <= s@.len(),
    ensures
        match r {
            Some((v, e)) => field_value(s@, i as int, key@) == Some((v as int, e as int)) && i <= e
                <= s@.len(),
            None => match field_value(s@, i as int, key@) {
                Some(p) => p.0 > 4294967295 || p.0 < -4294967295,
                None => true,
            },
        },
{
    let i1 = match expect_at_exec(s, i, key) {
        Some(p) => p,
        None => {
            return None;
        },
    };
    let colon = text_bytes(":");
    let i2 = match expect_at_exec(s, i1, colon.as_slice()) {
        Some(p) => p,
        None => {
            return None;
        },
    };
    parse_int_exec(s, i2)
}

/// Restores a geometry from its saved text: `Some` exactly on the texts the
/// grammar accepts with every field in range.
pub fn parse_geometry(s: &[u8]) -> (r: Option<WindowGeometry>)
    ensures
        r == spec_parse_geometry(s@),
{
    let open = text_bytes("{");
    let i0 = match expect_at_exec(s, 0, open.as_slice()) {
        Some(p) => p,
        None => {
            return None;
        },
    };
    let key_x = text_bytes("\"x\"");
    let (x, i1) = match field_value_exec(s, i0, key_x.as_slice()) {
        Some(p) => p,
        None => {
            return None;
        },
    };
    let comma = text_bytes(",");
    let j1 = match expect_at_exec(s, i1, comma.as_slice()) {
        Some(p) => p,
        None => {
            return None;
        },
    };
    let key_y = text_bytes("\"y\"");
    let (y, i2) = match field_value_exec(s, j1, key_y.as_slice()) {
        Some(p) => p,
        None => {
            return None;
        },
    };
    let j2 = match expect_at_exec(s, i2, comma.as_slice()) {
        Some(p) => p,
        None => {
            return None;
        },
    };
    let key_w = text_bytes("\"width\"");
    let (w, i3) = match field_value_exec(s, j2, key_w.as_slice()) {
        Some(p) => p,
        None => {
            return None;
        },
    };
    let j3 = match expect_at_exec(s, i3, comma.as_slice()) {
        Some(p) => p,
        None => {
            return None;
        },
    };
    let key_h = text_bytes("\"height\"");
    let (h, i4) = match field_value_exec(s, j3, key_h.as_slice()) {
        Some(p) => p,
        None => {
            return None;
        },
    };
    let close = text_bytes("}");
    let i5 = match expect_at_exec(s, i4, close.as_slice()) {
        Some(p) => p,
        None => {
            return None;
        },
    };
    let rest = skip_ws_exec(s, i5);
    if rest != s.len() {
        return None;
    }
    if !(x >= i32::MIN as i64 && x <= i32::MAX as i64) {
        return None;
    }
    if !(y >= i32::MIN as i64 && y <= i32::MAX as i64) {
        return None;
    }
    if !(w >= 0 && w <= u32::MAX as i64) {
        return None;
    }
    if !(h >= 0 && h <= u32::MAX as i64) {
        return None;
    }
    Some(WindowGeometry { x: x as i32, y: y as i32, width: w as u32, height: h as u32 })
}

} // verus!
