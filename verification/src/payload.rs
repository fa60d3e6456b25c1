//! The line the shell pushes to the local coordinate listener: one JSON
//! object per push, the label escaped as JSON demands, ended by a newline.
//! The numbers arrive already rendered; this module frames them.

use vstd::prelude::*;

verus! {

use crate::text::{lit_bytes, push_text, push_bytes, text_bytes};

/// One hexadecimal digit, lowercase.
pub open spec fn hex_digit(d: u8) -> u8 {
    if d < 10 {
        (48 + d) as u8
    } else {
        (87 + d) as u8
    }
}

/// The escape of one byte inside a JSON string: quote and backslash get a
/// backslash, the control bytes JSON names get their short escapes, other
/// control bytes get `\u00XX`, and everything else stands as it is.
pub open spec fn escape_byte(b: u8) -> Seq<u8> {
    if b == 34 {
        lit_bytes("\\\""@)
    } else if b == 92 {
        lit_bytes("\\\\"@)
    } else if b == 8 {
        lit_bytes("\\b"@)
    } else if b == 9 {
        lit_bytes("\\t"@)
    } else if b == 10 {
        lit_bytes("\\n"@)
    } else if b == 12 {
        lit_bytes("\\f"@)
    } else if b == 13 {
        lit_bytes("\\r"@)
    } else if b < 32 {
        lit_bytes("\\u00"@) + seq![hex_digit(b >> 4), hex_digit(b & 15)]
    } else {
        seq![b]
    }
}

/// The JSON-string escape of a whole text.
pub open spec fn escape_bytes(s: Seq<u8>) -> Seq<u8>
    decreases s.len(),
{
    if s.len() == 0 {
        Seq::empty()
    } else {
        escape_bytes(s.drop_last()) + escape_byte(s.last())
    }
}

/// One hexadecimal digit, lowercase.
fn hex_digit_byte(d: u8) -> (r: u8)
    requires
        d < 16,
    ensures
        r == hex_digit(d),
{
    if d < 10 {
        48 + d
    } else {
        87 + d
    }
}

/// Appends the JSON-string escape of `s` to `out`.
pub fn push_json_escaped(out: &mut Vec<u8>, s: &[u8])
    ensures
        final(out)@ == old(out)@ + escape_bytes(s@),
{
    let n = s.len();
    let mut i: usize = 0;
    while i < n
        invariant
            i <= n,
            n == s@.len(),
            out@ == old(out)@ + escape_bytes(s@.subrange(0, i as int)),
        decreases n - i,
    {
        let b = s[i];
        if b == 34 {
            push_text(out, "\\\"");
        } else if b == 92 {
            push_text(out, "\\\\");
        } else if b == 8 {
            push_text(out, "\\b");
        } else if b == 9 {
            push_text(out, "\\t");
        } else if b == 10 {
            push_text(out, "\\n");
        } else if b == 12 {
            push_text(out, "\\f");
        } else if b == 13 {
            push_text(out, "\\r");
        } else if b < 32 {
            push_text(out, "\\u00");
            proof {
                assert((b >> 4) < 16 && (b & 15) < 16) by (bit_vector);
            }
            out.push(hex_digit_byte(b >> 4));
            out.push(hex_digit_byte(b & 15));
        } else {
            out.push(b);
        }
        proof {
            assert(s@.subrange(0, i + 1).drop_last() =~= s@.subrange(0, i as int));
            assert(s@.subrange(0, i + 1).last() == s@[i as int]);
            assert(out@ =~= old(out)@ + escape_bytes(s@.subrange(0, i + 1)));
        }
        i = i + 1;
    }
    proof {
        assert(s@.subrange(0, n as int) =~= s@);
    }
}

/// The line pushed to the coordinate listener: `{"label":L,"x":X,"y":Y}`
/// and a newline. A missing label is `null`; a present one is quoted and
/// escaped. The number texts stand as the shell rendered them.
pub open spec fn spec_coord_line(
    x_text: Seq<u8>,
    y_text: Seq<u8>,
    label: Option<Seq<u8>>,
) -> Seq<u8> {
    lit_bytes("{\"label\":"@) + (match label {
        Some(l) => seq![34u8] + escape_bytes(l) + seq![34u8],
        None => lit_bytes("null"@),
    }) + lit_bytes(",\"x\":"@) + x_text + lit_bytes(",\"y\":"@) + y_text + lit_bytes("}"@)
        + seq![10u8]
}

/// Renders the line pushed to the coordinate listener.
pub fn coord_line(x_text: &[u8], y_text: &[u8], label: Option<&[u8]>) -> (r: Vec<u8>)
    ensures
        r@ == spec_coord_line(
            x_text@,
            y_text@,
            match label {
                Some(l) => Some(l@),
                None => None,
            },
        ),
{
    let mut out = text_bytes("{\"label\":");
    match label {
        Some(l) => {
            out.push(34);
            push_json_escaped(&mut out, l);
            out.push(34);
        },
        None => {
            push_text(&mut out, "null");
        },
    }
    push_text(&mut out, ",\"x\":");
    push_bytes(&mut out, x_text);
    push_text(&mut out, ",\"y\":");
    push_bytes(&mut out, y_text);
    push_text(&mut out, "}");
    out.push(10);
    assert(out@ =~= spec_coord_line(
        x_text@,
        y_text@,
        match label {
            Some(l) => Some(l@),
            None => None,
        },
    ));
    out
}

} // verus!
