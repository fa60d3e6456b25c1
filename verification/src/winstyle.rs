//! The extended-window-style arithmetic behind the translucency effect.
//! The shell reads the window's extended style word, flips the layered bit,
//! and applies an alpha value; this module computes the new style word and
//! says which of the follow-up calls are owed, so that the shell's unsafe
//! Win32 calls carry no decisions of their own.

use vstd::prelude::*;

verus! {

/// The extended-style bit that marks a window as layered.
pub const LAYERED_STYLE_BIT: i32 = 0x0008_0000;

/// What applying an opacity does to the window.
#[derive(Clone, Copy, PartialEq, Eq, Structural, Debug)]
pub struct StylePlan {
    /// The extended style word the window must end up with.
    pub new_style: i32,
    /// Whether the style word actually changed and must be written back.
    pub set_style: bool,
    /// Whether an alpha value must be applied afterwards.
    pub set_alpha: bool,
    /// Whether the solid background color is restored (fully opaque) or
    /// cleared (translucent).
    pub opaque_background: bool,
}

/// Plans the style update for an opacity change. `opaque` says whether the
/// requested opacity is full, in which case the layered effect is switched
/// off; otherwise the layered bit is set and an alpha is owed.
pub fn layered_style_plan(ex_style: i32, opaque: bool) -> (r: StylePlan)
    ensures
        r.opaque_background == opaque,
        r.set_alpha == !opaque,
        opaque ==> r.new_style == (ex_style & !LAYERED_STYLE_BIT),
        !opaque ==> r.new_style == (ex_style | LAYERED_STYLE_BIT),
        r.set_style == (r.new_style != ex_style),
        (r.new_style & LAYERED_STYLE_BIT) == (
        if opaque {
            0i32
        } else {
            LAYERED_STYLE_BIT
        }),
        (r.new_style & !LAYERED_STYLE_BIT) == (ex_style & !LAYERED_STYLE_BIT),
        r.set_style == ((ex_style & LAYERED_STYLE_BIT) == (
        if opaque {
            LAYERED_STYLE_BIT
        } else {
            0i32
        })),
{
    let new_style: i32 = if opaque {
        ex_style & !LAYERED_STYLE_BIT
    } else {
        ex_style | LAYERED_STYLE_BIT
    };
    proof {
        if opaque {
            assert((ex_style & !0x0008_0000i32) & 0x0008_0000i32 == 0i32) by (bit_vector);
            assert((ex_style & !0x0008_0000i32) & !0x0008_0000i32 == ex_style
                & !0x0008_0000i32) by (bit_vector);
            assert(((ex_style & !0x0008_0000i32) != ex_style) == ((ex_style & 0x0008_0000i32)
                == 0x0008_0000i32)) by (bit_vector);
        } else {
            assert((ex_style | 0x0008_0000i32) & 0x0008_0000i32 == 0x0008_0000i32) by (bit_vector);
            assert((ex_style | 0x0008_0000i32) & !0x0008_0000i32 == ex_style
                & !0x0008_0000i32) by (bit_vector);
            assert(((ex_style | 0x0008_0000i32) != ex_style) == ((ex_style & 0x0008_0000i32)
                == 0i32)) by (bit_vector);
        }
    }
    StylePlan {
        new_style,
        set_style: new_style != ex_style,
        set_alpha: !opaque,
        opaque_background: opaque,
    }
}

} // verus!
