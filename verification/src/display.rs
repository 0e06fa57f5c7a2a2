//! Canonical rendering of a hundredths value: an optional sign, the whole
//! part in decimal, and — only when it is non-zero — a dot and the
//! fractional part padded to two digits.

use vstd::prelude::*;
use vstd::string::StringExecFns;
use crate::chars::digit_char;
use crate::digits::{dec_rep, digit_str, push_dec};

verus! {

/// The canonical rendering of the hundredths value `v`.
pub open spec fn spec_display(v: int) -> Seq<char> {
    let a = if v < 0 {
        -v
    } else {
        v
    };
    let sign: Seq<char> = if v < 0 {
        seq!['-']
    } else {
        Seq::<char>::empty()
    };
    let frac: Seq<char> = if a % 100 == 0 {
        Seq::<char>::empty()
    } else {
        seq!['.', digit_char((a % 100) / 10), digit_char((a % 100) % 10)]
    };
    sign + dec_rep(a / 100) + frac
}

/// Render the hundredths value `v` canonically.
pub fn render(v: i32) -> (r: String)
    ensures
        r@ == spec_display(v as int),
{
    proof {
        reveal_strlit("-");
        reveal_strlit(".");
    }
    let mut out = String::new();
    if v < 0 {
        out.append("-");
        assert(out@ =~= seq!['-']);
    }
    let a: u32 = if v < 0 {
        (-(v as i64)) as u32
    } else {
        v as u32
    };
    assert(a as int == if v < 0 { -(v as int) } else { v as int });
    let w: u32 = a / 100;
    let f: u32 = a % 100;
    push_dec(&mut out, w);
    if f != 0 {
        out.append(".");
        out.append(digit_str(f / 10));
        out.append(digit_str(f % 10));
    }
    assert(out@ =~= spec_display(v as int));
    out
}

} // verus!
