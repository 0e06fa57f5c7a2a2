//! Decimal digit strings: the value of a run of digits, the canonical
//! decimal rendering of a non-negative number, and the proof that the two
//! are inverses.

use vstd::prelude::*;
use vstd::string::StringExecFns;
use crate::chars::{all_ascii_digits, digit_char, digit_val, is_ascii_digit, lemma_digit_char_val};

verus! {

/// The number denoted by a run of ASCII digits, most significant first.
/// An empty run denotes zero.
pub open spec fn digits_val(s: Seq<char>) -> int
    decreases s.len(),
{
    if s.len() == 0 {
        0
    } else {
        digits_val(s.drop_last()) * 10 + digit_val(s.last())
    }
}

/// The canonical decimal rendering of `n >= 0`: no sign, no leading zero
/// except for `0` itself.
pub open spec fn dec_rep(n: int) -> Seq<char>
    decreases n,
{
    if n <= 9 {
        seq![digit_char(n)]
    } else {
        dec_rep(n / 10).push(digit_char(n % 10))
    }
}

pub proof fn lemma_digits_val_nonneg(s: Seq<char>)
    requires
        all_ascii_digits(s),
    ensures
        digits_val(s) >= 0,
    decreases s.len(),
{
    if s.len() > 0 {
        assert(all_ascii_digits(s.drop_last()));
        lemma_digits_val_nonneg(s.drop_last());
    }
}

/// Appending a digit multiplies the value by ten and adds the digit.
pub proof fn lemma_digits_val_push(s: Seq<char>, c: char)
    ensures
        digits_val(s.push(c)) == digits_val(s) * 10 + digit_val(c),
{
    assert(s.push(c).drop_last() =~= s);
    assert(s.push(c).last() == c);
}

/// A strictly longer run of digits denotes no smaller a number.
pub proof fn lemma_digits_val_take_le(s: Seq<char>, m: int)
    requires
        all_ascii_digits(s),
        0 <= m <= s.len(),
    ensures
        digits_val(s.take(m)) <= digits_val(s),
    decreases s.len() - m,
{
    if m < s.len() {
        lemma_digits_val_take_le(s, m + 1);
        let t = s.take(m + 1);
        assert(t.drop_last() =~= s.take(m));
        assert(t.last() == s[m]);
        assert(is_ascii_digit(s[m]));
        lemma_digits_val_nonneg(s.take(m));
    } else {
        assert(s.take(m) =~= s);
    }
}

/// The canonical rendering consists of digits and reads back as the
/// number it was made from.
pub proof fn lemma_dec_rep(n: int)
    requires
        n >= 0,
    ensures
        dec_rep(n).len() >= 1,
        all_ascii_digits(dec_rep(n)),
        digits_val(dec_rep(n)) == n,
    decreases n,
{
    if n <= 9 {
        lemma_digit_char_val(n);
        assert(dec_rep(n).drop_last() =~= Seq::<char>::empty());
        assert(digits_val(Seq::<char>::empty()) == 0);
        assert(dec_rep(n).last() == digit_char(n));
    } else {
        lemma_dec_rep(n / 10);
        lemma_digit_char_val(n % 10);
        lemma_digits_val_push(dec_rep(n / 10), digit_char(n % 10));
        assert(digits_val(dec_rep(n)) == (n / 10) * 10 + n % 10);
        assert((n / 10) * 10 + n % 10 == n) by {
            vstd::arithmetic::div_mod::lemma_fundamental_div_mod(n, 10);
        }
    }
}

/// Evaluate the run of digits `cs[from..to]`, most significant first.
/// Returns `None` exactly when the denoted number does not fit in an
/// `i32`, however long the run.
pub fn digits_value(cs: &Vec<char>, from: usize, to: usize) -> (r: Option<u32>)
    requires
        from <= to <= cs@.len(),
        all_ascii_digits(cs@.subrange(from as int, to as int)),
    ensures
        match r {
            Some(v) => v as int == digits_val(cs@.subrange(from as int, to as int)) && v <= (
            i32::MAX as u32),
            None => digits_val(cs@.subrange(from as int, to as int)) > i32::MAX as int,
        },
{
    let ghost d = cs@.subrange(from as int, to as int);
    proof {
        assert(digits_val(d.take(0)) == 0) by {
            assert(d.take(0) =~= Seq::<char>::empty());
        }
    }
    let mut acc: u32 = 0;
    let mut i: usize = from;
    while i < to
        invariant
            from <= i <= to <= cs@.len(),
            d == cs@.subrange(from as int, to as int),
            all_ascii_digits(d),
            acc as int == digits_val(d.take(i - from)),
            acc <= i32::MAX as u32,
        decreases to - i,
    {
        let ghost m = i - from;
        assert(is_ascii_digit(d[m]));
        let dv = crate::chars::digit_value(cs[i]);
        proof {
            assert(d.take(m + 1) =~= d.take(m).push(d[m]));
            lemma_digits_val_push(d.take(m), d[m]);
        }
        let wide: u64 = (acc as u64) * 10 + (dv as u64);
        assert(wide as int == digits_val(d.take(m + 1)));
        if wide > i32::MAX as u64 {
            proof {
                lemma_digits_val_take_le(d, m + 1);
            }
            return None;
        }
        acc = wide as u32;
        i = i + 1;
    }
    assert(d.take(to - from) =~= d);
    Some(acc)
}

/// The one-character string holding the ASCII digit of value `d`.
pub fn digit_str(d: u32) -> (r: &'static str)
    requires
        d <= 9,
    ensures
        r@ =~= seq![digit_char(d as int)],
{
    proof {
        reveal_strlit("0");
        reveal_strlit("1");
        reveal_strlit("2");
        reveal_strlit("3");
        reveal_strlit("4");
        reveal_strlit("5");
        reveal_strlit("6");
        reveal_strlit("7");
        reveal_strlit("8");
        reveal_strlit("9");
    }
    if d == 0 {
        "0"
    } else if d == 1 {
        "1"
    } else if d == 2 {
        "2"
    } else if d == 3 {
        "3"
    } else if d == 4 {
        "4"
    } else if d == 5 {
        "5"
    } else if d == 6 {
        "6"
    } else if d == 7 {
        "7"
    } else if d == 8 {
        "8"
    } else {
        "9"
    }
}

/// Append the canonical decimal rendering of `n` to `out`.
pub fn push_dec(out: &mut String, n: u32)
    ensures
        final(out)@ == old(out)@ + dec_rep(n as int),
    decreases n,
{
    if n <= 9 {
        out.append(digit_str(n));
        assert(out@ =~= old(out)@ + dec_rep(n as int));
    } else {
        push_dec(out, n / 10);
        out.append(digit_str(n % 10));
        assert(out@ =~= old(out)@ + dec_rep(n as int));
    }
}

} // verus!
