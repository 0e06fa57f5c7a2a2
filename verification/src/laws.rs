//! The library's laws, stated over the same spec functions that the
//! executable functions' contracts use, and proved once for all values.

use vstd::prelude::*;
use vstd::arithmetic::div_mod::lemma_fundamental_div_mod;
use vstd::std_specs::ops::{AddSpec, SubSpec};
use crate::chars::{
    all_ascii_digits, digit_char, digit_val, is_ascii_digit, is_whitespace_char,
    lemma_digit_char_val,
};
use crate::currency::Currency;
use crate::digits::{dec_rep, digits_val, lemma_dec_rep};
use crate::display::spec_display;
use crate::errors::CurrencyParseError;
use crate::parse::{
    dot_split_at, lemma_dot_split_unique, spec_body_shape, spec_combine, spec_parse,
};
use crate::text::{lemma_trim_noop, spec_trim};

verus! {

/// Additive group laws: subtracting a value undoes adding it, a value
/// minus itself is zero, and addition commutes. The in-place operators
/// need no law of their own: their contracts promise results identical
/// to these spec-level operations.
pub proof fn lemma_additive_cancel(a: Currency, b: Currency)
    requires
        i32::MIN <= a@ + b@ <= i32::MAX,
    ensures
        a.sub_spec(a)@ == 0,
        a.add_spec(b).sub_spec(b) == a,
        a.add_spec(b).sub_spec(a) == b,
        a.add_spec(b) == b.add_spec(a),
{
}

/// An ASCII digit is neither whitespace nor a sign nor a dot, so a
/// rendering is its own trim and decomposes only one way.
proof fn lemma_digit_not_special(c: char)
    requires
        is_ascii_digit(c),
    ensures
        !is_whitespace_char(c),
        c != '-',
        c != '.',
{
}

/// Round-trip law: parsing the canonical rendering of a representable
/// value yields that value back. The one unrepresentable reading is the
/// most negative backing integer, whose magnitude exceeds the backing
/// integer's range during combination.
pub proof fn lemma_display_parse_round_trip(v: int)
    requires
        i32::MIN < v <= i32::MAX,
    ensures
        spec_parse(spec_display(v)) == Ok::<int, CurrencyParseError>(v),
{
    let a = if v < 0 {
        -v
    } else {
        v
    };
    let w = a / 100;
    let f = a % 100;
    lemma_fundamental_div_mod(a, 100);
    assert(0 <= f < 100);
    assert(0 <= w <= i32::MAX as int);
    lemma_dec_rep(w);
    let d = dec_rep(w);
    let s = spec_display(v);
    assert(is_ascii_digit(d[0]));
    assert(is_ascii_digit(d[d.len() - 1]));
    lemma_digit_not_special(d[0]);
    lemma_digit_not_special(d[d.len() - 1]);
    if f == 0 {
        if v >= 0 {
            assert(s =~= d);
            lemma_trim_noop(s);
            let t = spec_trim(s);
            assert(t == d);
            assert(t[0] != '-');
            assert(spec_body_shape(d) == Some((d, None::<Seq<char>>)));
            assert(spec_parse(s) == spec_combine(false, w, 0));
            assert(w * 100 + 0 == a);
            assert(spec_combine(false, w, 0) == Ok::<int, CurrencyParseError>(v));
        } else {
            assert(s =~= seq!['-'] + d);
            assert(s[0] == '-');
            assert(s.last() == d[d.len() - 1]);
            assert(!is_whitespace_char(s[0]));
            lemma_trim_noop(s);
            let t = spec_trim(s);
            assert(t[0] == '-');
            assert(t.drop_first() =~= d);
            assert(spec_body_shape(d) == Some((d, None::<Seq<char>>)));
            assert(spec_parse(s) == spec_combine(true, w, 0));
            assert(w * 100 + 0 == a);
            assert(spec_combine(true, w, 0) == Ok::<int, CurrencyParseError>(v));
        }
    } else {
        let d1 = digit_char(f / 10);
        let d2 = digit_char(f % 10);
        lemma_fundamental_div_mod(f, 10);
        lemma_digit_char_val(f / 10);
        lemma_digit_char_val(f % 10);
        lemma_digit_not_special(d2);
        let fr = seq!['.', d1, d2];
        let b = d + fr;
        let k = d.len() as int;
        assert(b[k] == '.');
        assert(b.take(k) =~= d);
        assert(b.skip(k + 1) =~= seq![d1, d2]);
        let fd = seq![d1, d2];
        assert(all_ascii_digits(fd)) by {
            assert(fd[0] == d1 && fd[1] == d2);
        }
        assert(dot_split_at(b, k));
        assert(!is_ascii_digit(b[k]));
        assert(!all_ascii_digits(b));
        let k0 = choose|k0: int| dot_split_at(b, k0);
        lemma_dot_split_unique(b, k0, k);
        assert(spec_body_shape(b) == Some((d, Some(fd))));
        // the two fraction digits read back as `f`
        assert(fd.drop_last() =~= seq![d1]);
        assert(seq![d1].drop_last() =~= Seq::<char>::empty());
        assert(digits_val(Seq::<char>::empty()) == 0);
        assert(digits_val(seq![d1]) == digit_val(d1));
        assert(digits_val(fd) == digit_val(d1) * 10 + digit_val(d2));
        assert(digits_val(fd) == f);
        assert(fd.len() == 2);
        if v >= 0 {
            assert(s =~= b);
            assert(s[0] == d[0]);
            assert(s.last() == d2);
            lemma_trim_noop(s);
            let t = spec_trim(s);
            assert(t[0] != '-');
            assert(spec_parse(s) == spec_combine(false, w, f));
            assert(spec_combine(false, w, f) == Ok::<int, CurrencyParseError>(v));
        } else {
            assert(s =~= seq!['-'] + b);
            assert(s[0] == '-');
            assert(s.last() == d2);
            assert(!is_whitespace_char(s[0]));
            lemma_trim_noop(s);
            let t = spec_trim(s);
            assert(t[0] == '-');
            assert(t.drop_first() =~= b);
            assert(spec_parse(s) == spec_combine(true, w, f));
            assert(spec_combine(true, w, f) == Ok::<int, CurrencyParseError>(v));
        }
    }
}

/// The round trip at the level of the executable functions: rendering a
/// value and parsing the rendering yields the value, for every amount
/// but the most negative one.
pub fn parse_of_rendering(c: Currency) -> (r: Result<Currency, CurrencyParseError>)
    requires
        c@ != i32::MIN,
    ensures
        r == Ok::<Currency, CurrencyParseError>(c),
{
    let s = c.to_string();
    let r = Currency::from_str(s.as_str());
    proof {
        lemma_display_parse_round_trip(c@);
    }
    assert(r == Ok::<Currency, CurrencyParseError>(c));
    r
}

} // verus!
