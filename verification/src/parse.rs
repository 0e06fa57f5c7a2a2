//! The textual grammar for monetary amounts and its parser.
//!
//! After trimming whitespace from both ends, an amount is an optional
//! leading `-`, one or more ASCII digits (the whole part), optionally
//! followed by `.` and one or more ASCII digits (the fractional part);
//! nothing else is permitted anywhere in the trimmed string. A single
//! fractional digit denotes tenths; the fractional value must stay below
//! 100; the whole-part value, and the combined count of hundredths, must
//! fit in an `i32`.

use vstd::prelude::*;
use crate::chars::{all_ascii_digits, digit_val, is_ascii_digit, is_digit};
use crate::digits::{digits_val, digits_value};
use crate::errors::CurrencyParseError;
use crate::text::{chars_of, spec_trim, trim_bounds};

verus! {

/// The body `b` (the trimmed input after its optional sign) splits at
/// index `k` into a non-empty run of digits, a dot, and a second
/// non-empty run of digits.
pub open spec fn dot_split_at(b: Seq<char>, k: int) -> bool {
    &&& 1 <= k
    &&& k + 1 < b.len()
    &&& b[k] == '.'
    &&& all_ascii_digits(b.take(k))
    &&& all_ascii_digits(b.skip(k + 1))
}

/// At most one index can split a body.
pub proof fn lemma_dot_split_unique(b: Seq<char>, k1: int, k2: int)
    requires
        dot_split_at(b, k1),
        dot_split_at(b, k2),
    ensures
        k1 == k2,
{
    if k1 < k2 {
        assert(is_ascii_digit(b.skip(k2 + 1)[k1 - k2 - 1]) || is_ascii_digit(
            b.take(k2)[k1],
        ));
        assert(!is_ascii_digit('.'));
    } else if k2 < k1 {
        assert(is_ascii_digit(b.take(k1)[k2]));
        assert(!is_ascii_digit('.'));
    }
}

/// How a body decomposes under the grammar: the whole-part digits and,
/// if a dot is present, the fractional digits; `None` when the body does
/// not match.
pub open spec fn spec_body_shape(b: Seq<char>) -> Option<(Seq<char>, Option<Seq<char>>)> {
    if b.len() >= 1 && all_ascii_digits(b) {
        Some((b, None))
    } else if exists|k: int| dot_split_at(b, k) {
        let k = choose|k: int| dot_split_at(b, k);
        Some((b.take(k), Some(b.skip(k + 1))))
    } else {
        None
    }
}

/// Combine a non-negative whole part and fractional part into a count of
/// hundredths, applying the sign last; overflow of the backing integer is
/// reported.
pub open spec fn spec_combine(neg: bool, w: int, f: int) -> Result<int, CurrencyParseError> {
    let c = w * 100 + f;
    if c > i32::MAX as int {
        Err(CurrencyParseError::IntegerOverflow)
    } else {
        Ok(
            if neg {
                -c
            } else {
                c
            },
        )
    }
}

/// What parsing the character sequence `s` yields: the denoted count of
/// hundredths, or the first failure in grammar match, whole-part
/// evaluation, fractional-part evaluation, fractional range check, and
/// combination, in that order.
pub open spec fn spec_parse(s: Seq<char>) -> Result<int, CurrencyParseError> {
    let t = spec_trim(s);
    let neg = t.len() > 0 && t[0] == '-';
    let b = if neg {
        t.drop_first()
    } else {
        t
    };
    match spec_body_shape(b) {
        None => Err(CurrencyParseError::MatchFailed),
        Some((wd, fd_opt)) => {
            let w = digits_val(wd);
            if w > i32::MAX as int {
                Err(CurrencyParseError::IntegerOverflow)
            } else {
                match fd_opt {
                    None => spec_combine(neg, w, 0),
                    Some(fd) => {
                        let f0 = digits_val(fd);
                        if f0 > i32::MAX as int {
                            Err(CurrencyParseError::IntegerOverflow)
                        } else {
                            let f = if fd.len() == 1 {
                                f0 * 10
                            } else {
                                f0
                            };
                            if f >= 100 {
                                Err(CurrencyParseError::FracGreaterThan99)
                            } else {
                                spec_combine(neg, w, f)
                            }
                        }
                    },
                }
            }
        },
    }
}

/// Parse a string as a count of hundredths, exactly as [`spec_parse`]
/// describes.
#[verifier::rlimit(60)]
pub fn parse_str(s: &str) -> (r: Result<i32, CurrencyParseError>)
    ensures
        match r {
            Ok(v) => spec_parse(s@) == Ok::<int, CurrencyParseError>(v as int),
            Err(e) => spec_parse(s@) == Err::<int, CurrencyParseError>(e),
        },
{
    let cs = chars_of(s);
    let (lo, hi) = trim_bounds(&cs);
    let ghost t = spec_trim(s@);
    assert(t == cs@.subrange(lo as int, hi as int));
    proof {
        if lo < hi {
            assert(t[0] == cs@[lo as int]);
        }
    }
    let neg = lo < hi && cs[lo] == '-';
    let bstart = if neg {
        lo + 1
    } else {
        lo
    };
    let ghost b = cs@.subrange(bstart as int, hi as int);
    proof {
        if neg {
            assert(t.drop_first() =~= b);
        }
    }
    // scan the whole-part digits
    let mut i = bstart;
    while i < hi && is_digit(cs[i])
        invariant
            bstart <= i <= hi <= cs@.len(),
            forall|j: int| bstart <= j < i ==> is_ascii_digit(#[trigger] cs@[j]),
        decreases hi - i,
    {
        i = i + 1;
    }
    let wend = i;
    if wend == bstart {
        // no leading digit: the body cannot match
        proof {
            if bstart < hi {
                assert(b[0] == cs@[bstart as int]);
                assert(!is_ascii_digit(b[0]));
            }
            assert forall|k2: int| !dot_split_at(b, k2) by {
                if dot_split_at(b, k2) {
                    assert(is_ascii_digit(b.take(k2)[0]));
                    assert(b.take(k2)[0] == b[0]);
                }
            }
            assert(spec_body_shape(b) is None);
        }
        return Err(CurrencyParseError::MatchFailed);
    }
    proof {
        assert(all_ascii_digits(cs@.subrange(bstart as int, wend as int)));
    }
    if wend == hi {
        // the whole body is digits
        proof {
            assert(b =~= cs@.subrange(bstart as int, wend as int));
            assert(spec_body_shape(b) == Some((b, None::<Seq<char>>)));
        }
        let w = match digits_value(&cs, bstart, wend) {
            Some(w) => w,
            None => {
                return Err(CurrencyParseError::IntegerOverflow);
            },
        };
        return combine(neg, w, 0, Ghost(s@));
    }
    // a non-digit stopped the scan before the end
    let ghost k = wend - bstart;
    if cs[wend] != '.' {
        proof {
            assert forall|k2: int| !dot_split_at(b, k2) by {
                if dot_split_at(b, k2) {
                    if k2 < k {
                        assert(is_ascii_digit(cs@[bstart + k2]));
                    } else if k2 == k {
                        assert(b[k2] == cs@[wend as int]);
                    } else {
                        assert(is_ascii_digit(b.take(k2)[k]));
                        assert(b[k] == cs@[wend as int]);
                    }
                }
            }
            assert(!is_ascii_digit(b[k]));
            assert(spec_body_shape(b) is None);
        }
        return Err(CurrencyParseError::MatchFailed);
    }
    // scan the fractional digits
    let fstart = wend + 1;
    let mut j = fstart;
    while j < hi && is_digit(cs[j])
        invariant
            fstart <= j <= hi <= cs@.len(),
            forall|m: int| fstart <= m < j ==> is_ascii_digit(#[trigger] cs@[m]),
        decreases hi - j,
    {
        j = j + 1;
    }
    proof {
        // any split index must be `k`, where the scanned dot stands
        assert forall|k2: int| dot_split_at(b, k2) implies k2 == k by {
            if k2 < k {
                assert(is_ascii_digit(cs@[bstart + k2]));
            } else if k2 > k {
                assert(is_ascii_digit(b.take(k2)[k]));
                assert(b[k] == cs@[wend as int]);
            }
        }
        assert(!is_ascii_digit(b[k]));
        assert(!all_ascii_digits(b));
    }
    if j < hi || fstart == hi {
        // a stray character inside the fraction, or nothing after the dot
        proof {
            assert forall|k2: int| !dot_split_at(b, k2) by {
                if dot_split_at(b, k2) {
                    if j < hi {
                        assert(is_ascii_digit(b.skip(k2 + 1)[j - bstart - k2 - 1]));
                        assert(b[j - bstart] == cs@[j as int]);
                    }
                }
            }
            assert(spec_body_shape(b) is None);
        }
        return Err(CurrencyParseError::MatchFailed);
    }
    // the body matches, split at `k`
    let ghost wd = b.take(k);
    let ghost fd = b.skip(k + 1);
    proof {
        assert(wd =~= cs@.subrange(bstart as int, wend as int));
        assert(fd =~= cs@.subrange(fstart as int, hi as int));
        assert(dot_split_at(b, k));
        assert(spec_body_shape(b) == Some((wd, Some(fd))));
    }
    let w = match digits_value(&cs, bstart, wend) {
        Some(w) => w,
        None => {
            return Err(CurrencyParseError::IntegerOverflow);
        },
    };
    let f0 = match digits_value(&cs, fstart, hi) {
        Some(f0) => f0,
        None => {
            return Err(CurrencyParseError::IntegerOverflow);
        },
    };
    let f = if hi - fstart == 1 {
        proof {
            assert(fd =~= seq![fd[0]]);
            assert(fd.drop_last() =~= Seq::<char>::empty());
            assert(digits_val(Seq::<char>::empty()) == 0);
            assert(digits_val(fd) == digit_val(fd[0]));
        }
        f0 * 10
    } else {
        f0
    };
    if f >= 100 {
        return Err(CurrencyParseError::FracGreaterThan99);
    }
    combine(neg, w, f, Ghost(s@))
}

/// Combine sign, whole part and fractional part, exactly as
/// [`spec_combine`] describes; `s` is the input being parsed, for the
/// contract alone.
fn combine(neg: bool, w: u32, f: u32, s: Ghost<Seq<char>>) -> (r: Result<i32, CurrencyParseError>)
    requires
        w <= i32::MAX as u32,
        f < 100,
        ({
            let t = spec_trim(s@);
            let sn = t.len() > 0 && t[0] == '-';
            let b = if sn {
                t.drop_first()
            } else {
                t
            };
            &&& sn == neg
            &&& match spec_body_shape(b) {
                Some((wd, fd_opt)) => {
                    &&& digits_val(wd) == w as int
                    &&& match fd_opt {
                        None => f == 0,
                        Some(fd) => {
                            let f0 = digits_val(fd);
                            &&& f0 <= i32::MAX as int
                            &&& f as int == if fd.len() == 1 {
                                f0 * 10
                            } else {
                                f0
                            }
                        },
                    }
                },
                None => false,
            }
        }),
    ensures
        match r {
            Ok(v) => spec_parse(s@) == Ok::<int, CurrencyParseError>(v as int),
            Err(e) => spec_parse(s@) == Err::<int, CurrencyParseError>(e),
        },
{
    let c: u64 = (w as u64) * 100 + (f as u64);
    if c > i32::MAX as u64 {
        Err(CurrencyParseError::IntegerOverflow)
    } else if neg {
        Ok(-(c as i32))
    } else {
        Ok(c as i32)
    }
}

} // verus!
