//! Operand parsing: location keywords, signed 16-bit integer literals, and
//! sources (a location or a literal).

use vstd::prelude::*;
use vstd::string::*;

use crate::ast::Loc;
use crate::ast::Source;
use crate::error::ErrorView;
use crate::error::ParseError;
use crate::text::is_digit_char;
use crate::text::digit_char;
use crate::text::str_eq;

verus! {

/// The location named by a token: exact, case-sensitive match against the
/// six keywords.
pub open spec fn spec_parse_loc(t: Seq<char>) -> Option<Loc> {
    if t == "LEFT"@ {
        Some(Loc::Left)
    } else if t == "RIGHT"@ {
        Some(Loc::Right)
    } else if t == "UP"@ {
        Some(Loc::Up)
    } else if t == "DOWN"@ {
        Some(Loc::Down)
    } else if t == "ACC"@ {
        Some(Loc::Acc)
    } else if t == "LAST"@ {
        Some(Loc::Last)
    } else {
        None
    }
}

/// Numeric value of one decimal digit character.
pub open spec fn digit_val(c: char) -> int {
    c as u32 - 48
}

/// Whether every character of `s` is a decimal digit.
pub open spec fn all_digits(s: Seq<char>) -> bool {
    forall|k: int| 0 <= k < s.len() ==> is_digit_char(#[trigger] s[k])
}

/// Value of a digit sequence read as a decimal numeral.
pub open spec fn dec_val(s: Seq<char>) -> int
    decreases s.len(),
{
    if s.len() == 0 {
        0
    } else {
        dec_val(s.drop_last()) * 10 + digit_val(s.last())
    }
}

/// The integer denoted by a token: an optional sign, then one or more
/// decimal digits; no other form denotes an integer.
pub open spec fn spec_parse_int(t: Seq<char>) -> Option<int> {
    let signed = t.len() > 0 && (t[0] == '-' || t[0] == '+');
    let ds = if signed {
        t.drop_first()
    } else {
        t
    };
    if ds.len() > 0 && all_digits(ds) {
        if signed && t[0] == '-' {
            Some(-dec_val(ds))
        } else {
            Some(dec_val(ds))
        }
    } else {
        None
    }
}

/// The integer denoted by a token when it fits in a signed 16-bit value.
pub open spec fn spec_parse_i16(t: Seq<char>) -> Option<int> {
    match spec_parse_int(t) {
        Some(v) => if -32768 <= v <= 32767 {
            Some(v)
        } else {
            None
        },
        None => None,
    }
}

/// The source denoted by a token: a location keyword if it matches one,
/// otherwise an in-range integer literal if it is one.
pub open spec fn spec_parse_source(t: Seq<char>) -> Option<Source> {
    match spec_parse_loc(t) {
        Some(l) => Some(Source::Loc(l)),
        None => match spec_parse_i16(t) {
            Some(v) => Some(Source::Val(v as i16)),
            None => None,
        },
    }
}

/// A digit sequence's value is nonnegative.
pub proof fn lemma_dec_val_nonneg(s: Seq<char>)
    requires
        all_digits(s),
    ensures
        dec_val(s) >= 0,
    decreases s.len(),
{
    if s.len() > 0 {
        assert(all_digits(s.drop_last()));
        lemma_dec_val_nonneg(s.drop_last());
    }
}

/// Reading one more digit multiplies the prefix value by ten and adds the
/// digit.
pub proof fn lemma_dec_val_step(s: Seq<char>, i: int)
    requires
        0 <= i < s.len(),
    ensures
        dec_val(s.take(i + 1)) == dec_val(s.take(i)) * 10 + digit_val(s[i]),
{
    assert(s.take(i + 1).drop_last() =~= s.take(i));
    assert(s.take(i + 1).last() == s[i]);
}

/// A digit sequence's value is at least the value of any of its prefixes.
pub proof fn lemma_dec_val_prefix(s: Seq<char>, i: int)
    requires
        all_digits(s),
        0 <= i <= s.len(),
    ensures
        dec_val(s) >= dec_val(s.take(i)),
    decreases s.len() - i,
{
    if i == s.len() {
        assert(s.take(i) =~= s);
    } else {
        assert(all_digits(s.take(i)));
        lemma_dec_val_nonneg(s.take(i));
        lemma_dec_val_step(s, i);
        lemma_dec_val_prefix(s, i + 1);
    }
}

/// Parses a token as one of the six location keywords.
pub fn parse_loc(s: &str) -> (r: Result<Loc, ParseError>)
    ensures
        match spec_parse_loc(s@) {
            Some(l) => r == Ok::<Loc, ParseError>(l),
            None => r matches Err(e) && e@ == (ErrorView::InvalidOperand { token: s@ }),
        },
{
    if str_eq(s, "LEFT") {
        Ok(Loc::Left)
    } else if str_eq(s, "RIGHT") {
        Ok(Loc::Right)
    } else if str_eq(s, "UP") {
        Ok(Loc::Up)
    } else if str_eq(s, "DOWN") {
        Ok(Loc::Down)
    } else if str_eq(s, "ACC") {
        Ok(Loc::Acc)
    } else if str_eq(s, "LAST") {
        Ok(Loc::Last)
    } else {
        Err(ParseError::InvalidOperand { token: s.to_owned() })
    }
}

/// Parses a token as a signed 16-bit integer literal.
pub fn parse_lit(s: &str) -> (r: Result<i16, ParseError>)
    ensures
        match spec_parse_i16(s@) {
            Some(v) => r matches Ok(x) && x as int == v,
            None => r matches Err(e) && e@ == (ErrorView::InvalidOperand { token: s@ }),
        },
{
    let n = s.unicode_len();
    if n == 0 {
        return Err(ParseError::InvalidOperand { token: s.to_owned() });
    }
    let c0 = s.get_char(0);
    let neg = c0 == '-';
    let start: usize = if c0 == '-' || c0 == '+' {
        1
    } else {
        0
    };
    let ghost ds = s@.skip(start as int);
    proof {
        if start == 0 {
            assert(ds =~= s@);
        } else {
            assert(ds =~= s@.drop_first());
        }
    }
    if start >= n {
        assert(ds.len() == 0);
        return Err(ParseError::InvalidOperand { token: s.to_owned() });
    }
    let mut m: u32 = 0;
    let mut i: usize = start;
    proof {
        assert(ds.take(0) =~= Seq::<char>::empty());
    }
    while i < n
        invariant
            n == s@.len(),
            start <= i <= n,
            start < n,
            start <= 1,
            (start == 1) == (s@[0] == '-' || s@[0] == '+'),
            ds == s@.skip(start as int),
            m <= 32768,
            m as int == dec_val(ds.take(i - start)),
            forall|k: int| 0 <= k < i - start ==> is_digit_char(#[trigger] ds[k]),
        decreases n - i,
    {
        let c = s.get_char(i);
        proof {
            assert(ds[i - start] == s@[i as int]);
        }
        if !digit_char(c) {
            assert(!all_digits(ds));
            return Err(ParseError::InvalidOperand { token: s.to_owned() });
        }
        let d: u32 = c as u32 - 48;
        let m2: u32 = m * 10 + d;
        proof {
            lemma_dec_val_step(ds, i - start);
        }
        if m2 > 32768 {
            proof {
                if start == 1 {
                    assert(ds =~= s@.drop_first());
                } else {
                    assert(ds =~= s@);
                }
                assert(digit_val(ds[i - start]) == d as int);
                if all_digits(ds) {
                    lemma_dec_val_prefix(ds, i - start + 1);
                    assert(dec_val(ds) > 32768);
                }
            }
            return Err(ParseError::InvalidOperand { token: s.to_owned() });
        }
        m = m2;
        i = i + 1;
    }
    proof {
        assert(ds.take(n - start) =~= ds);
        assert(all_digits(ds));
    }
    if neg {
        let v: i32 = -(m as i32);
        assert(-32768 <= v as int <= 32767) by {
            lemma_dec_val_nonneg(ds);
        };
        Ok(v as i16)
    } else {
        if m > 32767 {
            return Err(ParseError::InvalidOperand { token: s.to_owned() });
        }
        Ok(m as i16)
    }
}

/// Parses a token as a source: a location keyword, or else an integer
/// literal.
pub fn parse_source(s: &str) -> (r: Result<Source, ParseError>)
    ensures
        match spec_parse_source(s@) {
            Some(src) => r == Ok::<Source, ParseError>(src),
            None => r matches Err(e) && e@ == (ErrorView::InvalidOperand { token: s@ }),
        },
{
    match parse_loc(s) {
        Ok(l) => Ok(Source::Loc(l)),
        Err(_) => match parse_lit(s) {
            Ok(v) => Ok(Source::Val(v)),
            Err(e) => Err(e),
        },
    }
}

} // verus!
