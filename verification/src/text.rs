//! Character-level helpers: whitespace classification, string equality,
//! and splitting a line into whitespace-separated tokens.

use vstd::prelude::*;
use vstd::string::*;

verus! {

/// Whitespace characters recognised by the tokenizer: the ASCII blanks.
pub open spec fn is_space_char(c: char) -> bool {
    c == ' ' || c == '\t' || c == '\r' || c == '\n' || c == '\u{b}' || c == '\u{c}'
}

/// Decimal digit.
pub open spec fn is_digit_char(c: char) -> bool {
    48 <= c as u32 <= 57
}

/// Exec check for `is_space_char`.
pub fn space_char(c: char) -> (r: bool)
    ensures
        r == is_space_char(c),
{
    c == ' ' || c == '\t' || c == '\r' || c == '\n' || c == '\u{b}' || c == '\u{c}'
}

/// Exec check for `is_digit_char`.
pub fn digit_char(c: char) -> (r: bool)
    ensures
        r == is_digit_char(c),
{
    let u = c as u32;
    48 <= u && u <= 57
}

/// Character-sequence equality of two string slices.
pub fn str_eq(a: &str, b: &str) -> (r: bool)
    ensures
        r == (a@ == b@),
{
    let na = a.unicode_len();
    let nb = b.unicode_len();
    if na != nb {
        return false;
    }
    let mut i: usize = 0;
    while i < na
        invariant
            na == a@.len(),
            na == b@.len(),
            i <= na,
            forall|j: int| 0 <= j < i ==> a@[j] == b@[j],
        decreases na - i,
    {
        if a.get_char(i) != b.get_char(i) {
            return false;
        }
        i = i + 1;
    }
    assert(a@ =~= b@);
    true
}

/// The tokens of `s`, with `cur` as a partially read word standing just
/// before `s`: maximal runs of non-whitespace characters, in order.
pub open spec fn spec_tokens_rec(s: Seq<char>, cur: Seq<char>) -> Seq<Seq<char>>
    decreases s.len(),
{
    if s.len() == 0 {
        if cur.len() == 0 {
            Seq::empty()
        } else {
            seq![cur]
        }
    } else if is_space_char(s[0]) {
        if cur.len() == 0 {
            spec_tokens_rec(s.drop_first(), Seq::empty())
        } else {
            seq![cur] + spec_tokens_rec(s.drop_first(), Seq::empty())
        }
    } else {
        spec_tokens_rec(s.drop_first(), cur.push(s[0]))
    }
}

/// The whitespace-separated tokens of `s`.
pub open spec fn spec_tokens(s: Seq<char>) -> Seq<Seq<char>> {
    spec_tokens_rec(s, Seq::empty())
}

/// Splits a line into its whitespace-separated tokens.
pub fn tokenize(s: &str) -> (toks: Vec<String>)
    ensures
        toks.deep_view() == spec_tokens(s@),
{
    let n = s.unicode_len();
    let mut toks: Vec<String> = Vec::new();
    let mut i: usize = 0;
    proof {
        assert(s@.skip(0) =~= s@);
        assert(toks.deep_view() =~= Seq::<Seq<char>>::empty());
        assert(Seq::<Seq<char>>::empty() + spec_tokens(s@) =~= spec_tokens(s@));
    }
    while i < n
        invariant
            n == s@.len(),
            i <= n,
            toks.deep_view() + spec_tokens_rec(s@.skip(i as int), Seq::empty())
                == spec_tokens(s@),
        decreases n - i,
    {
        proof {
            assert(s@.skip(i as int)[0] == s@[i as int]);
            assert(s@.skip(i as int).drop_first() =~= s@.skip(i + 1));
        }
        if space_char(s.get_char(i)) {
            i = i + 1;
        } else {
            let start: usize = i;
            let mut j: usize = i + 1;
            proof {
                assert(Seq::<char>::empty().push(s@[start as int]) =~= s@.subrange(
                    start as int,
                    start + 1,
                ));
            }
            while j < n && !space_char(s.get_char(j))
                invariant
                    n == s@.len(),
                    start < j <= n,
                    forall|k: int| start <= k < j ==> !is_space_char(s@[k]),
                    spec_tokens_rec(s@.skip(start as int), Seq::empty())
                        == spec_tokens_rec(
                        s@.skip(j as int),
                        s@.subrange(start as int, j as int),
                    ),
                decreases n - j,
            {
                proof {
                    assert(s@.skip(j as int)[0] == s@[j as int]);
                    assert(s@.skip(j as int).drop_first() =~= s@.skip(j + 1));
                    assert(s@.subrange(start as int, j as int).push(s@[j as int]) =~= s@.subrange(
                        start as int,
                        j + 1,
                    ));
                }
                j = j + 1;
            }
            let ghost word = s@.subrange(start as int, j as int);
            proof {
                if j < n {
                    assert(s@.skip(j as int)[0] == s@[j as int]);
                    assert(s@.skip(j as int).drop_first() =~= s@.skip(j + 1));
                    assert(spec_tokens_rec(s@.skip(j as int), word) =~= seq![word]
                        + spec_tokens_rec(s@.skip(j + 1), Seq::empty()));
                } else {
                    assert(s@.skip(j as int).len() == 0);
                    assert(spec_tokens_rec(s@.skip(j as int), word) =~= seq![word]);
                    assert(spec_tokens_rec(s@.skip(j as int), Seq::empty())
                        =~= Seq::<Seq<char>>::empty());
                }
            }
            let tok = s.substring_char(start, j).to_owned();
            let ghost old_deep = toks.deep_view();
            toks.push(tok);
            proof {
                assert(toks.deep_view() =~= old_deep.push(word));
            }
            if j < n {
                i = j + 1;
            } else {
                i = j;
            }
        }
    }
    proof {
        assert(s@.skip(n as int) =~= Seq::<char>::empty());
        assert(toks.deep_view() =~= spec_tokens(s@));
    }
    toks
}

} // verus!
