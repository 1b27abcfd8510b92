//! Document assembly: section-header recognition, section sequencing and
//! termination checks, and the whole-document parse.

use vstd::prelude::*;
use vstd::string::*;

use crate::ast::Program;
use crate::ast::ProgramView;
use crate::ast::Spec;
use crate::ast::SpecView;
use crate::error::ErrorView;
use crate::error::ParseError;
use crate::operand::all_digits;
use crate::operand::dec_val;
use crate::operand::digit_val;
use crate::operand::lemma_dec_val_nonneg;
use crate::operand::lemma_dec_val_prefix;
use crate::operand::lemma_dec_val_step;
use crate::program::parse_program;
use crate::program::spec_parse_program;
use crate::text::is_digit_char;
use crate::text::digit_char;
use crate::text::str_eq;

verus! {

/// A section-header line: the marker character followed by one or more
/// decimal digits and nothing else.
pub open spec fn is_header_line(line: Seq<char>) -> bool {
    line.len() >= 2 && line[0] == '@' && all_digits(line.drop_first())
}

/// The section number a header line names.
pub open spec fn header_num(line: Seq<char>) -> int {
    dec_val(line.drop_first())
}

/// The highest section number a document may name.
pub open spec fn max_section() -> int {
    11
}

/// The rest of the document from line `i`, with `next` the section number
/// the next header must carry, `cur` the raw body gathered for the current
/// section and `programs` the sections already assembled.  A header ends
/// the current section: its number must be exactly `next` and at most 11,
/// the body must end with a blank line (consumed as a terminator), and the
/// body is assembled at once.  End of input ends the final section with no
/// terminator required.
pub open spec fn spec_parse_spec_rec(
    lines: Seq<Seq<char>>,
    i: int,
    next: int,
    cur: Seq<Seq<char>>,
    programs: Seq<ProgramView>,
) -> Result<SpecView, ErrorView>
    decreases lines.len() - i,
{
    if i < 0 || i >= lines.len() {
        match spec_parse_program(cur) {
            Err(e) => Err(e),
            Ok(p) => Ok(SpecView { programs: programs.push(p) }),
        }
    } else if is_header_line(lines[i]) {
        if header_num(lines[i]) != next || header_num(lines[i]) > max_section() {
            Err(ErrorView::SectionSequence { expected: next, found: lines[i] })
        } else if cur.len() == 0 || cur.last().len() != 0 {
            Err(ErrorView::SectionTermination { section: next - 1 })
        } else {
            match spec_parse_program(cur.drop_last()) {
                Err(e) => Err(e),
                Ok(p) => spec_parse_spec_rec(lines, i + 1, next + 1, Seq::empty(), programs.push(p)),
            }
        }
    } else {
        spec_parse_spec_rec(lines, i + 1, next, cur.push(lines[i]), programs)
    }
}

/// The spec denoted by a whole document: its first line must be the
/// section-0 header, and the remaining lines are split into sections and
/// assembled in order.
pub open spec fn spec_parse_spec(lines: Seq<Seq<char>>) -> Result<SpecView, ErrorView> {
    if lines.len() == 0 || lines[0] != "@0"@ {
        Err(
            ErrorView::Header {
                found: if lines.len() == 0 {
                    Seq::empty()
                } else {
                    lines[0]
                },
            },
        )
    } else {
        spec_parse_spec_rec(lines, 1, 1, Seq::empty(), Seq::empty())
    }
}

/// Recognises a section-header line.
fn is_header(line: &str) -> (r: bool)
    ensures
        r == is_header_line(line@),
{
    let n = line.unicode_len();
    if n < 2 {
        return false;
    }
    if line.get_char(0) != '@' {
        return false;
    }
    let ghost ds = line@.drop_first();
    let mut k: usize = 1;
    while k < n
        invariant
            n == line@.len(),
            1 <= k <= n,
            ds == line@.drop_first(),
            forall|j: int| 0 <= j < k - 1 ==> is_digit_char(#[trigger] ds[j]),
        decreases n - k,
    {
        proof {
            assert(ds[k - 1] == line@[k as int]);
        }
        if !digit_char(line.get_char(k)) {
            return false;
        }
        k = k + 1;
    }
    true
}

/// Decides whether a header line names exactly the section number
/// `expected`.
fn header_num_is(line: &str, expected: u32) -> (r: bool)
    requires
        is_header_line(line@),
        expected <= 12,
    ensures
        r == (header_num(line@) == expected),
{
    let ghost ds = line@.drop_first();
    let n = line.unicode_len();
    let mut m: u32 = 0;
    let mut k: usize = 1;
    proof {
        assert(ds.take(0) =~= Seq::<char>::empty());
    }
    while k < n
        invariant
            n == line@.len(),
            is_header_line(line@),
            expected <= 12,
            1 <= k <= n,
            ds == line@.drop_first(),
            m <= 12,
            m as int == dec_val(ds.take(k - 1)),
        decreases n - k,
    {
        let c = line.get_char(k);
        proof {
            assert(ds[k - 1] == line@[k as int]);
            assert(is_digit_char(ds[k - 1]));
            lemma_dec_val_step(ds, k - 1);
        }
        let d: u32 = c as u32 - 48;
        let m2: u32 = m * 10 + d;
        if m2 > 12 {
            proof {
                lemma_dec_val_prefix(ds, k as int);
                assert(dec_val(ds) >= dec_val(ds.take(k - 1 + 1)));
                assert(ds.take(k - 1 + 1) =~= ds.take(k as int));
                assert(dec_val(ds) > 12);
            }
            return false;
        }
        m = m2;
        k = k + 1;
    }
    proof {
        assert(ds.take(n - 1) =~= ds);
    }
    m == expected
}

/// Parses a whole document — its lines, in order — into a `Spec`.
pub fn parse_spec(lines: &Vec<String>) -> (r: Result<Spec, ParseError>)
    ensures
        match spec_parse_spec(lines.deep_view()) {
            Ok(sv) => r matches Ok(s) && s@ == sv,
            Err(ev) => r matches Err(e) && e@ == ev,
        },
{
    let ghost ld = lines.deep_view();
    if lines.len() == 0 {
        return Err(ParseError::Header { found: String::new() });
    }
    proof {
        assert(ld[0] == lines@[0]@);
    }
    if !str_eq(lines[0].as_str(), "@0") {
        return Err(ParseError::Header { found: lines[0].clone() });
    }
    let mut programs: Vec<Program> = Vec::new();
    let mut cur: Vec<String> = Vec::new();
    let mut next: u32 = 1;
    let mut i: usize = 1;
    proof {
        assert(cur.deep_view() =~= Seq::<Seq<char>>::empty());
        assert(programs.deep_view() =~= Seq::<ProgramView>::empty());
    }
    while i < lines.len()
        invariant
            1 <= i <= lines.len(),
            1 <= next <= 12,
            ld == lines.deep_view(),
            spec_parse_spec_rec(ld, i as int, next as int, cur.deep_view(), programs.deep_view())
                == spec_parse_spec(ld),
        decreases lines.len() - i,
    {
        proof {
            assert(ld[i as int] == lines@[i as int]@);
        }
        if is_header(lines[i].as_str()) {
            if !header_num_is(lines[i].as_str(), next) || next > 11 {
                return Err(
                    ParseError::SectionSequence { expected: next, found: lines[i].clone() },
                );
            }
            if cur.len() == 0 {
                return Err(ParseError::SectionTermination { section: next - 1 });
            }
            proof {
                assert(cur.deep_view()[cur@.len() - 1] == cur@[cur@.len() - 1]@);
                assert(cur.deep_view().last() == cur@[cur@.len() - 1]@);
            }
            if !cur[cur.len() - 1].as_str().is_empty() {
                return Err(ParseError::SectionTermination { section: next - 1 });
            }
            let ghost old_cur = cur.deep_view();
            cur.pop();
            proof {
                assert(cur.deep_view() =~= old_cur.drop_last());
            }
            let p = match parse_program(&cur) {
                Err(e) => {
                    return Err(e);
                },
                Ok(p) => p,
            };
            let ghost old_programs = programs.deep_view();
            let ghost pv = p@;
            programs.push(p);
            proof {
                assert(programs.deep_view() =~= old_programs.push(pv));
            }
            cur.clear();
            proof {
                assert(cur.deep_view() =~= Seq::<Seq<char>>::empty());
            }
            next = next + 1;
        } else {
            let ghost old_cur = cur.deep_view();
            cur.push(lines[i].clone());
            proof {
                assert(cur.deep_view() =~= old_cur.push(ld[i as int]));
            }
        }
        i = i + 1;
    }
    let p = match parse_program(&cur) {
        Err(e) => {
            return Err(e);
        },
        Ok(p) => p,
    };
    let ghost old_programs = programs.deep_view();
    let ghost pv = p@;
    programs.push(p);
    proof {
        assert(programs.deep_view() =~= old_programs.push(pv));
    }
    Ok(Spec { programs })
}

} // verus!
