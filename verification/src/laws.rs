//! Document-level guarantees, stated and proved once and for all: keyword
//! completeness of location parsing, round-tripping of literals, the
//! header requirement, sequencing and termination failures at the first
//! misplaced header, well-formedness of every assembled program, and the
//! program count of a successful parse.

use vstd::prelude::*;

use crate::assemble::header_num;
use crate::assemble::is_header_line;
use crate::assemble::max_section;
use crate::assemble::spec_parse_spec;
use crate::assemble::spec_parse_spec_rec;
use crate::ast::InstrView;
use crate::ast::Loc;
use crate::ast::ProgramView;
use crate::ast::SpecView;
use crate::error::ErrorView;
use crate::operand::all_digits;
use crate::operand::dec_val;
use crate::operand::digit_val;
use crate::operand::spec_parse_i16;
use crate::operand::spec_parse_loc;
use crate::program::labels_contain;
use crate::program::spec_parse_program;
use crate::program::spec_parse_program_rec;
use crate::text::is_digit_char;

verus! {

broadcast use vstd::string::group_string_axioms;

/// Each of the six location keywords parses to its own variant, and no
/// other token parses to a location at all.
pub proof fn lemma_parse_loc_keywords(t: Seq<char>)
    ensures
        spec_parse_loc("LEFT"@) == Some(Loc::Left),
        spec_parse_loc("RIGHT"@) == Some(Loc::Right),
        spec_parse_loc("UP"@) == Some(Loc::Up),
        spec_parse_loc("DOWN"@) == Some(Loc::Down),
        spec_parse_loc("ACC"@) == Some(Loc::Acc),
        spec_parse_loc("LAST"@) == Some(Loc::Last),
        spec_parse_loc(t) is Some ==> t == "LEFT"@ || t == "RIGHT"@ || t == "UP"@ || t == "DOWN"@
            || t == "ACC"@ || t == "LAST"@,
{
    reveal_strlit("LEFT");
    reveal_strlit("RIGHT");
    reveal_strlit("UP");
    reveal_strlit("DOWN");
    reveal_strlit("ACC");
    reveal_strlit("LAST");
    assert("LEFT"@.len() == 4 && "RIGHT"@.len() == 5 && "UP"@.len() == 2 && "DOWN"@.len() == 4
        && "ACC"@.len() == 3 && "LAST"@.len() == 4);
    assert("LEFT"@[0] == 'L' && "DOWN"@[0] == 'D' && "LAST"@[0] == 'L');
    assert("LEFT"@[1] == 'E' && "LAST"@[1] == 'A');
}

/// The canonical decimal digits of a nonnegative integer, most significant
/// first.
pub open spec fn dec_digits(n: nat) -> Seq<char>
    decreases n,
{
    if n < 10 {
        seq![digit_char_of(n)]
    } else {
        dec_digits(n / 10).push(digit_char_of(n % 10))
    }
}

/// The digit character for a value below ten.
pub open spec fn digit_char_of(d: nat) -> char {
    if d == 0 {
        '0'
    } else if d == 1 {
        '1'
    } else if d == 2 {
        '2'
    } else if d == 3 {
        '3'
    } else if d == 4 {
        '4'
    } else if d == 5 {
        '5'
    } else if d == 6 {
        '6'
    } else if d == 7 {
        '7'
    } else if d == 8 {
        '8'
    } else {
        '9'
    }
}

/// For values below ten, `digit_char_of` yields a digit character whose
/// numeric value is the value itself.
proof fn lemma_digit_char_of(d: nat)
    requires
        d < 10,
    ensures
        is_digit_char(digit_char_of(d)),
        digit_val(digit_char_of(d)) == d,
{
}

/// The canonical decimal numeral of an integer: a minus sign for negative
/// values, then the digits of its magnitude.
pub open spec fn dec_numeral(v: int) -> Seq<char> {
    if v < 0 {
        seq!['-'] + dec_digits((-v) as nat)
    } else {
        dec_digits(v as nat)
    }
}

proof fn lemma_dec_digits_shape(n: nat)
    ensures
        dec_digits(n).len() >= 1,
        all_digits(dec_digits(n)),
        dec_val(dec_digits(n)) == n,
    decreases n,
{
    if n < 10 {
        lemma_digit_char_of(n);
        assert(dec_val(Seq::<char>::empty()) == 0);
        assert(dec_digits(n).drop_last() =~= Seq::<char>::empty());
        assert(dec_digits(n).last() == digit_char_of(n));
    } else {
        lemma_dec_digits_shape(n / 10);
        lemma_digit_char_of(n % 10);
        let s = dec_digits(n);
        assert(s.drop_last() =~= dec_digits(n / 10));
        assert(s.last() == digit_char_of(n % 10));
        assert(all_digits(s)) by {
            assert(forall|k: int| 0 <= k < s.len() - 1 ==> s[k] == dec_digits(n / 10)[k]);
        };
        assert(dec_val(s) == dec_val(dec_digits(n / 10)) * 10 + digit_val(s.last()));
        assert(n / 10 * 10 + n % 10 == n) by (nonlinear_arith);
    }
}

/// Every integer representable in signed 16 bits round-trips: parsing its
/// canonical decimal numeral yields the integer back.
pub proof fn lemma_parse_lit_round_trip(v: i16)
    ensures
        spec_parse_i16(dec_numeral(v as int)) == Some(v as int),
{
    let t = dec_numeral(v as int);
    if v < 0 {
        let m = (-(v as int)) as nat;
        lemma_dec_digits_shape(m);
        assert(t[0] == '-');
        assert(t.drop_first() =~= dec_digits(m));
    } else {
        let m = (v as int) as nat;
        lemma_dec_digits_shape(m);
        assert(t =~= dec_digits(m));
        assert(is_digit_char(t[0]));
        assert(t[0] as u32 != 45 && t[0] as u32 != 43);
        assert(t[0] != '-' && t[0] != '+') by {
            assert('-' as u32 == 45 && '+' as u32 == 43);
        };
    }
}

/// A document that does not open with the section-0 header fails with a
/// header error, whatever else it holds.
pub proof fn lemma_header_required(lines: Seq<Seq<char>>)
    requires
        lines.len() == 0 || lines[0] != "@0"@,
    ensures
        spec_parse_spec(lines) matches Err(e) && e is Header,
{
}

/// Collecting body lines does not fail: parsing from line `i` with no
/// header before line `j` is parsing from line `j` with those lines added
/// to the current section body.
proof fn lemma_collect(
    lines: Seq<Seq<char>>,
    i: int,
    j: int,
    next: int,
    cur: Seq<Seq<char>>,
    programs: Seq<ProgramView>,
)
    requires
        0 <= i <= j <= lines.len(),
        forall|k: int| i <= k < j ==> !is_header_line(#[trigger] lines[k]),
    ensures
        spec_parse_spec_rec(lines, i, next, cur, programs) == spec_parse_spec_rec(
            lines,
            j,
            next,
            cur + lines.subrange(i, j),
            programs,
        ),
    decreases j - i,
{
    if i == j {
        assert(cur + lines.subrange(i, i) =~= cur);
    } else {
        assert(!is_header_line(lines[i]));
        lemma_collect(lines, i + 1, j, next, cur.push(lines[i]), programs);
        assert(cur.push(lines[i]) + lines.subrange(i + 1, j) =~= cur + lines.subrange(i, j));
    }
}

/// If the first header line after the opening `@0` does not name section
/// 1, the parse fails with a section-sequence error carrying that line.
pub proof fn lemma_section_sequence_error(lines: Seq<Seq<char>>, j: int)
    requires
        lines.len() > 0,
        lines[0] == "@0"@,
        1 <= j < lines.len(),
        is_header_line(lines[j]),
        forall|k: int| 1 <= k < j ==> !is_header_line(#[trigger] lines[k]),
        header_num(lines[j]) != 1,
    ensures
        spec_parse_spec(lines) == Result::<SpecView, ErrorView>::Err(
            ErrorView::SectionSequence { expected: 1, found: lines[j] },
        ),
{
    lemma_collect(lines, 1, j, 1, Seq::empty(), Seq::empty());
    assert(Seq::<Seq<char>>::empty() + lines.subrange(1, j) =~= lines.subrange(1, j));
}

/// If the first header after the opening `@0` names section 1 but the
/// body before it is empty or does not end with a blank line, the parse
/// fails with a termination error for section 0.
pub proof fn lemma_section_termination_error(lines: Seq<Seq<char>>, j: int)
    requires
        lines.len() > 0,
        lines[0] == "@0"@,
        1 <= j < lines.len(),
        is_header_line(lines[j]),
        forall|k: int| 1 <= k < j ==> !is_header_line(#[trigger] lines[k]),
        header_num(lines[j]) == 1,
        j == 1 || lines[j - 1].len() != 0,
    ensures
        spec_parse_spec(lines) == Result::<SpecView, ErrorView>::Err(
            ErrorView::SectionTermination { section: 0 },
        ),
{
    lemma_collect(lines, 1, j, 1, Seq::empty(), Seq::empty());
    let cur = lines.subrange(1, j);
    assert(Seq::<Seq<char>>::empty() + cur =~= cur);
    assert(header_num(lines[j]) <= max_section());
    if j > 1 {
        assert(cur.last() == lines[j - 1]);
    }
}

/// Assembling a section body onto a well-formed partial program yields a
/// well-formed program: labels stay pairwise distinct, label indices stay
/// within the instruction count, and every retained instruction carries
/// its own index.
proof fn lemma_parse_program_rec_wf(
    lines: Seq<Seq<char>>,
    i: int,
    instrs: Seq<(InstrView, int)>,
    labels: Seq<(Seq<char>, int)>,
)
    requires
        (ProgramView { instrs, labels }).wf(),
    ensures
        spec_parse_program_rec(lines, i, instrs, labels) matches Ok(p) ==> p.wf(),
    decreases lines.len() - i,
{
    let p0 = ProgramView { instrs, labels };
    assert(p0.wf());
    assert(p0.labels == labels);
    assert(p0.instrs == instrs);
    if 0 <= i < lines.len() {
        let gl = crate::line::spec_get_label(lines[i]);
        if !(gl.1 matches Some(l) && labels_contain(labels, l)) {
            let labels2 = match gl.1 {
                Some(l) => labels.push((l, instrs.len() as int)),
                None => labels,
            };
            match gl.1 {
                Some(l) => {
                    assert(!labels_contain(labels, l));
                    assert(labels2 == labels.push((l, instrs.len() as int)));
                    assert forall|k1: int, k2: int|
                        0 <= k1 < k2 < labels2.len() implies labels2[k1].0 != labels2[k2].0 by {
                        if k2 == labels.len() {
                            assert(labels2[k1] == labels[k1]);
                            assert(labels2[k2].0 == l);
                            if labels[k1].0 == l {
                                assert(labels_contain(labels, l));
                            }
                        } else {
                            assert(labels2[k1] == labels[k1]);
                            assert(labels2[k2] == labels[k2]);
                        }
                    }
                    assert forall|k: int|
                        0 <= k < labels2.len() implies 0 <= #[trigger] labels2[k].1
                        <= instrs.len() by {
                        if k < labels.len() {
                            assert(labels2[k] == labels[k]);
                        } else {
                            assert(labels2[k].1 == instrs.len() as int);
                        }
                    }
                },
                None => {},
            }
            let q = ProgramView { instrs, labels: labels2 };
            assert(q.labels == labels2);
            assert(q.instrs == instrs);
            assert(q.wf());
            match crate::line::spec_parse_line(gl.0) {
                Err(_) => {},
                Ok(iv) => if crate::ast::is_retained(iv) {
                    let instrs2 = instrs.push((iv, instrs.len() as int));
                    assert forall|k: int|
                        0 <= k < instrs2.len() implies #[trigger] instrs2[k].1 == k
                        && crate::ast::is_retained(instrs2[k].0) by {
                        if k < instrs.len() {
                            assert(instrs2[k] == instrs[k]);
                        } else {
                            assert(instrs2[k] == (iv, instrs.len() as int));
                        }
                    }
                    assert forall|k: int|
                        0 <= k < labels2.len() implies 0 <= #[trigger] labels2[k].1
                        <= instrs2.len() by {
                        assert(0 <= labels2[k].1 <= instrs.len());
                    }
                    let q2 = ProgramView { instrs: instrs2, labels: labels2 };
                    assert(q2.labels == labels2);
                    assert(q2.instrs == instrs2);
                    assert(q2.wf());
                    lemma_parse_program_rec_wf(lines, i + 1, instrs2, labels2);
                } else {
                    lemma_parse_program_rec_wf(lines, i + 1, instrs, labels2);
                },
            }
        }
    }
}

/// Every successfully assembled program is well formed; in particular two
/// identical labels within one section body can never both be registered.
pub proof fn lemma_parse_program_wf(lines: Seq<Seq<char>>)
    ensures
        spec_parse_program(lines) matches Ok(p) ==> p.wf(),
{
    assert((ProgramView { instrs: Seq::empty(), labels: Seq::empty() }).wf());
    lemma_parse_program_rec_wf(lines, 0, Seq::empty(), Seq::empty());
}

/// The number of header lines at or after line `i`.
pub open spec fn count_headers(lines: Seq<Seq<char>>, i: int) -> int
    decreases lines.len() - i,
{
    if i < 0 || i >= lines.len() {
        0
    } else {
        (if is_header_line(lines[i]) {
            1int
        } else {
            0int
        }) + count_headers(lines, i + 1)
    }
}

proof fn lemma_rec_program_count(
    lines: Seq<Seq<char>>,
    i: int,
    next: int,
    cur: Seq<Seq<char>>,
    programs: Seq<ProgramView>,
)
    requires
        0 <= i,
    ensures
        spec_parse_spec_rec(lines, i, next, cur, programs) matches Ok(sv)
            ==> sv.programs.len() == programs.len() + 1 + count_headers(lines, i),
    decreases lines.len() - i,
{
    if i < lines.len() {
        if is_header_line(lines[i]) {
            if header_num(lines[i]) == next && header_num(lines[i]) <= max_section()
                && cur.len() > 0 && cur.last().len() == 0 {
                match spec_parse_program(cur.drop_last()) {
                    Err(_) => {},
                    Ok(p) => {
                        lemma_rec_program_count(lines, i + 1, next + 1, Seq::empty(),
                            programs.push(p));
                    },
                }
            }
        } else {
            lemma_rec_program_count(lines, i + 1, next, cur.push(lines[i]), programs);
        }
    }
}

/// A successful parse yields exactly one program per section: one for the
/// opening section and one for each later header line.
pub proof fn lemma_program_count(lines: Seq<Seq<char>>)
    ensures
        spec_parse_spec(lines) matches Ok(sv) ==> sv.programs.len() == 1 + count_headers(lines, 1),
{
    if !(lines.len() == 0 || lines[0] != "@0"@) {
        lemma_rec_program_count(lines, 1, 1, Seq::empty(), Seq::empty());
    }
}

proof fn lemma_rec_programs_wf(
    lines: Seq<Seq<char>>,
    i: int,
    next: int,
    cur: Seq<Seq<char>>,
    programs: Seq<ProgramView>,
)
    requires
        forall|k: int| 0 <= k < programs.len() ==> (#[trigger] programs[k]).wf(),
    ensures
        spec_parse_spec_rec(lines, i, next, cur, programs) matches Ok(sv) ==> forall|k: int|
            0 <= k < sv.programs.len() ==> (#[trigger] sv.programs[k]).wf(),
    decreases lines.len() - i,
{
    if i < 0 || i >= lines.len() {
        match spec_parse_program(cur) {
            Err(_) => {},
            Ok(p) => {
                lemma_parse_program_wf(cur);
                let ps = programs.push(p);
                assert forall|k: int| 0 <= k < ps.len() implies (#[trigger] ps[k]).wf() by {
                    if k < programs.len() {
                        assert(ps[k] == programs[k]);
                    } else {
                        assert(ps[k] == p);
                    }
                }
            },
        }
    } else if is_header_line(lines[i]) {
        if header_num(lines[i]) == next && header_num(lines[i]) <= max_section() && cur.len() > 0
            && cur.last().len() == 0 {
            match spec_parse_program(cur.drop_last()) {
                Err(_) => {},
                Ok(p) => {
                    lemma_parse_program_wf(cur.drop_last());
                    let ps = programs.push(p);
                    assert forall|k: int| 0 <= k < ps.len() implies (#[trigger] ps[k]).wf() by {
                        if k < programs.len() {
                            assert(ps[k] == programs[k]);
                        } else {
                            assert(ps[k] == p);
                        }
                    }
                    lemma_rec_programs_wf(lines, i + 1, next + 1, Seq::empty(), ps);
                },
            }
        }
    } else {
        lemma_rec_programs_wf(lines, i + 1, next, cur.push(lines[i]), programs);
    }
}

/// Every program of a successful parse is well formed on its own: label
/// uniqueness and positions are per-program guarantees, so a label name
/// may recur across sections while never recurring within one.
pub proof fn lemma_spec_programs_wf(lines: Seq<Seq<char>>)
    ensures
        spec_parse_spec(lines) matches Ok(sv) ==> forall|k: int|
            0 <= k < sv.programs.len() ==> (#[trigger] sv.programs[k]).wf(),
{
    if !(lines.len() == 0 || lines[0] != "@0"@) {
        lemma_rec_programs_wf(lines, 1, 1, Seq::empty(), Seq::empty());
    }
}

} // verus!
