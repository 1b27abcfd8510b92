//! Program assembly: turning the raw lines of one section body into a
//! `Program` — its retained instructions, each tagged with its position,
//! and its label table.

use vstd::prelude::*;
use vstd::string::*;

use crate::ast::Instr;
use crate::ast::InstrAndPos;
use crate::ast::InstrView;
use crate::ast::Program;
use crate::ast::ProgramView;
use crate::ast::is_retained;
use crate::ast::label_entries_view;
use crate::error::ErrorView;
use crate::error::ParseError;
use crate::line::get_label;
use crate::line::parse_line;
use crate::line::spec_get_label;
use crate::line::spec_parse_line;
use crate::text::str_eq;

verus! {

/// Whether the label table already holds `name`.
pub open spec fn labels_contain(labels: Seq<(Seq<char>, int)>, name: Seq<char>) -> bool {
    exists|k: int| 0 <= k < labels.len() && labels[k].0 == name
}

/// One section body turned into a program, starting from line `i` with the
/// instructions and labels gathered so far.  Each line's label is
/// registered first (a repeated name is a hard error), then the remainder
/// is parsed; comments and blank markers are dropped, every other
/// instruction is retained and tagged with its position.
pub open spec fn spec_parse_program_rec(
    lines: Seq<Seq<char>>,
    i: int,
    instrs: Seq<(InstrView, int)>,
    labels: Seq<(Seq<char>, int)>,
) -> Result<ProgramView, ErrorView>
    decreases lines.len() - i,
{
    if i < 0 || i >= lines.len() {
        Ok(ProgramView { instrs, labels })
    } else {
        let gl = spec_get_label(lines[i]);
        if gl.1 matches Some(l) && labels_contain(labels, l) {
            Err(ErrorView::DuplicateLabel { label: gl.1.unwrap() })
        } else {
            let labels2 = match gl.1 {
                Some(l) => labels.push((l, instrs.len() as int)),
                None => labels,
            };
            match spec_parse_line(gl.0) {
                Err(e) => Err(e),
                Ok(iv) => if is_retained(iv) {
                    spec_parse_program_rec(
                        lines,
                        i + 1,
                        instrs.push((iv, instrs.len() as int)),
                        labels2,
                    )
                } else {
                    spec_parse_program_rec(lines, i + 1, instrs, labels2)
                },
            }
        }
    }
}

/// The program denoted by the raw lines of one section body.
pub open spec fn spec_parse_program(lines: Seq<Seq<char>>) -> Result<ProgramView, ErrorView> {
    spec_parse_program_rec(lines, 0, Seq::empty(), Seq::empty())
}

/// Linear scan of the label table for a name.
fn has_label(labels: &Vec<(String, usize)>, name: &str) -> (r: bool)
    ensures
        r == labels_contain(label_entries_view(labels@), name@),
{
    let ghost lview = label_entries_view(labels@);
    let mut k: usize = 0;
    while k < labels.len()
        invariant
            k <= labels.len(),
            lview == label_entries_view(labels@),
            lview.len() == labels@.len(),
            forall|j: int| 0 <= j < k ==> #[trigger] lview[j].0 != name@,
        decreases labels.len() - k,
    {
        proof {
            assert(lview[k as int].0 == labels@[k as int].0@);
        }
        if str_eq(labels[k].0.as_str(), name) {
            return true;
        }
        k = k + 1;
    }
    false
}

/// Assembles the raw lines of one section body into a `Program`.
pub fn parse_program(lines: &Vec<String>) -> (r: Result<Program, ParseError>)
    ensures
        match spec_parse_program(lines.deep_view()) {
            Ok(pv) => r matches Ok(p) && p@ == pv,
            Err(ev) => r matches Err(e) && e@ == ev,
        },
{
    let ghost ld = lines.deep_view();
    let mut instrs: Vec<InstrAndPos> = Vec::new();
    let mut labels: Vec<(String, usize)> = Vec::new();
    let mut i: usize = 0;
    proof {
        assert(instrs.deep_view() =~= Seq::<(InstrView, int)>::empty());
        assert(label_entries_view(labels@) =~= Seq::<(Seq<char>, int)>::empty());
    }
    while i < lines.len()
        invariant
            i <= lines.len(),
            ld == lines.deep_view(),
            spec_parse_program_rec(ld, i as int, instrs.deep_view(), label_entries_view(labels@))
                == spec_parse_program(ld),
        decreases lines.len() - i,
    {
        proof {
            assert(ld[i as int] == lines@[i as int]@);
        }
        let (rest, lbl) = get_label(lines[i].as_str());
        let ghost gl = spec_get_label(ld[i as int]);
        match lbl {
            Some(l) => {
                if has_label(&labels, l) {
                    return Err(ParseError::DuplicateLabel { label: l.to_owned() });
                }
                let ghost old_labels = label_entries_view(labels@);
                labels.push((l.to_owned(), instrs.len()));
                proof {
                    assert(instrs.deep_view().len() == instrs@.len());
                    assert(label_entries_view(labels@) =~= old_labels.push(
                        (l@, instrs.deep_view().len() as int),
                    ));
                }
            },
            None => {},
        }
        match parse_line(rest) {
            Err(e) => {
                return Err(e);
            },
            Ok(instr) => {
                match instr {
                    Instr::Comment(_) => {},
                    Instr::Emptyline => {},
                    keep => {
                        let ghost old_instrs = instrs.deep_view();
                        let ghost iv = keep@;
                        let pos = instrs.len();
                        proof {
                            assert(old_instrs.len() == instrs@.len());
                        }
                        instrs.push(InstrAndPos { instr: keep, pos });
                        proof {
                            assert(instrs.deep_view() =~= old_instrs.push(
                                (iv, old_instrs.len() as int),
                            ));
                        }
                    },
                }
            },
        }
        i = i + 1;
    }
    Ok(Program { instrs, labels })
}

} // verus!
