//! Line-level parsing: label extraction and the instruction grammar for a
//! single line.

use vstd::prelude::*;
use vstd::string::*;

use crate::ast::Instr;
use crate::ast::InstrView;
use crate::error::ErrorView;
use crate::error::OperandIssue;
use crate::error::ParseError;
use crate::operand::spec_parse_loc;
use crate::operand::spec_parse_source;
use crate::operand::parse_loc;
use crate::operand::parse_source;
use crate::text::is_space_char;
use crate::text::space_char;
use crate::text::spec_tokens;
use crate::text::str_eq;
use crate::text::tokenize;

verus! {

/// Index of the first colon in `s`, if any.
pub open spec fn first_colon(s: Seq<char>) -> Option<int>
    decreases s.len(),
{
    if s.len() == 0 {
        None
    } else if s[0] == ':' {
        Some(0)
    } else {
        match first_colon(s.drop_first()) {
            Some(i) => Some(i + 1),
            None => None,
        }
    }
}

/// `first_colon` finds the first colon: the returned index holds a colon
/// and nothing before it does; `None` means there is no colon at all.
pub proof fn lemma_first_colon(s: Seq<char>)
    ensures
        match first_colon(s) {
            Some(i) => 0 <= i < s.len() && s[i] == ':' && forall|j: int|
                0 <= j < i ==> s[j] != ':',
            None => forall|j: int| 0 <= j < s.len() ==> s[j] != ':',
        },
    decreases s.len(),
{
    if s.len() > 0 && s[0] != ':' {
        lemma_first_colon(s.drop_first());
        match first_colon(s.drop_first()) {
            Some(i) => {
                assert(s[i + 1] == s.drop_first()[i]);
                assert forall|j: int| 0 <= j < i + 1 implies s[j] != ':' by {
                    if j >= 1 {
                        assert(s[j] == s.drop_first()[j - 1]);
                    }
                }
            },
            None => {
                assert forall|j: int| 0 <= j < s.len() implies s[j] != ':' by {
                    if j >= 1 {
                        assert(s[j] == s.drop_first()[j - 1]);
                    }
                }
            },
        }
    }
}

/// Label extraction.  If the line has a colon and no whitespace stands
/// before the first one, the text before that colon is the label and the
/// text after it is the remainder; otherwise the line passes through
/// unchanged with no label.
pub open spec fn spec_get_label(s: Seq<char>) -> (Seq<char>, Option<Seq<char>>) {
    match first_colon(s) {
        None => (s, None),
        Some(i) => if exists|j: int| 0 <= j < i && is_space_char(#[trigger] s[j]) {
            (s, None)
        } else {
            (s.skip(i + 1), Some(s.take(i)))
        },
    }
}

/// Splits an optional leading `label:` prefix off a raw line, returning
/// the line to parse further and the label, if one is present.
pub fn get_label(line: &str) -> (r: (&str, Option<&str>))
    ensures
        r.0@ == spec_get_label(line@).0,
        match r.1 {
            Some(l) => spec_get_label(line@).1 == Some(l@),
            None => spec_get_label(line@).1 is None,
        },
{
    proof {
        lemma_first_colon(line@);
    }
    let n = line.unicode_len();
    let mut i: usize = 0;
    while i < n && line.get_char(i) != ':'
        invariant
            n == line@.len(),
            i <= n,
            forall|j: int| 0 <= j < i ==> line@[j] != ':',
        decreases n - i,
    {
        i = i + 1;
    }
    if i == n {
        // no colon at all
        return (line, None);
    }
    assert(line@[i as int] == ':');
    assert(first_colon(line@) == Some(i as int)) by {
        lemma_first_colon(line@);
    };
    let mut j: usize = 0;
    while j < i
        invariant
            n == line@.len(),
            i < n,
            j <= i,
            first_colon(line@) == Some(i as int),
            forall|k: int| 0 <= k < j ==> !is_space_char(line@[k]),
        decreases i - j,
    {
        if space_char(line.get_char(j)) {
            return (line, None);
        }
        j = j + 1;
    }
    let label = line.substring_char(0, i);
    let rest = line.substring_char(i + 1, n);
    proof {
        assert(label@ =~= line@.take(i as int));
        assert(rest@ =~= line@.skip(i + 1));
    }
    (rest, Some(label))
}

/// A `MOV` source token must end with a comma; stripping it leaves the
/// operand to parse.
pub open spec fn spec_eat_comma(t: Seq<char>) -> Option<Seq<char>> {
    if t.len() > 0 && t.last() == ',' {
        Some(t.drop_last())
    } else {
        None
    }
}

/// Strips the required trailing comma from a `MOV` source token.
pub fn eat_comma(s: &str) -> (r: Result<&str, ParseError>)
    ensures
        match spec_eat_comma(s@) {
            Some(t) => r matches Ok(x) && x@ == t,
            None => r matches Err(e) && e@ == (ErrorView::OperandSyntax {
                issue: OperandIssue::MovNoComma,
            }),
        },
{
    let n = s.unicode_len();
    if n == 0 {
        return Err(ParseError::OperandSyntax { issue: OperandIssue::MovNoComma });
    }
    if s.get_char(n - 1) != ',' {
        return Err(ParseError::OperandSyntax { issue: OperandIssue::MovNoComma });
    }
    let out = s.substring_char(0, n - 1);
    proof {
        assert(out@ =~= s@.drop_last());
    }
    Ok(out)
}

/// The `MOV` grammar over the operand tokens that follow the mnemonic:
/// a source token carrying a trailing comma, then a destination location.
pub open spec fn spec_parse_mov(args: Seq<Seq<char>>) -> Result<InstrView, ErrorView> {
    if args.len() == 0 {
        Err(ErrorView::OperandSyntax { issue: OperandIssue::MovNoSource })
    } else {
        match spec_eat_comma(args[0]) {
            None => Err(ErrorView::OperandSyntax { issue: OperandIssue::MovNoComma }),
            Some(st) => match spec_parse_source(st) {
                None => Err(ErrorView::InvalidOperand { token: st }),
                Some(src) => if args.len() < 2 {
                    Err(ErrorView::OperandSyntax { issue: OperandIssue::MovNoDest })
                } else {
                    match spec_parse_loc(args[1]) {
                        None => Err(ErrorView::InvalidOperand { token: args[1] }),
                        Some(dst) => Ok(InstrView::Mov(src, dst)),
                    }
                },
            },
        }
    }
}

/// Parses the operand tokens of a `MOV` instruction (the tokens after the
/// mnemonic itself).
pub fn parse_mov(args: &Vec<String>) -> (r: Result<Instr, ParseError>)
    ensures
        match spec_parse_mov(args.deep_view()) {
            Ok(iv) => r matches Ok(i) && i@ == iv,
            Err(ev) => r matches Err(e) && e@ == ev,
        },
{
    if args.len() == 0 {
        return Err(ParseError::OperandSyntax { issue: OperandIssue::MovNoSource });
    }
    proof {
        assert(args.deep_view()[0] == args@[0]@);
    }
    let st = match eat_comma(args[0].as_str()) {
        Ok(t) => t,
        Err(e) => {
            return Err(e);
        },
    };
    let src = match parse_source(st) {
        Ok(s) => s,
        Err(e) => {
            return Err(e);
        },
    };
    if args.len() < 2 {
        return Err(ParseError::OperandSyntax { issue: OperandIssue::MovNoDest });
    }
    proof {
        assert(args.deep_view()[1] == args@[1]@);
    }
    let dst = match parse_loc(args[1].as_str()) {
        Ok(l) => l,
        Err(e) => {
            return Err(e);
        },
    };
    Ok(Instr::Mov(src, dst))
}

/// The comment text of a comment line: all its tokens rejoined with single
/// spaces.
pub open spec fn spec_join_spaces(toks: Seq<Seq<char>>) -> Seq<char>
    decreases toks.len(),
{
    if toks.len() == 0 {
        Seq::empty()
    } else if toks.len() == 1 {
        toks[0]
    } else {
        spec_join_spaces(toks.drop_last()) + seq![' '] + toks.last()
    }
}

/// The instruction denoted by one line (already stripped of any label
/// prefix): the grammar of the whole language, one line at a time.
pub open spec fn spec_parse_line(line: Seq<char>) -> Result<InstrView, ErrorView> {
    let toks = spec_tokens(line);
    if toks.len() == 0 {
        Ok(InstrView::Emptyline)
    } else {
        let kw = toks[0];
        if kw == "NOP"@ {
            Ok(InstrView::Nop)
        } else if kw == "MOV"@ {
            spec_parse_mov(toks.drop_first())
        } else if kw == "SWP"@ {
            Ok(InstrView::Swp)
        } else if kw == "SAV"@ {
            Ok(InstrView::Sav)
        } else if kw == "ADD"@ {
            if toks.len() < 2 {
                Err(ErrorView::OperandSyntax { issue: OperandIssue::AddNoSource })
            } else {
                match spec_parse_source(toks[1]) {
                    Some(s) => Ok(InstrView::Add(s)),
                    None => Err(ErrorView::InvalidOperand { token: toks[1] }),
                }
            }
        } else if kw == "SUB"@ {
            if toks.len() < 2 {
                Err(ErrorView::OperandSyntax { issue: OperandIssue::SubNoSource })
            } else {
                match spec_parse_source(toks[1]) {
                    Some(s) => Ok(InstrView::Sub(s)),
                    None => Err(ErrorView::InvalidOperand { token: toks[1] }),
                }
            }
        } else if kw == "NEG"@ {
            Ok(InstrView::Neg)
        } else if kw == "JMP"@ {
            if toks.len() < 2 {
                Err(ErrorView::OperandSyntax { issue: OperandIssue::JmpNoLabel })
            } else {
                Ok(InstrView::Jmp(toks[1]))
            }
        } else if kw == "JEZ"@ {
            if toks.len() < 2 {
                Err(ErrorView::OperandSyntax { issue: OperandIssue::JezNoLabel })
            } else {
                Ok(InstrView::Jez(toks[1]))
            }
        } else if kw == "JNZ"@ {
            if toks.len() < 2 {
                Err(ErrorView::OperandSyntax { issue: OperandIssue::JnzNoLabel })
            } else {
                Ok(InstrView::Jnz(toks[1]))
            }
        } else if kw == "JGZ"@ {
            if toks.len() < 2 {
                Err(ErrorView::OperandSyntax { issue: OperandIssue::JgzNoLabel })
            } else {
                Ok(InstrView::Jgz(toks[1]))
            }
        } else if kw == "JLZ"@ {
            if toks.len() < 2 {
                Err(ErrorView::OperandSyntax { issue: OperandIssue::JlzNoLabel })
            } else {
                Ok(InstrView::Jlz(toks[1]))
            }
        } else if kw == "JRO"@ {
            if toks.len() < 2 {
                Err(ErrorView::OperandSyntax { issue: OperandIssue::JroNoSource })
            } else {
                match spec_parse_source(toks[1]) {
                    Some(s) => Ok(InstrView::Jro(s)),
                    None => Err(ErrorView::InvalidOperand { token: toks[1] }),
                }
            }
        } else if kw.len() > 0 && kw[0] == '#' {
            Ok(InstrView::Comment(spec_join_spaces(toks)))
        } else {
            Err(ErrorView::UnknownInstruction { token: kw })
        }
    }
}

/// Rejoins all tokens of a comment line with single spaces.
fn join_spaces(toks: &Vec<String>) -> (r: String)
    requires
        toks.len() > 0,
    ensures
        r@ == spec_join_spaces(toks.deep_view()),
{
    proof {
        assert(toks.deep_view()[0] == toks@[0]@);
        assert(toks.deep_view().take(1) =~= seq![toks.deep_view()[0]]);
        assert(spec_join_spaces(toks.deep_view().take(1)) == toks.deep_view()[0]);
    }
    let mut acc: String = toks[0].clone();
    let mut k: usize = 1;
    while k < toks.len()
        invariant
            1 <= k <= toks.len(),
            acc@ == spec_join_spaces(toks.deep_view().take(k as int)),
        decreases toks.len() - k,
    {
        proof {
            assert(toks.deep_view().take(k + 1).drop_last() =~= toks.deep_view().take(k as int));
            assert(toks.deep_view().take(k + 1).last() == toks@[k as int]@);
        }
        acc.append(" ");
        proof {
            reveal_strlit(" ");
            assert(" "@ =~= seq![' ']);
        }
        acc.append(toks[k].as_str());
        k = k + 1;
    }
    proof {
        assert(toks.deep_view().take(toks.len() as int) =~= toks.deep_view());
    }
    acc
}

/// Parses one logical line (after label extraction) into an instruction
/// or a structural marker.
pub fn parse_line(line: &str) -> (r: Result<Instr, ParseError>)
    ensures
        match spec_parse_line(line@) {
            Ok(iv) => r matches Ok(i) && i@ == iv,
            Err(ev) => r matches Err(e) && e@ == ev,
        },
{
    let toks = tokenize(line);
    if toks.len() == 0 {
        return Ok(Instr::Emptyline);
    }
    proof {
        assert(toks.deep_view()[0] == toks@[0]@);
    }
    let kw = toks[0].as_str();
    if str_eq(kw, "NOP") {
        Ok(Instr::Nop)
    } else if str_eq(kw, "MOV") {
        let mut rest: Vec<String> = Vec::new();
        let mut k: usize = 1;
        while k < toks.len()
            invariant
                1 <= k <= toks.len(),
                rest.deep_view() =~= toks.deep_view().subrange(1, k as int),
            decreases toks.len() - k,
        {
            proof {
                assert(toks.deep_view()[k as int] == toks@[k as int]@);
            }
            let ghost old_deep = rest.deep_view();
            let cloned = toks[k].clone();
            assert(cloned@ == toks@[k as int]@);
            rest.push(cloned);
            proof {
                assert(rest.deep_view() =~= old_deep.push(toks@[k as int]@));
                assert(rest.deep_view() =~= toks.deep_view().subrange(1, k + 1));
            }
            k = k + 1;
        }
        proof {
            assert(rest.deep_view() =~= toks.deep_view().drop_first());
        }
        parse_mov(&rest)
    } else if str_eq(kw, "SWP") {
        Ok(Instr::Swp)
    } else if str_eq(kw, "SAV") {
        Ok(Instr::Sav)
    } else if str_eq(kw, "ADD") {
        if toks.len() < 2 {
            return Err(ParseError::OperandSyntax { issue: OperandIssue::AddNoSource });
        }
        proof {
            assert(toks.deep_view()[1] == toks@[1]@);
        }
        match parse_source(toks[1].as_str()) {
            Ok(s) => Ok(Instr::Add(s)),
            Err(e) => Err(e),
        }
    } else if str_eq(kw, "SUB") {
        if toks.len() < 2 {
            return Err(ParseError::OperandSyntax { issue: OperandIssue::SubNoSource });
        }
        proof {
            assert(toks.deep_view()[1] == toks@[1]@);
        }
        match parse_source(toks[1].as_str()) {
            Ok(s) => Ok(Instr::Sub(s)),
            Err(e) => Err(e),
        }
    } else if str_eq(kw, "NEG") {
        Ok(Instr::Neg)
    } else if str_eq(kw, "JMP") {
        if toks.len() < 2 {
            return Err(ParseError::OperandSyntax { issue: OperandIssue::JmpNoLabel });
        }
        proof {
            assert(toks.deep_view()[1] == toks@[1]@);
        }
        Ok(Instr::Jmp(toks[1].clone()))
    } else if str_eq(kw, "JEZ") {
        if toks.len() < 2 {
            return Err(ParseError::OperandSyntax { issue: OperandIssue::JezNoLabel });
        }
        proof {
            assert(toks.deep_view()[1] == toks@[1]@);
        }
        Ok(Instr::Jez(toks[1].clone()))
    } else if str_eq(kw, "JNZ") {
        if toks.len() < 2 {
            return Err(ParseError::OperandSyntax { issue: OperandIssue::JnzNoLabel });
        }
        proof {
            assert(toks.deep_view()[1] == toks@[1]@);
        }
        Ok(Instr::Jnz(toks[1].clone()))
    } else if str_eq(kw, "JGZ") {
        if toks.len() < 2 {
            return Err(ParseError::OperandSyntax { issue: OperandIssue::JgzNoLabel });
        }
        proof {
            assert(toks.deep_view()[1] == toks@[1]@);
        }
        Ok(Instr::Jgz(toks[1].clone()))
    } else if str_eq(kw, "JLZ") {
        if toks.len() < 2 {
            return Err(ParseError::OperandSyntax { issue: OperandIssue::JlzNoLabel });
        }
        proof {
            assert(toks.deep_view()[1] == toks@[1]@);
        }
        Ok(Instr::Jlz(toks[1].clone()))
    } else if str_eq(kw, "JRO") {
        if toks.len() < 2 {
            return Err(ParseError::OperandSyntax { issue: OperandIssue::JroNoSource });
        }
        proof {
            assert(toks.deep_view()[1] == toks@[1]@);
        }
        match parse_source(toks[1].as_str()) {
            Ok(s) => Ok(Instr::Jro(s)),
            Err(e) => Err(e),
        }
    } else if kw.unicode_len() > 0 && {
        let c = kw.get_char(0);
        c == '#'
    } {
        Ok(Instr::Comment(join_spaces(&toks)))
    } else {
        Err(ParseError::UnknownInstruction { token: toks[0].clone() })
    }
}

} // verus!
