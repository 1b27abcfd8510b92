//! Token-level and line-level tests: operands, literals, label
//! extraction and the single-line instruction grammar.

use grid_asm::parse_lit;
use grid_asm::parse_loc;
use grid_asm::parse_source;
use grid_asm::parse_mov;
use grid_asm::parse_line;
use grid_asm::get_label;
use grid_asm::tokenize;
use grid_asm::Instr;
use grid_asm::Loc;
use grid_asm::OperandIssue;
use grid_asm::ParseError;
use grid_asm::Source;

#[test]
fn test_parse_lit() {
    assert_eq!(Ok(3), parse_lit("3"));
    assert!(parse_lit("f").is_err());
}

#[test]
fn test_parse_loc() {
    assert_eq!(Ok(Loc::Acc), parse_loc("ACC"));
    assert!(parse_loc("Aflkj").is_err());
}

#[test]
fn test_parse_source() {
    assert_eq!(Ok(Source::Loc(Loc::Acc)), parse_source("ACC"));
    assert_eq!(Ok(Source::Val(3)), parse_source("3"));
    assert!(parse_source("Aflkj").is_err());
}

#[test]
fn test_parse_mov() {
    assert_eq!(
        Ok(Instr::Mov(Source::Val(3), Loc::Acc)),
        parse_mov(&tokenize("3, ACC"))
    );
    assert_eq!(
        Ok(Instr::Mov(Source::Loc(Loc::Acc), Loc::Acc)),
        parse_mov(&tokenize("ACC, ACC"))
    );

    assert!(parse_mov(&tokenize("f, ACC")).is_err());
}

#[test]
fn test_parse_line() {
    assert_eq!(
        Ok(Instr::Mov(Source::Val(3), Loc::Acc)),
        parse_line("MOV 3, ACC")
    );
    assert_eq!(Ok(Instr::Swp), parse_line("SWP"));
    assert_eq!(Ok(Instr::Sub(Source::Val(3))), parse_line("SUB 3"));
    assert_eq!(Ok(Instr::Sub(Source::Loc(Loc::Left))), parse_line("SUB LEFT"));
    assert_eq!(Ok(Instr::Jmp(String::from("FOO"))), parse_line("JMP FOO"));
}

#[test]
fn test_get_label() {
    assert_eq!(("label nop", None), get_label("label nop"));
    assert_eq!(("nop", Some("label")), get_label("label:nop"));
    assert_eq!((" nop", Some("label")), get_label("label: nop"));
    assert_eq!(("label : nop", None), get_label("label : nop"));
    assert_eq!(("3: nop", Some("label")), get_label("label:3: nop"));
}

#[test]
fn all_location_keywords_parse() {
    assert_eq!(Ok(Loc::Left), parse_loc("LEFT"));
    assert_eq!(Ok(Loc::Right), parse_loc("RIGHT"));
    assert_eq!(Ok(Loc::Up), parse_loc("UP"));
    assert_eq!(Ok(Loc::Down), parse_loc("DOWN"));
    assert_eq!(Ok(Loc::Acc), parse_loc("ACC"));
    assert_eq!(Ok(Loc::Last), parse_loc("LAST"));
    assert_eq!(
        Err(ParseError::InvalidOperand { token: String::from("left") }),
        parse_loc("left")
    );
    assert!(parse_loc("").is_err());
}

#[test]
fn literal_bounds() {
    assert_eq!(Ok(32767), parse_lit("32767"));
    assert_eq!(Ok(-32768), parse_lit("-32768"));
    assert_eq!(
        Err(ParseError::InvalidOperand { token: String::from("32768") }),
        parse_lit("32768")
    );
    assert!(parse_lit("-32769").is_err());
    assert_eq!(Ok(5), parse_lit("+5"));
    assert_eq!(Ok(7), parse_lit("0000007"));
    assert_eq!(Ok(0), parse_lit("-0"));
    assert!(parse_lit("").is_err());
    assert!(parse_lit("-").is_err());
    assert!(parse_lit("+").is_err());
    assert!(parse_lit("12a").is_err());
    assert!(parse_lit(" 3").is_err());
    assert!(parse_lit("99999999999999999999").is_err());
}

#[test]
fn literal_round_trips() {
    for v in [-32768i16, -999, -1, 0, 1, 42, 999, 32767] {
        assert_eq!(Ok(v), parse_lit(&format!("{}", v)));
    }
}

#[test]
fn mov_operand_errors_are_distinct() {
    assert_eq!(
        Err(ParseError::OperandSyntax { issue: OperandIssue::MovNoSource }),
        parse_mov(&tokenize(""))
    );
    assert_eq!(
        Err(ParseError::OperandSyntax { issue: OperandIssue::MovNoComma }),
        parse_mov(&tokenize("3 ACC"))
    );
    assert_eq!(
        Err(ParseError::OperandSyntax { issue: OperandIssue::MovNoDest }),
        parse_mov(&tokenize("3,"))
    );
    assert_eq!(
        Err(ParseError::InvalidOperand { token: String::from("UPP") }),
        parse_mov(&tokenize("3, UPP"))
    );
}

#[test]
fn zero_operand_instructions() {
    assert_eq!(Ok(Instr::Nop), parse_line("NOP"));
    assert_eq!(Ok(Instr::Sav), parse_line("SAV"));
    assert_eq!(Ok(Instr::Neg), parse_line("NEG"));
    assert_eq!(Ok(Instr::Emptyline), parse_line(""));
    assert_eq!(Ok(Instr::Emptyline), parse_line("   \t "));
}

#[test]
fn jump_and_arithmetic_instructions() {
    assert_eq!(Ok(Instr::Add(Source::Val(-4))), parse_line("ADD -4"));
    assert_eq!(Ok(Instr::Add(Source::Loc(Loc::Up))), parse_line("ADD UP"));
    assert_eq!(Ok(Instr::Jez(String::from("A"))), parse_line("JEZ A"));
    assert_eq!(Ok(Instr::Jnz(String::from("B"))), parse_line("JNZ B"));
    assert_eq!(Ok(Instr::Jgz(String::from("C"))), parse_line("JGZ C"));
    assert_eq!(Ok(Instr::Jlz(String::from("D"))), parse_line("JLZ D"));
    assert_eq!(Ok(Instr::Jro(Source::Val(2))), parse_line("JRO 2"));
    assert_eq!(Ok(Instr::Jro(Source::Loc(Loc::Acc))), parse_line("JRO ACC"));
    assert_eq!(
        Err(ParseError::OperandSyntax { issue: OperandIssue::AddNoSource }),
        parse_line("ADD")
    );
    assert_eq!(
        Err(ParseError::OperandSyntax { issue: OperandIssue::SubNoSource }),
        parse_line("SUB")
    );
    assert_eq!(
        Err(ParseError::OperandSyntax { issue: OperandIssue::JroNoSource }),
        parse_line("JRO")
    );
    assert_eq!(
        Err(ParseError::OperandSyntax { issue: OperandIssue::JmpNoLabel }),
        parse_line("JMP")
    );
    assert_eq!(
        Err(ParseError::OperandSyntax { issue: OperandIssue::JezNoLabel }),
        parse_line("JEZ")
    );
    assert_eq!(
        Err(ParseError::OperandSyntax { issue: OperandIssue::JnzNoLabel }),
        parse_line("JNZ")
    );
    assert_eq!(
        Err(ParseError::OperandSyntax { issue: OperandIssue::JgzNoLabel }),
        parse_line("JGZ")
    );
    assert_eq!(
        Err(ParseError::OperandSyntax { issue: OperandIssue::JlzNoLabel }),
        parse_line("JLZ")
    );
}

#[test]
fn comments_and_unknown_instructions() {
    assert_eq!(
        Ok(Instr::Comment(String::from("# a comment"))),
        parse_line("#   a     comment")
    );
    assert_eq!(
        Ok(Instr::Comment(String::from("#note"))),
        parse_line("#note")
    );
    assert_eq!(
        Err(ParseError::UnknownInstruction { token: String::from("FOO") }),
        parse_line("FOO")
    );
    assert_eq!(
        Err(ParseError::UnknownInstruction { token: String::from("nop") }),
        parse_line("nop")
    );
}

#[test]
fn tokenize_splits_on_whitespace() {
    assert_eq!(vec!["MOV", "3,", "ACC"], tokenize(" MOV  3,\tACC "));
    assert!(tokenize("").is_empty());
    assert!(tokenize(" \t ").is_empty());
}
