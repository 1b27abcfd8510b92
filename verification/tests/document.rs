//! Document-level tests: program assembly, label tables, section
//! sequencing, termination and the whole-document parse.

use grid_asm::parse_program;
use grid_asm::parse_spec;
use grid_asm::Instr;
use grid_asm::Loc;
use grid_asm::ParseError;
use grid_asm::Source;

fn lines(doc: &[&str]) -> Vec<String> {
    doc.iter().map(|s| String::from(*s)).collect()
}

#[test]
fn program_positions_skip_comments_and_blanks() {
    let p = parse_program(&lines(&["# setup", "", "NOP", "# middle", "SWP", ""])).unwrap();
    assert_eq!(2, p.instrs.len());
    assert_eq!(Instr::Nop, p.instrs[0].instr);
    assert_eq!(0, p.instrs[0].pos);
    assert_eq!(Instr::Swp, p.instrs[1].instr);
    assert_eq!(1, p.instrs[1].pos);
    assert!(p.labels.is_empty());
}

#[test]
fn program_labels_index_next_retained_instruction() {
    let p = parse_program(&lines(&[
        "start:NOP",
        "loop: ADD 1",
        "# comment",
        "end:",
        "SWP",
    ]))
    .unwrap();
    assert_eq!(3, p.instrs.len());
    assert_eq!(
        vec![
            (String::from("start"), 0),
            (String::from("loop"), 1),
            (String::from("end"), 2),
        ],
        p.labels
    );
    assert_eq!(Instr::Add(Source::Val(1)), p.instrs[1].instr);
    assert_eq!(Instr::Swp, p.instrs[2].instr);
}

#[test]
fn duplicate_label_in_one_program_fails() {
    assert_eq!(
        Err(ParseError::DuplicateLabel { label: String::from("a") }),
        parse_program(&lines(&["a:NOP", "a:SWP"]))
    );
}

#[test]
fn header_error_when_first_line_is_not_section_zero() {
    assert_eq!(
        Err(ParseError::Header { found: String::new() }),
        parse_spec(&lines(&[]))
    );
    assert_eq!(
        Err(ParseError::Header { found: String::from("@1") }),
        parse_spec(&lines(&["@1", "NOP"]))
    );
    assert_eq!(
        Err(ParseError::Header { found: String::from("NOP") }),
        parse_spec(&lines(&["NOP"]))
    );
}

#[test]
fn skipped_section_number_fails_in_sequence() {
    assert_eq!(
        Err(ParseError::SectionSequence { expected: 1, found: String::from("@2") }),
        parse_spec(&lines(&["@0", "NOP", "", "@2", "NOP"]))
    );
}

#[test]
fn section_numbers_stop_at_eleven() {
    let mut doc = vec![String::from("@0"), String::from("NOP"), String::new()];
    for n in 1..=12 {
        doc.push(format!("@{}", n));
        doc.push(String::from("NOP"));
        doc.push(String::new());
    }
    assert_eq!(
        Err(ParseError::SectionSequence { expected: 12, found: String::from("@12") }),
        parse_spec(&doc)
    );
}

#[test]
fn unterminated_section_fails() {
    assert_eq!(
        Err(ParseError::SectionTermination { section: 0 }),
        parse_spec(&lines(&["@0", "NOP", "@1", "NOP"]))
    );
    // a header straight after a header leaves an empty body behind
    assert_eq!(
        Err(ParseError::SectionTermination { section: 0 }),
        parse_spec(&lines(&["@0", "@1", "NOP"]))
    );
}

#[test]
fn two_section_document_yields_two_programs() {
    let s = parse_spec(&lines(&["@0", "MOV 3, ACC", "", "@1", "SWP", ""])).unwrap();
    assert_eq!(2, s.programs.len());
    assert_eq!(1, s.programs[0].instrs.len());
    assert_eq!(
        Instr::Mov(Source::Val(3), Loc::Acc),
        s.programs[0].instrs[0].instr
    );
    assert_eq!(1, s.programs[1].instrs.len());
    assert_eq!(Instr::Swp, s.programs[1].instrs[0].instr);

    // the final section may also end at end of input, with no blank line
    let t = parse_spec(&lines(&["@0", "MOV 3, ACC", "", "@1", "SWP"])).unwrap();
    assert_eq!(2, t.programs.len());
    assert_eq!(Instr::Swp, t.programs[1].instrs[0].instr);
}

#[test]
fn same_label_in_two_sections_is_permitted() {
    let s = parse_spec(&lines(&["@0", "a:NOP", "", "@1", "a:SWP", ""])).unwrap();
    assert_eq!(2, s.programs.len());
    assert_eq!(vec![(String::from("a"), 0)], s.programs[0].labels);
    assert_eq!(vec![(String::from("a"), 0)], s.programs[1].labels);
}

#[test]
fn duplicate_label_inside_one_section_fails_document() {
    assert_eq!(
        Err(ParseError::DuplicateLabel { label: String::from("a") }),
        parse_spec(&lines(&["@0", "a:NOP", "a:SWP", ""]))
    );
}

#[test]
fn single_section_document() {
    let s = parse_spec(&lines(&["@0", "x:JMP x"])).unwrap();
    assert_eq!(1, s.programs.len());
    assert_eq!(Instr::Jmp(String::from("x")), s.programs[0].instrs[0].instr);
    assert_eq!(vec![(String::from("x"), 0)], s.programs[0].labels);
}

#[test]
fn bad_instruction_inside_a_section_fails_document() {
    assert_eq!(
        Err(ParseError::UnknownInstruction { token: String::from("XYZ") }),
        parse_spec(&lines(&["@0", "XYZ", ""]))
    );
}

#[test]
fn non_header_marker_lines_are_body_lines() {
    // "@x" is not a header (no digits), so it is parsed as an instruction
    assert_eq!(
        Err(ParseError::UnknownInstruction { token: String::from("@x") }),
        parse_spec(&lines(&["@0", "@x", ""]))
    );
}
