use hack_assembler::ast::Address;
use hack_assembler::ast::Comp;
use hack_assembler::ast::Compute;
use hack_assembler::ast::Dest;
use hack_assembler::ast::Instruction;
use hack_assembler::ast::Jump;
use hack_assembler::parser::ParseError;
use hack_assembler::parser::parse;
use hack_assembler::parser::parse_a;
use hack_assembler::parser::parse_c;
use hack_assembler::parser::parse_comment;
use hack_assembler::parser::parse_comp;
use hack_assembler::parser::parse_constant;
use hack_assembler::parser::parse_dest;
use hack_assembler::parser::parse_jump;
use hack_assembler::parser::parse_label;
use hack_assembler::parser::parse_symbol;
use hack_assembler::parser::read_line;
use hack_assembler::parser::read_lines;

#[test]
fn test_parse_a() {
    assert_eq!(parse_a(b"", 0), None);
    assert_eq!(parse_a(b"@0", 0), Some((Address::Constant(0), 2)));
}

#[test]
fn parse_a_symbolic() {
    assert_eq!(
        parse_a(b"@sum", 0),
        Some((Address::Symbol(b"sum".to_vec()), 4))
    );
    assert_eq!(parse_a(b"@32767", 0), Some((Address::Constant(32767), 6)));
    assert_eq!(parse_a(b"@65535", 0), Some((Address::Constant(65535), 6)));
}

#[test]
fn parse_a_rejects_oversized_constant() {
    // 65536 does not fit in 16 bits, and a symbol may not begin with a digit.
    assert_eq!(parse_a(b"@65536", 0), None);
    assert_eq!(parse_a(b"@70000", 0), None);
}

#[test]
fn parse_constant_reads_maximal_digit_run() {
    assert_eq!(parse_constant(b"123abc", 0), Some((123, 3)));
    assert_eq!(parse_constant(b"007", 0), Some((7, 3)));
    assert_eq!(parse_constant(b"abc", 0), None);
}

#[test]
fn parse_symbol_rules() {
    assert_eq!(parse_symbol(b"9abc", 0), None);
    assert_eq!(
        parse_symbol(b"a.b$c:d_2", 0),
        Some((b"a.b$c:d_2".to_vec(), 9))
    );
    assert_eq!(parse_symbol(b"=x", 0), None);
}

#[test]
fn parse_dest_longest_match_first() {
    assert_eq!(parse_dest(b"AMD=", 0), Some((Dest::AMD, 4)));
    assert_eq!(parse_dest(b"AM=", 0), Some((Dest::AM, 3)));
    assert_eq!(parse_dest(b"AD=", 0), Some((Dest::AD, 3)));
    assert_eq!(parse_dest(b"MD=", 0), Some((Dest::MD, 3)));
    assert_eq!(parse_dest(b"A=", 0), Some((Dest::A, 2)));
    assert_eq!(parse_dest(b"D=", 0), Some((Dest::D, 2)));
    assert_eq!(parse_dest(b"M=", 0), Some((Dest::M, 2)));
    // No '=': not a destination prefix at all.
    assert_eq!(parse_dest(b"D+1", 0), None);
}

#[test]
fn parse_comp_longest_match_first() {
    assert_eq!(parse_comp(b"D+1", 0), Some((Comp::IncD, 3)));
    assert_eq!(parse_comp(b"D", 0), Some((Comp::D, 1)));
    assert_eq!(parse_comp(b"0;JMP", 0), Some((Comp::Zero, 1)));
    assert_eq!(parse_comp(b"M-D", 0), Some((Comp::MMinusD, 3)));
    assert_eq!(parse_comp(b"!M", 0), Some((Comp::NotM, 2)));
    assert_eq!(parse_comp(b"-1", 0), Some((Comp::NegOne, 2)));
    assert_eq!(parse_comp(b"X", 0), None);
}

#[test]
fn parse_jump_keywords() {
    assert_eq!(parse_jump(b";JGT", 0), Some((Jump::JGT, 4)));
    assert_eq!(parse_jump(b";JEQ", 0), Some((Jump::JEQ, 4)));
    assert_eq!(parse_jump(b";JNE", 0), Some((Jump::JNE, 4)));
    assert_eq!(parse_jump(b";JXX", 0), None);
    assert_eq!(parse_jump(b"JGT", 0), None);
}

#[test]
fn parse_c_full_forms() {
    assert_eq!(
        parse_c(b"D=D+A;JLE", 0),
        Some((
            Compute {
                dest: Some(Dest::D),
                comp: Comp::DPlusA,
                jump: Some(Jump::JLE),
            },
            9
        ))
    );
    assert_eq!(
        parse_c(b"0;JMP", 0),
        Some((
            Compute {
                dest: None,
                comp: Comp::Zero,
                jump: Some(Jump::JMP),
            },
            5
        ))
    );
    assert_eq!(
        parse_c(b"M=M+1", 0),
        Some((
            Compute {
                dest: Some(Dest::M),
                comp: Comp::IncM,
                jump: None,
            },
            5
        ))
    );
}

#[test]
fn parse_label_forms() {
    assert_eq!(parse_label(b"(LOOP)", 0), Some((b"LOOP".to_vec(), 6)));
    assert_eq!(parse_label(b"(LOOP", 0), None);
    assert_eq!(parse_label(b"()", 0), None);
}

#[test]
fn parse_comment_to_end_of_line() {
    assert_eq!(parse_comment(b"// hi\nx", 0), Some(5));
    assert_eq!(parse_comment(b"//", 0), Some(2));
    assert_eq!(parse_comment(b"/x", 0), None);
}

#[test]
fn read_line_skips_blank_and_comment_lines() {
    assert_eq!(
        read_line(b"  // c\n@5\n", 0),
        Some((Instruction::A(Address::Constant(5)), 10))
    );
}

#[test]
fn read_line_requires_trailer() {
    // A token not followed by any whitespace is not accepted.
    assert_eq!(read_line(b"@1", 0), None);
    // Trailing spaces and a line break are consumed by the trailer.
    assert_eq!(
        read_line(b"@1 // addr\n", 0),
        Some((Instruction::A(Address::Constant(1)), 11))
    );
}

#[test]
fn read_lines_stops_at_first_error() {
    let (instrs, pos) = read_lines(b"@2\nfoo");
    assert_eq!(instrs.len(), 1);
    assert_eq!(pos, 3);
}

#[test]
fn parse_whole_program() {
    let instrs = parse(b"@2\nD=A\n").unwrap();
    assert_eq!(
        instrs,
        vec![
            Instruction::A(Address::Constant(2)),
            Instruction::C(Compute {
                dest: Some(Dest::D),
                comp: Comp::A,
                jump: None,
            }),
        ]
    );
}

#[test]
fn parse_reports_unconsumed_remainder() {
    assert_eq!(parse(b"@1"), Err(ParseError { pos: 0 }));
    assert_eq!(parse(b"@2\nfoo"), Err(ParseError { pos: 3 }));
}

#[test]
fn parse_empty_and_blank_inputs() {
    assert_eq!(parse(b""), Ok(vec![]));
    // A non-empty source with no instruction at all never produces one, so
    // the blank run it consumed counts as unconsumed remainder.
    assert_eq!(
        parse(b"\n\n  \n// only a comment\n"),
        Err(ParseError { pos: 0 })
    );
}

#[test]
fn reparse_yields_identical_sequences() {
    let text: &[u8] = b"(LOOP)\n@LOOP\nD=M;JGT\n@1234\n0;JMP\n";
    let first = parse(text).unwrap();
    let second = parse(text).unwrap();
    assert_eq!(first, second);
}
