use hack_assembler::assembler::AsmError;
use hack_assembler::assembler::SymbolTable;
use hack_assembler::assembler::assemble;

#[test]
fn assemble_round_trip_program() {
    let lines = assemble(b"@2\nD=A\n@3\nD=D+A\n@0\nM=D\n").unwrap();
    assert_eq!(
        lines,
        vec![
            "0000000000000010",
            "1110110000010000",
            "0000000000000011",
            "1110000010010000",
            "0000000000000000",
            "1110001100001000",
        ]
    );
}

#[test]
fn assemble_resolves_labels() {
    let lines = assemble(b"(LOOP)\n@LOOP\n0;JMP\n").unwrap();
    assert_eq!(lines, vec!["0000000000000000", "1110101010000111"]);
}

#[test]
fn assemble_label_mid_program() {
    // The label binds the address of the next executable instruction.
    let lines = assemble(b"@1\nD=A\n(HERE)\n@HERE\n").unwrap();
    assert_eq!(
        lines,
        vec![
            "0000000000000001",
            "1110110000010000",
            "0000000000000010",
        ]
    );
}

#[test]
fn assemble_allocates_variables_from_sixteen() {
    let lines = assemble(b"@foo\n@bar\n@foo\n").unwrap();
    assert_eq!(
        lines,
        vec![
            "0000000000010000",  // foo -> 16
            "0000000000010001",  // bar -> 17
            "0000000000010000",  // foo again -> 16
        ]
    );
}

#[test]
fn assemble_variables_and_labels_interleaved() {
    let lines = assemble(b"@i\n(LOOP)\n@LOOP\n@j\n@i\n").unwrap();
    assert_eq!(
        lines,
        vec![
            "0000000000010000",  // i -> 16
            "0000000000000001",  // LOOP -> 1
            "0000000000010001",  // j -> 17
            "0000000000010000",  // i -> 16
        ]
    );
}

#[test]
fn assemble_rejects_duplicate_label() {
    assert_eq!(
        assemble(b"(X)\n(X)\n@0\n"),
        Err(AsmError::DuplicateSymbol {
            name: b"X".to_vec()
        })
    );
}

#[test]
fn assemble_rejects_label_shadowing_reserved_name() {
    assert_eq!(
        assemble(b"(R5)\n@0\n"),
        Err(AsmError::DuplicateSymbol {
            name: b"R5".to_vec()
        })
    );
}

#[test]
fn assemble_resolves_reserved_names_without_allocation() {
    let lines = assemble(b"@SP\n@SCREEN\n@R3\n").unwrap();
    assert_eq!(
        lines,
        vec![
            "0000000000000000",  // SP -> 0
            "0100000000000000",  // SCREEN -> 16384
            "0000000000000011",  // R3 -> 3
        ]
    );
    // A variable allocated afterwards still starts at 16.
    let more = assemble(b"@KBD\n@fresh\n").unwrap();
    assert_eq!(more, vec!["0110000000000000", "0000000000010000"]);
}

#[test]
fn assemble_reports_syntax_error_position() {
    assert_eq!(assemble(b"M=X\n"), Err(AsmError::Syntax { pos: 0 }));
    assert_eq!(assemble(b"@2\nfoo"), Err(AsmError::Syntax { pos: 3 }));
    // A final token without a line break is unconsumed input.
    assert_eq!(assemble(b"@1"), Err(AsmError::Syntax { pos: 0 }));
}

#[test]
fn assemble_skips_comments_and_blank_lines() {
    let lines = assemble(b"// top\n  @1  // one\n\nD=M\n").unwrap();
    assert_eq!(lines, vec!["0000000000000001", "1111110000010000"]);
}

#[test]
fn assemble_empty_source() {
    assert_eq!(assemble(b""), Ok(vec![]));
}

#[test]
fn symbol_table_lookup_and_insert() {
    let mut table = SymbolTable::new();
    assert_eq!(table.get(b"SP"), Some(0));
    assert_eq!(table.get(b"R15"), Some(15));
    assert_eq!(table.get(b"KBD"), Some(24576));
    assert_eq!(table.get(b"counter"), None);
    table.insert(b"counter".to_vec(), 16);
    assert_eq!(table.get(b"counter"), Some(16));
    // Pre-defined names win over bound entries.
    table.insert(b"SP".to_vec(), 99);
    assert_eq!(table.get(b"SP"), Some(0));
}
