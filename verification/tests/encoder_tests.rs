use hack_assembler::ast::Address;
use hack_assembler::ast::Comp;
use hack_assembler::ast::Compute;
use hack_assembler::ast::Dest;
use hack_assembler::ast::Instruction;
use hack_assembler::ast::Jump;
use hack_assembler::encoder::comp_bits;
use hack_assembler::encoder::dest_bits;
use hack_assembler::encoder::encode_a;
use hack_assembler::encoder::encode_c;
use hack_assembler::encoder::jump_bits;

fn c(dest: Option<Dest>, comp: Comp, jump: Option<Jump>) -> Compute {
    Compute { dest, comp, jump }
}

#[test]
fn encode_a_zero_padded_binary() {
    assert_eq!(encode_a(0), "0000000000000000");
    assert_eq!(encode_a(2), "0000000000000010");
    assert_eq!(encode_a(5), "0000000000000101");
    assert_eq!(encode_a(32767), "0111111111111111");
}

#[test]
fn encode_a_masks_high_bits() {
    // Values above 32767 keep only their low 15 bits: 40000 & 0x7FFF == 7232.
    assert_eq!(encode_a(40000), "0001110001000000");
    assert_eq!(encode_a(65535), "0111111111111111");
    assert_eq!(encode_a(32768), "0000000000000000");
}

#[test]
fn encode_c_known_words() {
    assert_eq!(encode_c(&c(Some(Dest::D), Comp::A, None)), "1110110000010000");
    assert_eq!(
        encode_c(&c(Some(Dest::D), Comp::DPlusA, None)),
        "1110000010010000"
    );
    assert_eq!(encode_c(&c(Some(Dest::M), Comp::D, None)), "1110001100001000");
    assert_eq!(
        encode_c(&c(None, Comp::Zero, Some(Jump::JMP))),
        "1110101010000111"
    );
    assert_eq!(
        encode_c(&c(Some(Dest::AMD), Comp::IncM, Some(Jump::JNE))),
        "1111110111111101"
    );
    assert_eq!(encode_c(&c(Some(Dest::D), Comp::M, None)), "1111110000010000");
}

#[test]
fn encode_instruction_method() {
    assert_eq!(
        Instruction::A(Address::Constant(2)).encode(),
        "0000000000000010"
    );
    assert_eq!(
        Instruction::C(c(None, Comp::One, None)).encode(),
        "1110111111000000"
    );
}

#[test]
fn field_codes_match_tables() {
    assert_eq!(dest_bits(None), 0);
    assert_eq!(dest_bits(Some(Dest::M)), 1);
    assert_eq!(dest_bits(Some(Dest::AMD)), 7);
    assert_eq!(jump_bits(None), 0);
    assert_eq!(jump_bits(Some(Jump::JGT)), 1);
    assert_eq!(jump_bits(Some(Jump::JMP)), 7);
    assert_eq!(comp_bits(Comp::Zero), 0b0101010);
    assert_eq!(comp_bits(Comp::One), 0b0111111);
    assert_eq!(comp_bits(Comp::DAndA), 0b0000000);
    assert_eq!(comp_bits(Comp::DOrM), 0b1010101);
    assert_eq!(comp_bits(Comp::M), 0b1110000);
}
