use cpu16::isa::{decode_instruction, encode_instruction, Mode, Opcode, Register};

#[test]
fn decode_gives_back_the_encoded_fields() {
    let w = encode_instruction(Opcode::Add, Mode::ImmToReg, Register::BL, Register::CH);
    assert_eq!(w, (3 << 10) | (1 << 6) | (2 << 3) | 5);
    assert_eq!(decode_instruction(w), Some((Opcode::Add, Mode::ImmToReg, Register::BL, Register::CH)));
}

#[test]
fn decode_refuses_words_with_unused_codes() {
    // Opcode 18 and mode 11 are not assigned.
    assert_eq!(decode_instruction(18 << 10), None);
    assert_eq!(decode_instruction((2 << 10) | (11 << 6)), None);
    assert_eq!(decode_instruction(0), Some((Opcode::Nop, Mode::RegToReg, Register::AL, Register::AL)));
}

#[test]
fn names_read_case_insensitively() {
    assert_eq!(Opcode::from_raw_str("mov"), Some(Opcode::Mov));
    assert_eq!(Mode::from_raw_str("immtoreg"), Some(Mode::ImmToReg));
    assert_eq!(Register::from_raw_str("Sp"), Some(Register::SP));
    assert_eq!(Register::from_raw_str("XX"), None);
}
