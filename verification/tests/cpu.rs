use cpu16::cpu::control_unit::{CUState, DecodedInstruction};
use cpu16::cpu::data_path::{DataPath, GeneralPurposeRegister};
use cpu16::cpu::machine::{load_bin, run, Machine, MachineError};
use cpu16::isa::{encode_instruction, Mode, Opcode, Register};
use std::collections::HashMap;

fn image(blocks: &[(u16, &[u16])]) -> Vec<u8> {
    let mut b = vec![];
    for (offset, words) in blocks {
        b.extend_from_slice(&offset.to_le_bytes());
        b.extend_from_slice(&(words.len() as u16).to_le_bytes());
        for w in words.iter() {
            b.extend_from_slice(&w.to_le_bytes());
        }
    }
    b
}

fn ins(op: Opcode, mode: Mode, rd: Register, rs: Register) -> u16 {
    encode_instruction(op, mode, rd, rs)
}

#[test]
fn instruction_layout() {
    assert_eq!(ins(Opcode::Mov, Mode::ImmToReg, Register::SP, Register::AL), 2160);
    assert_eq!(ins(Opcode::Cli, Mode::ImmToMemra, Register::BP, Register::BP), (44 << 10) | (10 << 6) | (7 << 3) | 7);
    let d = DecodedInstruction::from_raw(ins(Opcode::Add, Mode::MemraToReg, Register::CH, Register::BL));
    assert_eq!(d.opcode, Opcode::Add);
    assert_eq!(d.mode, Mode::MemraToReg);
    assert_eq!(d.rd, GeneralPurposeRegister::CH);
    assert_eq!(d.rs, GeneralPurposeRegister::BL);
    assert_eq!(d.get_len(), 2);
}

#[test]
fn raw_codes() {
    assert_eq!(Opcode::from_raw(17), Some(Opcode::Shr));
    assert_eq!(Opcode::from_raw(18), None);
    assert_eq!(Opcode::from_raw(20), Some(Opcode::Cmp));
    assert_eq!(Opcode::from_raw(41), None);
    assert_eq!(Opcode::from_raw(44), Some(Opcode::Cli));
    assert_eq!(Opcode::from_raw(45), None);
    assert_eq!(Mode::from_raw(10), Some(Mode::ImmToMemra));
    assert_eq!(Mode::from_raw(11), None);
    assert_eq!(Register::from_raw(7), Some(Register::BP));
    assert_eq!(Register::from_raw(8), None);
    assert_eq!(Opcode::default(), Opcode::Nop);
}

#[test]
fn load_blocks_into_memory() {
    let m = load_bin(image(&[(10, &[1, 2]), (65535, &[7])])).unwrap();
    assert_eq!(m[10], 1);
    assert_eq!(m[11], 2);
    assert_eq!(m[65535], 7);
    assert_eq!(m[12], 0);
    assert!(load_bin(vec![1, 2, 3]).is_none());
    assert!(load_bin(image(&[(65535, &[7, 8])])).is_none());
}

#[test]
fn program_writes_and_halts() {
    let prog = [
        ins(Opcode::Mov, Mode::ImmToReg, Register::AL, Register::AL),
        40,
        ins(Opcode::Add, Mode::ImmToReg, Register::AL, Register::AL),
        2,
        ins(Opcode::Mov, Mode::RegToMema, Register::AL, Register::AL),
        0x81,
        ins(Opcode::Hlt, Mode::RegToReg, Register::AL, Register::AL),
    ];
    let out = run(image(&[(0, &prog)]), HashMap::new(), 1000).unwrap();
    assert_eq!(out, vec![42]);
    assert_eq!(run(vec![1], HashMap::new(), 10), Err(MachineError::BadImage));
}

#[test]
fn input_port_is_read() {
    let prog = [
        ins(Opcode::Mov, Mode::MemaToReg, Register::AL, Register::AL),
        0x80,
        ins(Opcode::Mov, Mode::RegToMema, Register::AL, Register::AL),
        0x81,
        ins(Opcode::Hlt, Mode::RegToReg, Register::AL, Register::AL),
    ];
    let mut inputs = HashMap::new();
    inputs.insert(0usize, 77u16);
    let out = run(image(&[(0, &prog)]), inputs, 1000).unwrap();
    assert_eq!(out, vec![77]);
}

#[test]
fn machine_steps_until_halt() {
    let mut memory = [0u16; 65536];
    memory[0] = ins(Opcode::Hlt, Mode::RegToReg, Register::AL, Register::AL);
    let mut m = Machine::new(memory, false);
    let mut ticks = 0;
    while !m.is_halted() && ticks < 100 {
        m.step(None).unwrap();
        ticks += 1;
    }
    assert!(m.is_halted());
    assert_eq!(ticks, 4);
    assert!(m.output().is_empty());
    let dp = DataPath::new([0u16; 65536]);
    assert_eq!(dp.get_instruction_pointer(), 0);
}

/// Steps the machine until it is about to fetch the instruction at `ip`;
/// returns the number of ticks taken.
fn run_to_fetch_at(m: &mut Machine, ip: u16) -> usize {
    let mut n = 0;
    loop {
        let at_fetch = m.control_unit().get_state() == CUState::InstructionFetch
            && m.control_unit().get_step_counter() == 0;
        if at_fetch && m.data_path().get_instruction_pointer() == ip && n > 0 {
            return n;
        }
        m.step(None).unwrap();
        n += 1;
        assert!(n < 1000);
    }
}

fn machine_with(prog: &[u16]) -> Machine {
    let mut memory = [0u16; 65536];
    memory[..prog.len()].copy_from_slice(prog);
    Machine::new(memory, false)
}

#[test]
fn push_then_pop_copies_and_restores_the_stack() {
    let prog = [
        ins(Opcode::Mov, Mode::ImmToReg, Register::BL, Register::AL),
        1234,
        ins(Opcode::Mov, Mode::ImmToReg, Register::SP, Register::AL),
        100,
        ins(Opcode::Push, Mode::RegToReg, Register::AL, Register::BL),
        ins(Opcode::Pop, Mode::RegToReg, Register::CH, Register::AL),
        ins(Opcode::Hlt, Mode::RegToReg, Register::AL, Register::AL),
    ];
    let mut m = machine_with(&prog);
    run_to_fetch_at(&mut m, 4);
    assert_eq!(run_to_fetch_at(&mut m, 5), 6);
    assert_eq!(m.data_path().get_register(GeneralPurposeRegister::SP), 99);
    assert_eq!(m.data_path().get_memory()[99], 1234);
    assert_eq!(run_to_fetch_at(&mut m, 6), 7);
    assert_eq!(m.data_path().get_register(GeneralPurposeRegister::CH), 1234);
    assert_eq!(m.data_path().get_register(GeneralPurposeRegister::SP), 100);
}

#[test]
fn call_then_ret_comes_back_after_the_call() {
    let prog = [
        ins(Opcode::Mov, Mode::ImmToReg, Register::SP, Register::AL),
        50,
        ins(Opcode::Call, Mode::ImmToReg, Register::AL, Register::AL),
        10,
        ins(Opcode::Hlt, Mode::RegToReg, Register::AL, Register::AL),
        0,
        0,
        0,
        0,
        0,
        ins(Opcode::Ret, Mode::RegToReg, Register::AL, Register::AL),
    ];
    let mut m = machine_with(&prog);
    run_to_fetch_at(&mut m, 2);
    assert_eq!(run_to_fetch_at(&mut m, 10), 8);
    assert_eq!(m.data_path().get_register(GeneralPurposeRegister::SP), 49);
    assert_eq!(m.data_path().get_memory()[49], 4);
    assert_eq!(run_to_fetch_at(&mut m, 4), 7);
    assert_eq!(m.data_path().get_register(GeneralPurposeRegister::SP), 50);
}

#[test]
fn conditional_jump_follows_the_flags() {
    // CMP AL, AL sets ZF, so JE jumps and JNE falls through.
    let prog = [
        ins(Opcode::Cmp, Mode::RegToReg, Register::AL, Register::AL),
        ins(Opcode::Jne, Mode::ImmToReg, Register::AL, Register::AL),
        20,
        ins(Opcode::Je, Mode::ImmToReg, Register::AL, Register::AL),
        30,
    ];
    let mut m = machine_with(&prog);
    run_to_fetch_at(&mut m, 1);
    assert!(m.data_path().get_zero_flag());
    assert_eq!(run_to_fetch_at(&mut m, 3), 5);
    assert_eq!(run_to_fetch_at(&mut m, 30), 5);
}

#[test]
fn iret_restores_the_flags_of_the_interrupted_program() {
    let mut prog = vec![0u16; 0x44];
    let head = [
        ins(Opcode::Mov, Mode::ImmToReg, Register::SP, Register::AL),
        1000,
        ins(Opcode::Mov, Mode::ImmToReg, Register::AL, Register::AL),
        0x7FFF,
        ins(Opcode::Add, Mode::ImmToReg, Register::AL, Register::AL),
        1,
        ins(Opcode::Sti, Mode::RegToReg, Register::AL, Register::AL),
        ins(Opcode::Nop, Mode::RegToReg, Register::AL, Register::AL),
        ins(Opcode::Hlt, Mode::RegToReg, Register::AL, Register::AL),
    ];
    prog[..head.len()].copy_from_slice(&head);
    prog[0x10] = 0x40;
    prog[0x40] = ins(Opcode::Mov, Mode::MemaToReg, Register::BL, Register::AL);
    prog[0x41] = 0x80;
    prog[0x42] = ins(Opcode::Cmp, Mode::RegToReg, Register::AL, Register::AL);
    prog[0x43] = ins(Opcode::Iret, Mode::RegToReg, Register::AL, Register::AL);
    let mut m = machine_with(&prog);
    run_to_fetch_at(&mut m, 7);
    let dp = m.data_path();
    let before = (dp.get_zero_flag(), dp.get_negative_flag(), dp.get_carry_flag(), dp.get_overflow_flag());
    assert_eq!(before, (false, true, false, true));
    m.step(Some(9)).unwrap();
    let mut n = 0;
    while !m.is_halted() {
        m.step(None).unwrap();
        n += 1;
        assert!(n < 1000);
    }
    let dp = m.data_path();
    assert_eq!(dp.get_register(GeneralPurposeRegister::BL), 9);
    let after = (dp.get_zero_flag(), dp.get_negative_flag(), dp.get_carry_flag(), dp.get_overflow_flag());
    assert_eq!(after, before);
}

#[test]
fn unary_instructions_read_the_source_register() {
    let prog = [
        ins(Opcode::Mov, Mode::ImmToReg, Register::BL, Register::AL),
        5,
        ins(Opcode::Inc, Mode::RegToReg, Register::AL, Register::BL),
        ins(Opcode::Neg, Mode::RegToReg, Register::CL, Register::BL),
        ins(Opcode::Dec, Mode::RegToReg, Register::CH, Register::BL),
        ins(Opcode::Not, Mode::RegToReg, Register::AH, Register::BL),
        ins(Opcode::Hlt, Mode::RegToReg, Register::AL, Register::AL),
    ];
    let mut m = machine_with(&prog);
    run_to_fetch_at(&mut m, 3);
    assert_eq!(m.data_path().get_register(GeneralPurposeRegister::AL), 6);
    run_to_fetch_at(&mut m, 4);
    assert_eq!(m.data_path().get_register(GeneralPurposeRegister::CL), 0xFFFB);
    assert!(m.data_path().get_negative_flag());
    assert!(m.data_path().get_carry_flag());
    run_to_fetch_at(&mut m, 5);
    assert_eq!(m.data_path().get_register(GeneralPurposeRegister::CH), 4);
    assert!(!m.data_path().get_negative_flag());
    run_to_fetch_at(&mut m, 6);
    assert_eq!(m.data_path().get_register(GeneralPurposeRegister::AH), !5u16);
    assert_eq!(m.data_path().get_register(GeneralPurposeRegister::BL), 5);
}

#[test]
fn leave_undoes_enter() {
    let prog = [
        ins(Opcode::Mov, Mode::ImmToReg, Register::SP, Register::AL),
        200,
        ins(Opcode::Mov, Mode::ImmToReg, Register::BP, Register::AL),
        77,
        ins(Opcode::Enter, Mode::ImmToReg, Register::AL, Register::AL),
        5,
        ins(Opcode::Leave, Mode::RegToReg, Register::AL, Register::AL),
        ins(Opcode::Hlt, Mode::RegToReg, Register::AL, Register::AL),
    ];
    let mut m = machine_with(&prog);
    run_to_fetch_at(&mut m, 4);
    assert_eq!(run_to_fetch_at(&mut m, 6), 9);
    assert_eq!(m.data_path().get_register(GeneralPurposeRegister::BP), 199);
    assert_eq!(m.data_path().get_register(GeneralPurposeRegister::SP), 194);
    assert_eq!(m.data_path().get_memory()[199], 77);
    assert_eq!(run_to_fetch_at(&mut m, 7), 8);
    assert_eq!(m.data_path().get_register(GeneralPurposeRegister::SP), 200);
    assert_eq!(m.data_path().get_register(GeneralPurposeRegister::BP), 77);
}

#[test]
fn immediate_operands_take_five_ticks() {
    let prog = [
        ins(Opcode::Mov, Mode::ImmToReg, Register::AL, Register::AL),
        40,
        ins(Opcode::Sub, Mode::ImmToReg, Register::AL, Register::AL),
        41,
        ins(Opcode::Hlt, Mode::RegToReg, Register::AL, Register::AL),
    ];
    let mut m = machine_with(&prog);
    assert_eq!(run_to_fetch_at(&mut m, 2), 5);
    assert_eq!(m.data_path().get_register(GeneralPurposeRegister::AL), 40);
    assert!(!m.data_path().get_carry_flag());
    assert_eq!(run_to_fetch_at(&mut m, 4), 5);
    assert_eq!(m.data_path().get_register(GeneralPurposeRegister::AL), 0xFFFF);
    assert!(m.data_path().get_carry_flag());
    assert!(m.data_path().get_negative_flag());
}

#[test]
fn inc_and_dec_report_signed_overflow_and_not_sets_flags() {
    let prog = [
        ins(Opcode::Mov, Mode::ImmToReg, Register::BL, Register::AL),
        0x7FFF,
        ins(Opcode::Inc, Mode::RegToReg, Register::AL, Register::BL),
        ins(Opcode::Dec, Mode::RegToReg, Register::CL, Register::AL),
        ins(Opcode::Inc, Mode::RegToReg, Register::CH, Register::CL),
        ins(Opcode::Not, Mode::RegToReg, Register::AH, Register::CL),
        ins(Opcode::Hlt, Mode::RegToReg, Register::AL, Register::AL),
    ];
    let mut m = machine_with(&prog);
    run_to_fetch_at(&mut m, 3);
    assert_eq!(m.data_path().get_register(GeneralPurposeRegister::AL), 0x8000);
    assert!(m.data_path().get_overflow_flag());
    assert!(m.data_path().get_negative_flag());
    run_to_fetch_at(&mut m, 4);
    assert_eq!(m.data_path().get_register(GeneralPurposeRegister::CL), 0x7FFF);
    assert!(m.data_path().get_overflow_flag());
    assert!(!m.data_path().get_negative_flag());
    run_to_fetch_at(&mut m, 5);
    assert_eq!(m.data_path().get_register(GeneralPurposeRegister::CH), 0x8000);
    assert!(m.data_path().get_overflow_flag());
    run_to_fetch_at(&mut m, 6);
    assert_eq!(m.data_path().get_register(GeneralPurposeRegister::AH), 0x8000);
    assert!(m.data_path().get_negative_flag());
    assert!(!m.data_path().get_overflow_flag());
    assert!(!m.data_path().get_zero_flag());
}

#[test]
fn later_blocks_overwrite_earlier_ones() {
    let m = load_bin(image(&[(10, &[1, 2, 3]), (11, &[9]), (0, &[])])).unwrap();
    assert_eq!(m[10], 1);
    assert_eq!(m[11], 9);
    assert_eq!(m[12], 3);
    assert_eq!(m[13], 0);
}

#[test]
fn interrupt_entry_pushes_flags_and_ip() {
    let mut prog = vec![0u16; 0x42];
    let head = [
        ins(Opcode::Mov, Mode::ImmToReg, Register::SP, Register::AL),
        1000,
        ins(Opcode::Sti, Mode::RegToReg, Register::AL, Register::AL),
        ins(Opcode::Nop, Mode::RegToReg, Register::AL, Register::AL),
        ins(Opcode::Hlt, Mode::RegToReg, Register::AL, Register::AL),
    ];
    prog[..head.len()].copy_from_slice(&head);
    prog[0x10] = 0x40;
    prog[0x40] = ins(Opcode::Hlt, Mode::RegToReg, Register::AL, Register::AL);
    let mut m = machine_with(&prog);
    run_to_fetch_at(&mut m, 3);
    m.step(Some(5)).unwrap();
    // The rest of NOP's fetch and its one step, then the entry.
    for _ in 0..3 {
        m.step(None).unwrap();
    }
    assert_eq!(m.control_unit().get_state(), CUState::Interruption);
    assert_eq!(run_to_fetch_at(&mut m, 0x40), 9);
    assert_eq!(m.data_path().get_register(GeneralPurposeRegister::SP), 998);
    assert_eq!(m.data_path().get_memory()[998], 4);
}

#[test]
fn register_stores_only_on_an_enabled_tick() {
    let mut r: cpu16::cpu::general::Register<u16> = cpu16::cpu::general::Register::new();
    r.set(5);
    assert_eq!(r.get(), 0);
    r.set_write(true);
    r.tick();
    assert_eq!(r.get(), 5);
    r.tick();
    assert_eq!(r.get(), 5);
    r.set(7);
    r.tick();
    assert_eq!(r.get(), 5);
}

#[test]
fn compare_sets_the_flags_of_a_subtraction() {
    let prog = [
        ins(Opcode::Mov, Mode::ImmToReg, Register::AL, Register::AL),
        5,
        ins(Opcode::Cmp, Mode::ImmToReg, Register::AL, Register::AL),
        10,
        ins(Opcode::Jl, Mode::ImmToReg, Register::AL, Register::AL),
        40,
        ins(Opcode::Hlt, Mode::RegToReg, Register::AL, Register::AL),
    ];
    let mut m = machine_with(&prog);
    run_to_fetch_at(&mut m, 4);
    let dp = m.data_path();
    assert!(!dp.get_overflow_flag());
    assert!(dp.get_negative_flag());
    assert!(dp.get_carry_flag());
    assert!(!dp.get_zero_flag());
    assert_eq!(dp.get_register(GeneralPurposeRegister::AL), 5);
    run_to_fetch_at(&mut m, 40);
}

#[test]
fn jnc_jumps_on_the_negative_flag_as_the_table_gives() {
    let prog = [
        ins(Opcode::Mov, Mode::ImmToReg, Register::AL, Register::AL),
        0x8000,
        ins(Opcode::Test, Mode::RegToReg, Register::AL, Register::AL),
        ins(Opcode::Jnc, Mode::ImmToReg, Register::AL, Register::AL),
        40,
    ];
    let mut m = machine_with(&prog);
    run_to_fetch_at(&mut m, 3);
    assert!(m.data_path().get_negative_flag());
    assert_eq!(run_to_fetch_at(&mut m, 40), 5);
}
