//! What the instruction set promises, proved of the simulator.
use vstd::prelude::*;

use crate::cpu::control_unit::{
    binary_mode_signals, ControlSignals, decodable, decode, is_decoding_of, lemma_decode, CUState,
    DecodedInstruction,
};
use crate::cpu::data_path::{
    access_faults, alu, dp_faults, dp_next, mem_out, rf_write, wrap, AluOperation, DataPathView,
    Flags, GeneralPurposeRegister, IO_READ, IO_WRITE,
};
use crate::cpu::machine::{
    image_word, load_blocks, load_image, machine_next, write_block, zero_memory, MachineError,
    MachineView,
};
use crate::isa;

verus! {

/// The data path register that an instruction-set register names.
pub open spec fn gpr_of(r: isa::Register) -> GeneralPurposeRegister {
    match r {
        isa::Register::AL => GeneralPurposeRegister::AL,
        isa::Register::AH => GeneralPurposeRegister::AH,
        isa::Register::BL => GeneralPurposeRegister::BL,
        isa::Register::BH => GeneralPurposeRegister::BH,
        isa::Register::CL => GeneralPurposeRegister::CL,
        isa::Register::CH => GeneralPurposeRegister::CH,
        isa::Register::SP => GeneralPurposeRegister::SP,
        isa::Register::BP => GeneralPurposeRegister::BP,
    }
}

/// Decoding an encoded instruction gives back its opcode, mode and
/// registers: the control unit reads what the compiler writes.
#[verifier::spinoff_prover]
#[verifier::rlimit(50)]
pub proof fn law_decode_encode(op: isa::Opcode, mode: isa::Mode, rd: isa::Register, rs: isa::Register)
    ensures
        decodable(isa::spec_encode(op, mode, rd, rs)),
        decode(isa::spec_encode(op, mode, rd, rs)) == (DecodedInstruction {
            opcode: op,
            mode,
            rd: gpr_of(rd),
            rs: gpr_of(rs),
        }),
{
    let w = isa::spec_encode(op, mode, rd, rs);
    let di = DecodedInstruction { opcode: op, mode, rd: gpr_of(rd), rs: gpr_of(rs) };
    isa::lemma_opcode_code_injective(op, op);
    isa::lemma_mode_code_injective(mode, mode);
    isa::lemma_register_code_injective(rd, rd);
    isa::lemma_register_code_injective(rs, rs);
    let o = op.code() as int;
    let m = mode.code() as int;
    let d = rd.code() as int;
    let s = rs.code() as int;
    assert(w as int == o * 1024 + m * 64 + d * 8 + s);
    assert((o * 1024 + m * 64 + d * 8 + s) / 1024 == o);
    assert(((o * 1024 + m * 64 + d * 8 + s) / 64) % 16 == m);
    assert(((o * 1024 + m * 64 + d * 8 + s) / 8) % 8 == d);
    assert((o * 1024 + m * 64 + d * 8 + s) % 8 == s);
    assert(is_decoding_of(di, w));
    lemma_decode(di, w);
}

/// Pushing the flags to memory and loading them back (what an interrupt and
/// IRET do) gives the same flags.
pub proof fn law_flags_round_trip(f: Flags, x: u16, y: u16, g: Flags)
    ensures
        alu(AluOperation::LoadFlagsLeft, alu(AluOperation::PassFlags, x, y, f).0, y, g).2 == f,
{
    reveal(alu);
}

/// `k` ticks of the machine with nothing arriving on the input port.
pub open spec fn ticks(m: MachineView, k: nat) -> Result<MachineView, MachineError>
    decreases k,
{
    if k == 0 {
        Ok(m)
    } else {
        match machine_next(m, None) {
            Ok(m2) => ticks(m2, (k - 1) as nat),
            Err(e) => Err(e),
        }
    }
}

/// A machine about to fetch the instruction at `ip`, with no input pending
/// and the instruction pointer away from the I/O ports and the last words.
pub open spec fn fetching(m: MachineView) -> bool {
    &&& m.cu.state == CUState::InstructionFetch
    &&& m.cu.step == 0
    &&& !m.cu.halted
    &&& !m.dp.io_irq
    &&& m.dp.memory.len() == 65536
    &&& m.dp.regs.len() == 8
    &&& m.dp.ip < 0xFFFE
    &&& m.dp.ip != IO_READ && m.dp.ip != IO_WRITE
}

/// MOV Rd, Rs in register-to-register mode takes four ticks from the start
/// of its fetch and copies Rs into Rd; the instruction pointer moves to the
/// next word, and memory, output, flags and every other register stay.
pub proof fn law_mov_reg_to_reg(m: MachineView, rd: isa::Register, rs: isa::Register)
    requires
        fetching(m),
        m.dp.memory[m.dp.ip as int] == isa::spec_encode(isa::Opcode::Mov, isa::Mode::RegToReg, rd, rs),
    ensures
        ticks(m, 4) matches Ok(m4) && {
            &&& m4.dp.regs == m.dp.regs.update(gpr_of(rd).index(), m.dp.regs[gpr_of(rs).index()])
            &&& m4.dp.ip == m.dp.ip + 1
            &&& m4.dp.memory == m.dp.memory
            &&& m4.dp.io_write_data == m.dp.io_write_data
            &&& m4.dp.flags == m.dp.flags
            &&& m4.cu.state == CUState::InstructionFetch
            &&& m4.cu.step == 0
            &&& !m4.cu.halted
        },
{
    reveal_with_fuel(ticks, 5);
    let w = isa::spec_encode(isa::Opcode::Mov, isa::Mode::RegToReg, rd, rs);
    law_decode_encode(isa::Opcode::Mov, isa::Mode::RegToReg, rd, rs);
    let m1 = machine_next(m, None)->Ok_0;
    assert(machine_next(m, None) is Ok);
    assert(m1.dp.mar == m.dp.ip);
    let m2 = machine_next(m1, None)->Ok_0;
    assert(machine_next(m1, None) is Ok);
    assert(m2.dp.ir == w);
    assert(m2.cu.state == CUState::InstructionAnalyze);
    let m3 = machine_next(m2, None)->Ok_0;
    assert(machine_next(m2, None) is Ok);
    assert(m3.cu.state == CUState::Exec);
    assert(m3.dp.ir == w);
    reveal(binary_mode_signals);
    let m4 = machine_next(m3, None)->Ok_0;
    assert(machine_next(m3, None) is Ok);
    reveal(alu);
    assert(m4.dp.regs =~= m.dp.regs.update(gpr_of(rd).index(), m.dp.regs[gpr_of(rs).index()]));
}

/// The ALU operation of a two-operand arithmetic or logic instruction.
pub open spec fn alu_op_of(op: isa::Opcode) -> AluOperation {
    match op {
        isa::Opcode::Add => AluOperation::Add,
        isa::Opcode::AddC => AluOperation::AddC,
        isa::Opcode::Sub => AluOperation::Sub,
        isa::Opcode::SubC => AluOperation::SubC,
        isa::Opcode::And => AluOperation::And,
        isa::Opcode::Or => AluOperation::Or,
        _ => AluOperation::Xor,
    }
}

/// ADD, ADDC, SUB, SUBC, AND, OR and XOR in register-to-register mode take
/// four ticks from the start of their fetch: Rd gets `Rd op Rs` as the ALU
/// computes it, the flags are those the ALU reports, the instruction pointer
/// moves to the next word, and memory, output and every other register
/// stay.
pub proof fn law_alu_reg_to_reg(m: MachineView, op: isa::Opcode, rd: isa::Register, rs: isa::Register)
    requires
        fetching(m),
        op == isa::Opcode::Add || op == isa::Opcode::AddC || op == isa::Opcode::Sub || op
            == isa::Opcode::SubC || op == isa::Opcode::And || op == isa::Opcode::Or || op
            == isa::Opcode::Xor,
        m.dp.memory[m.dp.ip as int] == isa::spec_encode(op, isa::Mode::RegToReg, rd, rs),
    ensures
        ticks(m, 4) matches Ok(m4) && {
            let (res, _, f) = alu(
                alu_op_of(op),
                m.dp.regs[gpr_of(rd).index()],
                m.dp.regs[gpr_of(rs).index()],
                m.dp.flags,
            );
            &&& m4.dp.regs == m.dp.regs.update(gpr_of(rd).index(), res)
            &&& m4.dp.flags == f
            &&& m4.dp.ip == m.dp.ip + 1
            &&& m4.dp.memory == m.dp.memory
            &&& m4.dp.io_write_data == m.dp.io_write_data
            &&& m4.dp.io_irq == m.dp.io_irq
            &&& m4.cu.state == CUState::InstructionFetch
            &&& m4.cu.step == 0
            &&& !m4.cu.halted
        },
{
    reveal_with_fuel(ticks, 5);
    let w = isa::spec_encode(op, isa::Mode::RegToReg, rd, rs);
    law_decode_encode(op, isa::Mode::RegToReg, rd, rs);
    let m1 = machine_next(m, None)->Ok_0;
    assert(machine_next(m, None) is Ok);
    assert(m1.dp.mar == m.dp.ip);
    let m2 = machine_next(m1, None)->Ok_0;
    assert(machine_next(m1, None) is Ok);
    assert(m2.dp.ir == w);
    let m3 = machine_next(m2, None)->Ok_0;
    assert(machine_next(m2, None) is Ok);
    assert(m3.cu.state == CUState::Exec);
    assert(m3.dp.ir == w);
    reveal(binary_mode_signals);
    let m4 = machine_next(m3, None)->Ok_0;
    assert(machine_next(m3, None) is Ok);
    let (res, _, f) = alu(
        alu_op_of(op),
        m.dp.regs[gpr_of(rd).index()],
        m.dp.regs[gpr_of(rs).index()],
        m.dp.flags,
    );
    assert(m4.dp.regs =~= m.dp.regs.update(gpr_of(rd).index(), res));
}

/// Ticking `a` and then `b` times is ticking `a + b` times.
pub proof fn lemma_ticks_add(m: MachineView, a: nat, b: nat)
    ensures
        ticks(m, a + b) == match ticks(m, a) {
            Ok(x) => ticks(x, b),
            Err(e) => Err(e),
        },
    decreases a,
{
    if a > 0 {
        match machine_next(m, None) {
            Ok(m2) => {
                lemma_ticks_add(m2, (a - 1) as nat, b);
                assert((a + b - 1) as nat == (a - 1) as nat + b);
            },
            Err(_) => {},
        }
    }
}

/// Fetching a one-word register-to-register instruction takes three ticks:
/// the word is in the instruction register, the instruction pointer is one
/// word on, and registers, memory, flags and output are untouched.
proof fn lemma_fetch_one_word(m: MachineView, op: isa::Opcode, rd: isa::Register, rs: isa::Register)
    requires
        fetching(m),
        m.dp.memory[m.dp.ip as int] == isa::spec_encode(op, isa::Mode::RegToReg, rd, rs),
    ensures
        ticks(m, 3) matches Ok(m3) && {
            &&& m3.dp.ir == isa::spec_encode(op, isa::Mode::RegToReg, rd, rs)
            &&& m3.dp.ip == m.dp.ip + 1
            &&& m3.dp.regs == m.dp.regs
            &&& m3.dp.memory == m.dp.memory
            &&& m3.dp.flags == m.dp.flags
            &&& m3.dp.io_write_data == m.dp.io_write_data
            &&& m3.dp.io_irq == m.dp.io_irq
            &&& m3.cu == (crate::cpu::control_unit::ControlUnitView {
                state: CUState::Exec,
                step: 0,
                ..m.cu
            })
        },
{
    reveal_with_fuel(ticks, 4);
    let w = isa::spec_encode(op, isa::Mode::RegToReg, rd, rs);
    law_decode_encode(op, isa::Mode::RegToReg, rd, rs);
    let m1 = machine_next(m, None)->Ok_0;
    assert(machine_next(m, None) is Ok);
    assert(m1.dp.regs =~= m.dp.regs);
    let m2 = machine_next(m1, None)->Ok_0;
    assert(machine_next(m1, None) is Ok);
    assert(m2.dp.ir == w);
    assert(m2.dp.regs =~= m.dp.regs);
    let m3 = machine_next(m2, None)->Ok_0;
    assert(machine_next(m2, None) is Ok);
    assert(m3.dp.regs =~= m.dp.regs);
}

/// The word below the top of the stack: SP - 1, wrapping.
pub open spec fn below(sp: u16) -> u16 {
    wrap(sp - 1)
}

/// PUSH Rs takes six ticks from the start of its fetch: SP goes one word
/// down and Rs (read after that) is written there; the instruction pointer
/// moves to the next word, and flags, output and every other register stay.
#[verifier::spinoff_prover]
#[verifier::rlimit(50)]
pub proof fn law_push(m: MachineView, rd: isa::Register, rs: isa::Register)
    requires
        fetching(m),
        m.dp.memory[m.dp.ip as int] == isa::spec_encode(isa::Opcode::Push, isa::Mode::RegToReg, rd, rs),
        below(m.dp.regs[6]) != IO_READ,
        below(m.dp.regs[6]) != IO_WRITE,
    ensures
        ticks(m, 6) matches Ok(m6) && {
            let sp = below(m.dp.regs[6]);
            let regs = m.dp.regs.update(6, sp);
            &&& m6.dp.regs == regs
            &&& m6.dp.memory == m.dp.memory.update(sp as int, regs[gpr_of(rs).index()])
            &&& m6.dp.ip == m.dp.ip + 1
            &&& m6.dp.flags == m.dp.flags
            &&& m6.dp.io_write_data == m.dp.io_write_data
            &&& m6.dp.io_irq == m.dp.io_irq
            &&& m6.cu.state == CUState::InstructionFetch
            &&& m6.cu.step == 0
            &&& !m6.cu.halted
        },
{
    lemma_fetch_one_word(m, isa::Opcode::Push, rd, rs);
    law_decode_encode(isa::Opcode::Push, isa::Mode::RegToReg, rd, rs);
    lemma_ticks_add(m, 3, 3);
    let m3 = ticks(m, 3)->Ok_0;
    reveal_with_fuel(ticks, 4);
    let sp = below(m.dp.regs[6]);
    let m4 = machine_next(m3, None)->Ok_0;
    assert(machine_next(m3, None) is Ok);
    assert(m4.dp.regs =~= m.dp.regs.update(6, sp)) by {
        reveal(alu);
    }
    let m5 = machine_next(m4, None)->Ok_0;
    assert(machine_next(m4, None) is Ok);
    assert(m5.dp.mar == sp) by {
        reveal(alu);
    }
    assert(m5.dp.regs =~= m4.dp.regs);
    let m6 = machine_next(m5, None)->Ok_0;
    assert(machine_next(m5, None) is Ok);
    assert(m6.dp.regs =~= m5.dp.regs);
    assert(m6.dp.memory == m5.dp.memory.update(sp as int, m5.dp.regs[gpr_of(rs).index()])) by {
        reveal(alu);
    }
}

/// POP Rd takes seven ticks from the start of its fetch: Rd gets the word at
/// the top of the stack and SP goes one word up (Rd is written last); the
/// instruction pointer moves to the next word, and memory, flags, output and
/// every other register stay.
#[verifier::spinoff_prover]
#[verifier::rlimit(50)]
pub proof fn law_pop(m: MachineView, rd: isa::Register, rs: isa::Register)
    requires
        fetching(m),
        m.dp.memory[m.dp.ip as int] == isa::spec_encode(isa::Opcode::Pop, isa::Mode::RegToReg, rd, rs),
        m.dp.regs[6] != IO_READ,
        m.dp.regs[6] != IO_WRITE,
    ensures
        ticks(m, 7) matches Ok(m7) && {
            let sp = m.dp.regs[6];
            &&& m7.dp.regs == m.dp.regs.update(6, wrap(sp + 1)).update(
                gpr_of(rd).index(),
                m.dp.memory[sp as int],
            )
            &&& m7.dp.memory == m.dp.memory
            &&& m7.dp.ip == m.dp.ip + 1
            &&& m7.dp.flags == m.dp.flags
            &&& m7.dp.io_write_data == m.dp.io_write_data
            &&& m7.dp.io_irq == m.dp.io_irq
            &&& m7.cu.state == CUState::InstructionFetch
            &&& m7.cu.step == 0
            &&& !m7.cu.halted
        },
{
    lemma_fetch_one_word(m, isa::Opcode::Pop, rd, rs);
    law_decode_encode(isa::Opcode::Pop, isa::Mode::RegToReg, rd, rs);
    lemma_ticks_add(m, 3, 4);
    let m3 = ticks(m, 3)->Ok_0;
    reveal_with_fuel(ticks, 5);
    let sp = m.dp.regs[6];
    let m4 = machine_next(m3, None)->Ok_0;
    assert(machine_next(m3, None) is Ok);
    assert(m4.dp.mar == sp) by {
        reveal(alu);
    }
    assert(m4.dp.regs =~= m3.dp.regs);
    let m5 = machine_next(m4, None)->Ok_0;
    assert(machine_next(m4, None) is Ok);
    assert(m5.dp.regs =~= m.dp.regs.update(6, wrap(sp + 1))) by {
        reveal(alu);
    }
    let m6 = machine_next(m5, None)->Ok_0;
    assert(machine_next(m5, None) is Ok);
    assert(m6.dp.mdr == m.dp.memory[sp as int]);
    assert(m6.dp.regs =~= m5.dp.regs);
    let m7 = machine_next(m6, None)->Ok_0;
    assert(machine_next(m6, None) is Ok);
    assert(m7.dp.regs =~= m.dp.regs.update(6, wrap(sp + 1)).update(
        gpr_of(rd).index(),
        m.dp.memory[sp as int],
    )) by {
        reveal(alu);
    }
}

/// What POP reads back of PUSH: `PUSH Rs` followed by `POP Rd` copies Rs into
/// Rd and leaves SP as it was, in thirteen ticks; the word below the stack
/// keeps the copy.
#[verifier::spinoff_prover]
#[verifier::rlimit(50)]
pub proof fn law_push_then_pop(m: MachineView, rs: isa::Register, rd: isa::Register)
    requires
        fetching(m),
        m.dp.ip + 1 < 0xFFFE,
        m.dp.ip + 1 != IO_READ,
        m.dp.ip + 1 != IO_WRITE,
        m.dp.memory[m.dp.ip as int] == isa::spec_encode(
            isa::Opcode::Push,
            isa::Mode::RegToReg,
            isa::Register::AL,
            rs,
        ),
        m.dp.memory[m.dp.ip + 1] == isa::spec_encode(
            isa::Opcode::Pop,
            isa::Mode::RegToReg,
            rd,
            isa::Register::AL,
        ),
        rs != isa::Register::SP,
        rd != isa::Register::SP,
        below(m.dp.regs[6]) != IO_READ,
        below(m.dp.regs[6]) != IO_WRITE,
        below(m.dp.regs[6]) != m.dp.ip + 1,
    ensures
        ticks(m, 13) matches Ok(m13) && {
            &&& m13.dp.regs == m.dp.regs.update(gpr_of(rd).index(), m.dp.regs[gpr_of(rs).index()])
            &&& m13.dp.memory == m.dp.memory.update(
                below(m.dp.regs[6]) as int,
                m.dp.regs[gpr_of(rs).index()],
            )
            &&& m13.dp.ip == m.dp.ip + 2
            &&& m13.dp.flags == m.dp.flags
            &&& m13.dp.io_write_data == m.dp.io_write_data
            &&& m13.cu.state == CUState::InstructionFetch
            &&& m13.cu.step == 0
        },
{
    let sp = m.dp.regs[6];
    let b = below(sp);
    law_push(m, isa::Register::AL, rs);
    let m6 = ticks(m, 6)->Ok_0;
    assert(gpr_of(rs).index() != 6);
    assert(gpr_of(rd).index() != 6);
    assert(m6.dp.memory[m.dp.ip + 1] == m.dp.memory[m.dp.ip + 1]);
    assert(fetching(m6));
    law_pop(m6, rd, isa::Register::AL);
    lemma_ticks_add(m, 6, 7);
    let m13 = ticks(m6, 7)->Ok_0;
    assert(wrap(b + 1) == sp) by {
        if sp == 0 {
            assert(b == 0xFFFF);
        } else {
            assert(b == sp - 1);
        }
    }
    assert(m13.dp.regs =~= m.dp.regs.update(gpr_of(rd).index(), m.dp.regs[gpr_of(rs).index()]));
}

/// Fetching a two-word instruction (its second word an immediate) takes four
/// ticks: the first word is in the instruction register, the second in MDR,
/// the instruction pointer is two words on, and registers, memory, flags and
/// output are untouched.
proof fn lemma_fetch_two_words(m: MachineView, op: isa::Opcode, rd: isa::Register, rs: isa::Register)
    requires
        fetching(m),
        m.dp.ip + 1 != IO_READ,
        m.dp.ip + 1 != IO_WRITE,
        m.dp.memory[m.dp.ip as int] == isa::spec_encode(op, isa::Mode::ImmToReg, rd, rs),
    ensures
        ticks(m, 4) matches Ok(m4) && {
            &&& m4.dp.ir == isa::spec_encode(op, isa::Mode::ImmToReg, rd, rs)
            &&& m4.dp.mdr == m.dp.memory[m.dp.ip + 1]
            &&& m4.dp.ip == m.dp.ip + 2
            &&& m4.dp.regs == m.dp.regs
            &&& m4.dp.memory == m.dp.memory
            &&& m4.dp.flags == m.dp.flags
            &&& m4.dp.io_write_data == m.dp.io_write_data
            &&& m4.dp.io_irq == m.dp.io_irq
            &&& m4.cu == (crate::cpu::control_unit::ControlUnitView {
                state: CUState::Exec,
                step: 0,
                ..m.cu
            })
        },
{
    reveal_with_fuel(ticks, 5);
    let w = isa::spec_encode(op, isa::Mode::ImmToReg, rd, rs);
    law_decode_encode(op, isa::Mode::ImmToReg, rd, rs);
    let m1 = machine_next(m, None)->Ok_0;
    assert(machine_next(m, None) is Ok);
    assert(m1.dp.regs =~= m.dp.regs);
    let m2 = machine_next(m1, None)->Ok_0;
    assert(machine_next(m1, None) is Ok);
    assert(m2.dp.ir == w);
    assert(m2.dp.regs =~= m.dp.regs);
    let m3 = machine_next(m2, None)->Ok_0;
    assert(machine_next(m2, None) is Ok);
    assert(m3.dp.mar == m.dp.ip + 1);
    assert(m3.dp.regs =~= m.dp.regs);
    let m4 = machine_next(m3, None)->Ok_0;
    assert(machine_next(m3, None) is Ok);
    assert(m4.dp.regs =~= m.dp.regs);
}

/// CALL #addr takes eight ticks from the start of its fetch: SP goes one
/// word down, the address of the next instruction is written there, and the
/// instruction pointer goes to `addr`; flags, output and the other registers
/// stay.
#[verifier::spinoff_prover]
#[verifier::rlimit(50)]
pub proof fn law_call(m: MachineView, rd: isa::Register, rs: isa::Register)
    requires
        fetching(m),
        m.dp.ip + 2 < 0xFFFF,
        m.dp.ip + 1 != IO_READ,
        m.dp.ip + 1 != IO_WRITE,
        m.dp.memory[m.dp.ip as int] == isa::spec_encode(isa::Opcode::Call, isa::Mode::ImmToReg, rd, rs),
        below(m.dp.regs[6]) != IO_READ,
        below(m.dp.regs[6]) != IO_WRITE,
    ensures
        ticks(m, 8) matches Ok(m8) && {
            let sp = below(m.dp.regs[6]);
            &&& m8.dp.regs == m.dp.regs.update(6, sp)
            &&& m8.dp.memory == m.dp.memory.update(sp as int, (m.dp.ip + 2) as u16)
            &&& m8.dp.ip == m.dp.memory[m.dp.ip + 1]
            &&& m8.dp.flags == m.dp.flags
            &&& m8.dp.io_write_data == m.dp.io_write_data
            &&& m8.dp.io_irq == m.dp.io_irq
            &&& m8.cu.state == CUState::InstructionFetch
            &&& m8.cu.step == 0
            &&& !m8.cu.halted
        },
{
    lemma_fetch_two_words(m, isa::Opcode::Call, rd, rs);
    law_decode_encode(isa::Opcode::Call, isa::Mode::ImmToReg, rd, rs);
    lemma_ticks_add(m, 4, 4);
    let m4 = ticks(m, 4)->Ok_0;
    reveal_with_fuel(ticks, 5);
    let sp = below(m.dp.regs[6]);
    let m5 = machine_next(m4, None)->Ok_0;
    assert(machine_next(m4, None) is Ok);
    assert(m5.dp.regs =~= m.dp.regs.update(6, sp)) by {
        reveal(alu);
    }
    let m6 = machine_next(m5, None)->Ok_0;
    assert(machine_next(m5, None) is Ok);
    assert(m6.dp.mar == sp) by {
        reveal(alu);
    }
    assert(m6.dp.regs =~= m5.dp.regs);
    let m7 = machine_next(m6, None)->Ok_0;
    assert(machine_next(m6, None) is Ok);
    assert(m7.dp.regs =~= m5.dp.regs);
    assert(m7.dp.memory == m.dp.memory.update(sp as int, (m.dp.ip + 2) as u16)) by {
        reveal(alu);
    }
    let m8 = machine_next(m7, None)->Ok_0;
    assert(machine_next(m7, None) is Ok);
    assert(m8.dp.regs =~= m5.dp.regs);
    assert(m8.dp.ip == m.dp.memory[m.dp.ip + 1]) by {
        reveal(alu);
    }
}

/// RET takes seven ticks from the start of its fetch: the instruction
/// pointer gets the word at the top of the stack and SP goes one word up;
/// memory, flags, output and the other registers stay.
#[verifier::spinoff_prover]
#[verifier::rlimit(50)]
pub proof fn law_ret(m: MachineView, rd: isa::Register, rs: isa::Register)
    requires
        fetching(m),
        m.dp.memory[m.dp.ip as int] == isa::spec_encode(isa::Opcode::Ret, isa::Mode::RegToReg, rd, rs),
        m.dp.regs[6] != IO_READ,
        m.dp.regs[6] != IO_WRITE,
    ensures
        ticks(m, 7) matches Ok(m7) && {
            let sp = m.dp.regs[6];
            &&& m7.dp.regs == m.dp.regs.update(6, wrap(sp + 1))
            &&& m7.dp.ip == m.dp.memory[sp as int]
            &&& m7.dp.memory == m.dp.memory
            &&& m7.dp.flags == m.dp.flags
            &&& m7.dp.io_write_data == m.dp.io_write_data
            &&& m7.dp.io_irq == m.dp.io_irq
            &&& m7.cu.state == CUState::InstructionFetch
            &&& m7.cu.step == 0
            &&& !m7.cu.halted
        },
{
    lemma_fetch_one_word(m, isa::Opcode::Ret, rd, rs);
    law_decode_encode(isa::Opcode::Ret, isa::Mode::RegToReg, rd, rs);
    lemma_ticks_add(m, 3, 4);
    let m3 = ticks(m, 3)->Ok_0;
    reveal_with_fuel(ticks, 5);
    let sp = m.dp.regs[6];
    let m4 = machine_next(m3, None)->Ok_0;
    assert(machine_next(m3, None) is Ok);
    assert(m4.dp.mar == sp) by {
        reveal(alu);
    }
    assert(m4.dp.regs =~= m3.dp.regs);
    let m5 = machine_next(m4, None)->Ok_0;
    assert(machine_next(m4, None) is Ok);
    assert(m5.dp.regs =~= m.dp.regs.update(6, wrap(sp + 1))) by {
        reveal(alu);
    }
    let m6 = machine_next(m5, None)->Ok_0;
    assert(machine_next(m5, None) is Ok);
    assert(m6.dp.mdr == m.dp.memory[sp as int]);
    assert(m6.dp.regs =~= m5.dp.regs);
    let m7 = machine_next(m6, None)->Ok_0;
    assert(machine_next(m6, None) is Ok);
    assert(m7.dp.regs =~= m5.dp.regs);
    assert(m7.dp.ip == m.dp.memory[sp as int]) by {
        reveal(alu);
    }
}

/// What RET undoes of CALL: `CALL #addr` to a `RET` comes back, in fifteen
/// ticks, to the instruction after the call with SP and every register as
/// they were; the word below the stack keeps the return address.
#[verifier::spinoff_prover]
#[verifier::rlimit(50)]
pub proof fn law_call_then_ret(m: MachineView)
    requires
        fetching(m),
        m.dp.ip + 2 < 0xFFFF,
        m.dp.ip + 1 != IO_READ,
        m.dp.ip + 1 != IO_WRITE,
        m.dp.memory[m.dp.ip as int] == isa::spec_encode(
            isa::Opcode::Call,
            isa::Mode::ImmToReg,
            isa::Register::AL,
            isa::Register::AL,
        ),
        m.dp.memory[m.dp.ip + 1] < 0xFFFE,
        m.dp.memory[m.dp.ip + 1] != IO_READ,
        m.dp.memory[m.dp.ip + 1] != IO_WRITE,
        m.dp.memory[m.dp.memory[m.dp.ip + 1] as int] == isa::spec_encode(
            isa::Opcode::Ret,
            isa::Mode::RegToReg,
            isa::Register::AL,
            isa::Register::AL,
        ),
        below(m.dp.regs[6]) != IO_READ,
        below(m.dp.regs[6]) != IO_WRITE,
        below(m.dp.regs[6]) != m.dp.memory[m.dp.ip + 1],
    ensures
        ticks(m, 15) matches Ok(m15) && {
            &&& m15.dp.regs == m.dp.regs
            &&& m15.dp.ip == m.dp.ip + 2
            &&& m15.dp.memory == m.dp.memory.update(
                below(m.dp.regs[6]) as int,
                (m.dp.ip + 2) as u16,
            )
            &&& m15.dp.flags == m.dp.flags
            &&& m15.dp.io_write_data == m.dp.io_write_data
            &&& m15.cu.state == CUState::InstructionFetch
            &&& m15.cu.step == 0
        },
{
    let sp = m.dp.regs[6];
    let b = below(sp);
    let t = m.dp.memory[m.dp.ip + 1];
    law_call(m, isa::Register::AL, isa::Register::AL);
    let m8 = ticks(m, 8)->Ok_0;
    assert(m8.dp.memory[t as int] == m.dp.memory[t as int]);
    assert(fetching(m8));
    law_ret(m8, isa::Register::AL, isa::Register::AL);
    lemma_ticks_add(m, 8, 7);
    let m15 = ticks(m8, 7)->Ok_0;
    assert(wrap(b + 1) == sp) by {
        if sp == 0 {
            assert(b == 0xFFFF);
        } else {
            assert(b == sp - 1);
        }
    }
    assert(m15.dp.regs =~= m.dp.regs);
}

/// Whether an opcode is one of the jumps.
pub open spec fn is_jump(op: isa::Opcode) -> bool {
    ||| op == isa::Opcode::Jmp
    ||| op == isa::Opcode::Je
    ||| op == isa::Opcode::Jne
    ||| op == isa::Opcode::Jns
    ||| op == isa::Opcode::Jnc
    ||| op == isa::Opcode::Jcs
    ||| op == isa::Opcode::Jcc
    ||| op == isa::Opcode::Jos
    ||| op == isa::Opcode::Joc
    ||| op == isa::Opcode::Jl
    ||| op == isa::Opcode::Jle
    ||| op == isa::Opcode::Jg
    ||| op == isa::Opcode::Jge
}

/// A jump `J #addr` takes five ticks from the start of its fetch: the
/// instruction pointer goes to `addr` when the jump's condition holds of the
/// flags (always, for JMP) and to the next instruction otherwise; registers,
/// memory, flags and output stay.
#[verifier::spinoff_prover]
#[verifier::rlimit(50)]
pub proof fn law_jump(m: MachineView, op: isa::Opcode, rd: isa::Register, rs: isa::Register)
    requires
        fetching(m),
        is_jump(op),
        m.dp.ip + 2 < 0xFFFF,
        m.dp.ip + 1 != IO_READ,
        m.dp.ip + 1 != IO_WRITE,
        m.dp.memory[m.dp.ip as int] == isa::spec_encode(op, isa::Mode::ImmToReg, rd, rs),
    ensures
        ticks(m, 5) matches Ok(m5) && {
            &&& m5.dp.ip == if crate::cpu::control_unit::jump_taken(op, m.dp.flags) {
                m.dp.memory[m.dp.ip + 1]
            } else {
                (m.dp.ip + 2) as u16
            }
            &&& m5.dp.regs == m.dp.regs
            &&& m5.dp.memory == m.dp.memory
            &&& m5.dp.flags == m.dp.flags
            &&& m5.dp.io_write_data == m.dp.io_write_data
            &&& m5.cu.state == CUState::InstructionFetch
            &&& m5.cu.step == 0
        },
{
    lemma_fetch_two_words(m, op, rd, rs);
    law_decode_encode(op, isa::Mode::ImmToReg, rd, rs);
    lemma_ticks_add(m, 4, 1);
    let m4 = ticks(m, 4)->Ok_0;
    reveal_with_fuel(ticks, 2);
    let m5 = machine_next(m4, None)->Ok_0;
    assert(machine_next(m4, None) is Ok);
    assert(m5.dp.regs =~= m.dp.regs);
    assert(m5.dp.ip == if crate::cpu::control_unit::jump_taken(op, m.dp.flags) {
        m.dp.memory[m.dp.ip + 1]
    } else {
        (m.dp.ip + 2) as u16
    }) by {
        reveal(alu);
    }
}

/// The ALU operation of a one-operand instruction.
pub open spec fn unary_op_of(op: isa::Opcode) -> AluOperation {
    match op {
        isa::Opcode::Inc => AluOperation::Inc,
        isa::Opcode::Dec => AluOperation::Dec,
        isa::Opcode::Neg => AluOperation::Neg,
        _ => AluOperation::Not,
    }
}

/// INC, DEC, NEG and NOT Rd, Rs take four ticks from the start of their
/// fetch: Rd gets the operation applied to Rs, the flags are those the ALU
/// reports, the instruction pointer moves to the next word, and memory,
/// output and every other register stay.
#[verifier::spinoff_prover]
#[verifier::rlimit(50)]
pub proof fn law_unary(m: MachineView, op: isa::Opcode, rd: isa::Register, rs: isa::Register)
    requires
        fetching(m),
        op == isa::Opcode::Inc || op == isa::Opcode::Dec || op == isa::Opcode::Neg || op
            == isa::Opcode::Not,
        m.dp.memory[m.dp.ip as int] == isa::spec_encode(op, isa::Mode::RegToReg, rd, rs),
    ensures
        ticks(m, 4) matches Ok(m4) && {
            let v = m.dp.regs[gpr_of(rs).index()];
            let (res, _, f) = alu(unary_op_of(op), v, v, m.dp.flags);
            &&& m4.dp.regs == m.dp.regs.update(gpr_of(rd).index(), res)
            &&& m4.dp.flags == f
            &&& m4.dp.ip == m.dp.ip + 1
            &&& m4.dp.memory == m.dp.memory
            &&& m4.dp.io_write_data == m.dp.io_write_data
            &&& m4.dp.io_irq == m.dp.io_irq
            &&& m4.cu.state == CUState::InstructionFetch
            &&& m4.cu.step == 0
            &&& !m4.cu.halted
        },
{
    lemma_fetch_one_word(m, op, rd, rs);
    law_decode_encode(op, isa::Mode::RegToReg, rd, rs);
    lemma_ticks_add(m, 3, 1);
    let m3 = ticks(m, 3)->Ok_0;
    reveal_with_fuel(ticks, 2);
    let m4 = machine_next(m3, None)->Ok_0;
    assert(machine_next(m3, None) is Ok);
    let v = m.dp.regs[gpr_of(rs).index()];
    let (res, _, f) = alu(unary_op_of(op), v, v, m.dp.flags);
    assert(m4.dp.regs =~= m.dp.regs.update(gpr_of(rd).index(), res));
}

/// ENTER #n takes nine ticks from the start of its fetch: BP is pushed, BP
/// gets the new top of the stack, and SP goes `n` words further down; the
/// instruction pointer moves past the immediate, and flags, output and the
/// other registers stay.
#[verifier::spinoff_prover]
#[verifier::rlimit(50)]
pub proof fn law_enter(m: MachineView, rd: isa::Register, rs: isa::Register)
    requires
        fetching(m),
        m.dp.ip + 2 < 0xFFFF,
        m.dp.ip + 1 != IO_READ,
        m.dp.ip + 1 != IO_WRITE,
        m.dp.memory[m.dp.ip as int] == isa::spec_encode(isa::Opcode::Enter, isa::Mode::ImmToReg, rd, rs),
        below(m.dp.regs[6]) != IO_READ,
        below(m.dp.regs[6]) != IO_WRITE,
    ensures
        ticks(m, 9) matches Ok(m9) && {
            let top = below(m.dp.regs[6]);
            let n = m.dp.memory[m.dp.ip + 1];
            &&& m9.dp.regs == m.dp.regs.update(7, top).update(6, wrap(top - n))
            &&& m9.dp.memory == m.dp.memory.update(top as int, m.dp.regs[7])
            &&& m9.dp.ip == m.dp.ip + 2
            &&& m9.dp.flags == m.dp.flags
            &&& m9.dp.io_write_data == m.dp.io_write_data
            &&& m9.dp.io_irq == m.dp.io_irq
            &&& m9.cu.state == CUState::InstructionFetch
            &&& m9.cu.step == 0
            &&& !m9.cu.halted
        },
{
    lemma_fetch_two_words(m, isa::Opcode::Enter, rd, rs);
    law_decode_encode(isa::Opcode::Enter, isa::Mode::ImmToReg, rd, rs);
    lemma_ticks_add(m, 4, 5);
    let m4 = ticks(m, 4)->Ok_0;
    reveal_with_fuel(ticks, 6);
    let top = below(m.dp.regs[6]);
    let n = m.dp.memory[m.dp.ip + 1];
    let m5 = machine_next(m4, None)->Ok_0;
    assert(machine_next(m4, None) is Ok);
    assert(m5.dp.regs =~= m.dp.regs.update(6, top)) by {
        reveal(alu);
    }
    let m6 = machine_next(m5, None)->Ok_0;
    assert(machine_next(m5, None) is Ok);
    assert(m6.dp.mar == top) by {
        reveal(alu);
    }
    assert(m6.dp.regs =~= m5.dp.regs);
    let m7 = machine_next(m6, None)->Ok_0;
    assert(machine_next(m6, None) is Ok);
    assert(m7.dp.regs =~= m5.dp.regs);
    assert(m7.dp.memory == m.dp.memory.update(top as int, m.dp.regs[7])) by {
        reveal(alu);
    }
    let m8 = machine_next(m7, None)->Ok_0;
    assert(machine_next(m7, None) is Ok);
    assert(m8.dp.regs =~= m.dp.regs.update(6, top).update(7, top)) by {
        reveal(alu);
    }
    let m9 = machine_next(m8, None)->Ok_0;
    assert(machine_next(m8, None) is Ok);
    assert(m9.dp.regs =~= m.dp.regs.update(7, top).update(6, wrap(top - n))) by {
        reveal(alu);
    }
}

/// LEAVE takes eight ticks from the start of its fetch: SP gets BP, and BP
/// is popped from there; the instruction pointer moves to the next word, and
/// memory, flags, output and the other registers stay.
#[verifier::spinoff_prover]
#[verifier::rlimit(50)]
pub proof fn law_leave(m: MachineView, rd: isa::Register, rs: isa::Register)
    requires
        fetching(m),
        m.dp.memory[m.dp.ip as int] == isa::spec_encode(isa::Opcode::Leave, isa::Mode::RegToReg, rd, rs),
        m.dp.regs[7] != IO_READ,
        m.dp.regs[7] != IO_WRITE,
    ensures
        ticks(m, 8) matches Ok(m8) && {
            let bp = m.dp.regs[7];
            &&& m8.dp.regs == m.dp.regs.update(6, wrap(bp + 1)).update(7, m.dp.memory[bp as int])
            &&& m8.dp.memory == m.dp.memory
            &&& m8.dp.ip == m.dp.ip + 1
            &&& m8.dp.flags == m.dp.flags
            &&& m8.dp.io_write_data == m.dp.io_write_data
            &&& m8.dp.io_irq == m.dp.io_irq
            &&& m8.cu.state == CUState::InstructionFetch
            &&& m8.cu.step == 0
            &&& !m8.cu.halted
        },
{
    lemma_fetch_one_word(m, isa::Opcode::Leave, rd, rs);
    law_decode_encode(isa::Opcode::Leave, isa::Mode::RegToReg, rd, rs);
    lemma_ticks_add(m, 3, 5);
    let m3 = ticks(m, 3)->Ok_0;
    reveal_with_fuel(ticks, 6);
    let bp = m.dp.regs[7];
    let m4 = machine_next(m3, None)->Ok_0;
    assert(machine_next(m3, None) is Ok);
    assert(m4.dp.regs =~= m.dp.regs.update(6, bp)) by {
        reveal(alu);
    }
    let m5 = machine_next(m4, None)->Ok_0;
    assert(machine_next(m4, None) is Ok);
    assert(m5.dp.mar == bp) by {
        reveal(alu);
    }
    assert(m5.dp.regs =~= m4.dp.regs);
    let m6 = machine_next(m5, None)->Ok_0;
    assert(machine_next(m5, None) is Ok);
    assert(m6.dp.regs =~= m.dp.regs.update(6, wrap(bp + 1))) by {
        reveal(alu);
    }
    let m7 = machine_next(m6, None)->Ok_0;
    assert(machine_next(m6, None) is Ok);
    assert(m7.dp.mdr == m.dp.memory[bp as int]);
    assert(m7.dp.regs =~= m6.dp.regs);
    let m8 = machine_next(m7, None)->Ok_0;
    assert(machine_next(m7, None) is Ok);
    assert(m8.dp.regs =~= m.dp.regs.update(6, wrap(bp + 1)).update(7, m.dp.memory[bp as int])) by {
        reveal(alu);
    }
}

/// What LEAVE undoes of ENTER: `ENTER #n` followed by `LEAVE` gives SP and
/// BP back as they were, in seventeen ticks, with every other register as it
/// was; the word below the stack keeps the saved BP.
#[verifier::spinoff_prover]
#[verifier::rlimit(50)]
pub proof fn law_enter_then_leave(m: MachineView)
    requires
        fetching(m),
        m.dp.ip + 3 < 0xFFFE,
        m.dp.ip + 1 != IO_READ,
        m.dp.ip + 1 != IO_WRITE,
        m.dp.ip + 2 != IO_READ,
        m.dp.ip + 2 != IO_WRITE,
        m.dp.memory[m.dp.ip as int] == isa::spec_encode(
            isa::Opcode::Enter,
            isa::Mode::ImmToReg,
            isa::Register::AL,
            isa::Register::AL,
        ),
        m.dp.memory[m.dp.ip + 2] == isa::spec_encode(
            isa::Opcode::Leave,
            isa::Mode::RegToReg,
            isa::Register::AL,
            isa::Register::AL,
        ),
        below(m.dp.regs[6]) != IO_READ,
        below(m.dp.regs[6]) != IO_WRITE,
        below(m.dp.regs[6]) != m.dp.ip + 2,
    ensures
        ticks(m, 17) matches Ok(m17) && {
            &&& m17.dp.regs == m.dp.regs
            &&& m17.dp.memory == m.dp.memory.update(below(m.dp.regs[6]) as int, m.dp.regs[7])
            &&& m17.dp.ip == m.dp.ip + 3
            &&& m17.dp.flags == m.dp.flags
            &&& m17.dp.io_write_data == m.dp.io_write_data
            &&& m17.cu.state == CUState::InstructionFetch
            &&& m17.cu.step == 0
        },
{
    let sp = m.dp.regs[6];
    let top = below(sp);
    law_enter(m, isa::Register::AL, isa::Register::AL);
    let m9 = ticks(m, 9)->Ok_0;
    assert(m9.dp.memory[m.dp.ip + 2] == m.dp.memory[m.dp.ip + 2]);
    assert(m9.dp.regs[7] == top);
    assert(fetching(m9));
    law_leave(m9, isa::Register::AL, isa::Register::AL);
    lemma_ticks_add(m, 9, 8);
    let m17 = ticks(m9, 8)->Ok_0;
    assert(wrap(top + 1) == sp) by {
        if sp == 0 {
            assert(top == 0xFFFF);
        } else {
            assert(top == sp - 1);
        }
    }
    assert(m17.dp.regs =~= m.dp.regs);
}

/// HLT takes four ticks from the start of its fetch and halts the machine;
/// registers, memory, flags and output stay.
pub proof fn law_halt(m: MachineView, rd: isa::Register, rs: isa::Register)
    requires
        fetching(m),
        m.dp.memory[m.dp.ip as int] == isa::spec_encode(isa::Opcode::Hlt, isa::Mode::RegToReg, rd, rs),
    ensures
        ticks(m, 4) matches Ok(m4) && {
            &&& m4.cu.halted
            &&& m4.dp.regs == m.dp.regs
            &&& m4.dp.memory == m.dp.memory
            &&& m4.dp.flags == m.dp.flags
            &&& m4.dp.io_write_data == m.dp.io_write_data
        },
{
    lemma_fetch_one_word(m, isa::Opcode::Hlt, rd, rs);
    law_decode_encode(isa::Opcode::Hlt, isa::Mode::RegToReg, rd, rs);
    lemma_ticks_add(m, 3, 1);
    let m3 = ticks(m, 3)->Ok_0;
    reveal_with_fuel(ticks, 2);
    let m4 = machine_next(m3, None)->Ok_0;
    assert(machine_next(m3, None) is Ok);
    assert(m4.dp.regs =~= m.dp.regs);
}

/// The ALU operation of MOV and of the two-operand arithmetic and logic
/// instructions.
pub open spec fn binary_op_of(op: isa::Opcode) -> AluOperation {
    if op == isa::Opcode::Mov {
        AluOperation::PassRight
    } else {
        alu_op_of(op)
    }
}

/// MOV, ADD, ADDC, SUB, SUBC, AND, OR and XOR Rd, #imm take five ticks from
/// the start of their fetch: Rd gets `Rd op imm` as the ALU computes it (the
/// immediate itself, for MOV), the flags are those the ALU reports (kept, for
/// MOV), the instruction pointer moves past the immediate, and memory, output
/// and every other register stay.
#[verifier::spinoff_prover]
#[verifier::rlimit(50)]
pub proof fn law_imm_to_reg(m: MachineView, op: isa::Opcode, rd: isa::Register, rs: isa::Register)
    requires
        fetching(m),
        m.dp.ip + 2 < 0xFFFF,
        m.dp.ip + 1 != IO_READ,
        m.dp.ip + 1 != IO_WRITE,
        op == isa::Opcode::Mov || op == isa::Opcode::Add || op == isa::Opcode::AddC || op
            == isa::Opcode::Sub || op == isa::Opcode::SubC || op == isa::Opcode::And || op
            == isa::Opcode::Or || op == isa::Opcode::Xor,
        m.dp.memory[m.dp.ip as int] == isa::spec_encode(op, isa::Mode::ImmToReg, rd, rs),
    ensures
        ticks(m, 5) matches Ok(m5) && {
            let imm = m.dp.memory[m.dp.ip + 1];
            let (res, _, f) = alu(
                binary_op_of(op),
                m.dp.regs[gpr_of(rd).index()],
                imm,
                m.dp.flags,
            );
            &&& m5.dp.regs == m.dp.regs.update(gpr_of(rd).index(), res)
            &&& m5.dp.flags == if op == isa::Opcode::Mov {
                m.dp.flags
            } else {
                f
            }
            &&& m5.dp.ip == m.dp.ip + 2
            &&& m5.dp.memory == m.dp.memory
            &&& m5.dp.io_write_data == m.dp.io_write_data
            &&& m5.dp.io_irq == m.dp.io_irq
            &&& m5.cu.state == CUState::InstructionFetch
            &&& m5.cu.step == 0
            &&& !m5.cu.halted
        },
{
    lemma_fetch_two_words(m, op, rd, rs);
    law_decode_encode(op, isa::Mode::ImmToReg, rd, rs);
    lemma_ticks_add(m, 4, 1);
    let m4 = ticks(m, 4)->Ok_0;
    reveal_with_fuel(ticks, 2);
    reveal(binary_mode_signals);
    let m5 = machine_next(m4, None)->Ok_0;
    assert(machine_next(m4, None) is Ok);
    let imm = m.dp.memory[m.dp.ip + 1];
    let (res, _, f) = alu(binary_op_of(op), m.dp.regs[gpr_of(rd).index()], imm, m.dp.flags);
    assert(m5.dp.regs =~= m.dp.regs.update(gpr_of(rd).index(), res));
}

/// Once halted, the machine stays halted; and it halts only on executing
/// HLT.
pub proof fn law_halt_sticks(m: MachineView, input: Option<u16>)
    ensures
        machine_next(m, input) matches Ok(m2) ==> {
            &&& m.cu.halted ==> m2.cu.halted
            &&& (!m.cu.halted && m2.cu.halted) ==> (m.cu.state == CUState::Exec && decode(
                m.dp.ir,
            ).opcode == isa::Opcode::Hlt)
        },
{
}

/// One tick sends at most one word to the output port: the words sent
/// before stay as they were.
pub proof fn law_output_one_word(m: MachineView, input: Option<u16>)
    ensures
        machine_next(m, input) matches Ok(m2) ==> {
            ||| m2.dp.io_write_data == m.dp.io_write_data
            ||| exists|w: u16| m2.dp.io_write_data == m.dp.io_write_data.push(w)
        },
{
    match machine_next(m, input) {
        Ok(m2) => {
            if m2.dp.io_write_data != m.dp.io_write_data {
                let dp1 = crate::cpu::machine::with_input(m.dp, input);
                let cs = crate::cpu::control_unit::cu_next(m.cu, dp1).1;
                let (l, r) = crate::cpu::data_path::alu_inputs(dp1, cs);
                let w = alu(cs.alu_operation, l, r, dp1.flags).0;
                assert(m2.dp.io_write_data == m.dp.io_write_data.push(w));
            }
        },
        Err(_) => {},
    }
}

/// The output only grows: after any number of ticks, the words sent before
/// are still the first words sent, in order.
pub proof fn law_output_grows(m: MachineView, k: nat)
    ensures
        ticks(m, k) matches Ok(mk) ==> {
            &&& m.dp.io_write_data.len() <= mk.dp.io_write_data.len()
            &&& mk.dp.io_write_data.subrange(0, m.dp.io_write_data.len() as int)
                == m.dp.io_write_data
        },
    decreases k,
{
    if k > 0 {
        law_output_one_word(m, None);
        match machine_next(m, None) {
            Ok(m2) => {
                law_output_grows(m2, (k - 1) as nat);
                match ticks(m2, (k - 1) as nat) {
                    Ok(mk) => {
                        let o = m.dp.io_write_data;
                        let o2 = m2.dp.io_write_data;
                        assert(o2.subrange(0, o.len() as int) =~= o);
                        assert(mk.dp.io_write_data.subrange(0, o.len() as int) =~= o2.subrange(
                            0,
                            o.len() as int,
                        ));
                    },
                    Err(_) => {},
                }
            },
            Err(_) => {},
        }
    }
}

/// A read of the input port gives the word that arrived and takes it: the
/// buffer empties and the interrupt line drops, so a second read before the
/// next word arrives stops the machine; memory and output are untouched.
pub proof fn law_input_read_once(s: DataPathView, cs: ControlSignals)
    requires
        cs.mem_read,
        !cs.mem_write,
        s.mar == IO_READ,
        !dp_faults(s, cs),
    ensures
        mem_out(s, cs.mem_read, cs.mem_write) == s.io_read_buffer,
        s.io_irq,
        !dp_next(s, cs).io_irq,
        dp_next(s, cs).io_read_buffer == 0,
        dp_next(s, cs).memory == s.memory,
        dp_next(s, cs).io_write_data == s.io_write_data,
        access_faults(IO_READ, dp_next(s, cs).io_irq, true, false),
{
}

/// The bytes of a list of words: each word's low byte, then its high byte.
pub open spec fn words_bytes(ws: Seq<u16>) -> Seq<u8> {
    Seq::new(
        2 * ws.len(),
        |i: int|
            if i % 2 == 0 {
                (ws[i / 2] % 256) as u8
            } else {
                (ws[i / 2] / 256) as u8
            },
    )
}

/// The words of a binary made of blocks from `i` on: each block is its
/// address, its size and its words.
pub open spec fn blocks_words(bs: Seq<(u16, Seq<u16>)>, i: int) -> Seq<u16>
    decreases bs.len() - i,
{
    if i < 0 || i >= bs.len() {
        seq![]
    } else {
        seq![bs[i].0, bs[i].1.len() as u16] + bs[i].1 + blocks_words(bs, i + 1)
    }
}

/// Memory with words written from address `off` on.
pub open spec fn write_words(mem: Seq<u16>, off: int, ws: Seq<u16>) -> Seq<u16> {
    Seq::new(mem.len(), |a: int| if off <= a < off + ws.len() { ws[a - off] } else { mem[a] })
}

/// Memory with the blocks from `i` on written in order, a later block over an
/// earlier one.
pub open spec fn apply_blocks(mem: Seq<u16>, bs: Seq<(u16, Seq<u16>)>, i: int) -> Seq<u16>
    decreases bs.len() - i,
{
    if i < 0 || i >= bs.len() {
        mem
    } else {
        apply_blocks(write_words(mem, bs[i].0 as int, bs[i].1), bs, i + 1)
    }
}

/// A block that fits in memory, its size a word.
pub open spec fn block_fits(b: (u16, Seq<u16>)) -> bool {
    b.1.len() < 0x10000 && b.0 + b.1.len() <= 0x10000
}

proof fn lemma_words_bytes(ws: Seq<u16>, k: int)
    requires
        0 <= k < ws.len(),
    ensures
        image_word(words_bytes(ws), k) == ws[k],
{
    let b = words_bytes(ws);
    assert(b[2 * k] == (ws[k] % 256) as u8);
    assert(b[2 * k + 1] == (ws[k] / 256) as u8);
    assert(((ws[k] % 256) as u8) as int == ws[k] % 256);
    assert(((ws[k] / 256) as u8) as int == ws[k] / 256);
    assert(ws[k] % 256 + 256 * (ws[k] / 256) == ws[k]);
}

proof fn lemma_load_blocks(pre: Seq<u16>, bs: Seq<(u16, Seq<u16>)>, i: int, mem: Seq<u16>)
    requires
        0 <= i <= bs.len(),
        mem.len() == 65536,
        forall|j: int| 0 <= j < bs.len() ==> block_fits(#[trigger] bs[j]),
    ensures
        load_blocks(words_bytes(pre + blocks_words(bs, i)), pre.len(), mem) == Some(
            apply_blocks(mem, bs, i),
        ),
    decreases bs.len() - i,
{
    let w = pre + blocks_words(bs, i);
    let b = words_bytes(w);
    let p = pre.len();
    assert(b.len() / 2 == w.len());
    if i == bs.len() {
        assert(w =~= pre);
    } else {
        let off = bs[i].0;
        let d = bs[i].1;
        let m = d.len();
        assert(block_fits(bs[i]));
        let rest = blocks_words(bs, i + 1);
        assert(w =~= pre + seq![off, m as u16] + d + rest);
        assert(w[p as int] == off);
        assert(w[p + 1int] == m as u16);
        lemma_words_bytes(w, p as int);
        lemma_words_bytes(w, p + 1int);
        assert(image_word(b, p as int) == off);
        assert(image_word(b, p + 1int) == m);
        let mem2 = write_block(mem, b, off as int, p + 2int, m as int);
        assert forall|a: int| 0 <= a < mem.len() implies #[trigger] mem2[a] == write_words(
            mem,
            off as int,
            d,
        )[a] by {
            if off <= a < off + m {
                lemma_words_bytes(w, p + 2 + a - off);
                assert(w[p + 2 + a - off] == d[a - off]);
            }
        }
        assert(mem2 =~= write_words(mem, off as int, d));
        let pre2 = pre + seq![off, m as u16] + d;
        assert(pre2 + rest =~= w);
        lemma_load_blocks(pre2, bs, i + 1, write_words(mem, off as int, d));
        assert(pre2.len() == p + 2 + m);
    }
}

/// A binary made of blocks, each an address, a size and words, loads as
/// zeros overwritten by each block's words at its address, in order, when
/// every block fits in memory.
pub proof fn law_blocks_load(bs: Seq<(u16, Seq<u16>)>)
    requires
        forall|j: int| 0 <= j < bs.len() ==> block_fits(#[trigger] bs[j]),
    ensures
        load_image(words_bytes(blocks_words(bs, 0))) == Some(apply_blocks(zero_memory(), bs, 0)),
{
    lemma_load_blocks(seq![], bs, 0, zero_memory());
    assert(Seq::<u16>::empty() + blocks_words(bs, 0) =~= blocks_words(bs, 0));
    assert(words_bytes(blocks_words(bs, 0)).len() % 2 == 0);
}

/// At the last step of an instruction the machine turns to the interrupt
/// handler exactly when a word is waiting, interrupts are enabled and no
/// handler is running; it then blocks further interrupts.
pub proof fn law_interrupt_taken(m: MachineView)
    requires
        m.cu.state == CUState::Exec,
        crate::cpu::control_unit::exec_signals(decode(m.dp.ir), m.cu.step, m.dp.flags).1,
    ensures
        machine_next(m, None) matches Ok(m2) ==> {
            &&& (m2.cu.state == CUState::Interruption) == (m.dp.io_irq && m.cu.int_flag
                && !m.cu.int_block)
            &&& m2.cu.state == CUState::Interruption ==> m2.cu.int_block && m2.cu.step == 0
            &&& m2.cu.state != CUState::Interruption ==> m2.cu.state == CUState::InstructionFetch
        },
{
}

/// The flags as the word an interrupt pushes: ZF, NF, CF, OF in bits 3..0.
pub open spec fn flags_word(f: Flags) -> u16 {
    alu(AluOperation::PassFlags, 0, 0, f).0
}

/// The first six ticks of the interrupt entry push the flags word and then
/// the instruction pointer.
#[verifier::spinoff_prover]
#[verifier::rlimit(50)]
proof fn lemma_interrupt_pushes(m: MachineView)
    requires
        m.cu.state == CUState::Interruption,
        m.cu.step == 0,
        m.dp.ip != 0xFFFF,
        m.dp.memory.len() == 65536,
        m.dp.regs.len() == 8,
        below(m.dp.regs[6]) != IO_READ,
        below(m.dp.regs[6]) != IO_WRITE,
        below(below(m.dp.regs[6])) != IO_READ,
        below(below(m.dp.regs[6])) != IO_WRITE,
    ensures
        ticks(m, 6) matches Ok(m6) && {
            let s1 = below(m.dp.regs[6]);
            let s2 = below(s1);
            &&& m6.dp.regs == m.dp.regs.update(6, s2)
            &&& m6.dp.memory == m.dp.memory.update(s1 as int, flags_word(m.dp.flags)).update(
                s2 as int,
                m.dp.ip,
            )
            &&& m6.dp.ip == m.dp.ip
            &&& m6.dp.flags == m.dp.flags
            &&& m6.dp.io_write_data == m.dp.io_write_data
            &&& m6.dp.io_irq == m.dp.io_irq
            &&& m6.cu == (crate::cpu::control_unit::ControlUnitView { step: 6, ..m.cu })
        },
{
    reveal_with_fuel(ticks, 7);
    let s1 = below(m.dp.regs[6]);
    let s2 = below(s1);
    let m1 = machine_next(m, None)->Ok_0;
    assert(machine_next(m, None) is Ok);
    assert(m1.dp.regs =~= m.dp.regs.update(6, s1)) by {
        reveal(alu);
    }
    let m2 = machine_next(m1, None)->Ok_0;
    assert(machine_next(m1, None) is Ok);
    assert(m2.dp.mar == s1) by {
        reveal(alu);
    }
    assert(m2.dp.regs =~= m1.dp.regs);
    let m3 = machine_next(m2, None)->Ok_0;
    assert(machine_next(m2, None) is Ok);
    assert(m3.dp.regs =~= m1.dp.regs);
    assert(m3.dp.memory == m.dp.memory.update(s1 as int, flags_word(m.dp.flags))) by {
        reveal(alu);
    }
    let m4 = machine_next(m3, None)->Ok_0;
    assert(machine_next(m3, None) is Ok);
    assert(m4.dp.regs =~= m.dp.regs.update(6, s2)) by {
        reveal(alu);
    }
    let m5 = machine_next(m4, None)->Ok_0;
    assert(machine_next(m4, None) is Ok);
    assert(m5.dp.mar == s2) by {
        reveal(alu);
    }
    assert(m5.dp.regs =~= m4.dp.regs);
    let m6 = machine_next(m5, None)->Ok_0;
    assert(machine_next(m5, None) is Ok);
    assert(m6.dp.regs =~= m4.dp.regs);
    assert(m6.dp.memory == m3.dp.memory.update(s2 as int, m.dp.ip)) by {
        reveal(alu);
    }
}

/// Entering the interrupt handler takes nine ticks: the flags word is pushed,
/// then the instruction pointer, and the instruction pointer gets the
/// handler's address from the interrupt vector; flags, output and the other
/// registers stay.
#[verifier::spinoff_prover]
#[verifier::rlimit(50)]
pub proof fn law_interrupt_entry(m: MachineView)
    requires
        m.cu.state == CUState::Interruption,
        m.cu.step == 0,
        m.dp.ip != 0xFFFF,
        m.dp.memory.len() == 65536,
        m.dp.regs.len() == 8,
        below(m.dp.regs[6]) != IO_READ,
        below(m.dp.regs[6]) != IO_WRITE,
        below(below(m.dp.regs[6])) != IO_READ,
        below(below(m.dp.regs[6])) != IO_WRITE,
    ensures
        ticks(m, 9) matches Ok(m9) && {
            let s1 = below(m.dp.regs[6]);
            let s2 = below(s1);
            let mem = m.dp.memory.update(s1 as int, flags_word(m.dp.flags)).update(
                s2 as int,
                m.dp.ip,
            );
            &&& m9.dp.regs == m.dp.regs.update(6, s2)
            &&& m9.dp.memory == mem
            &&& m9.dp.ip == mem[crate::cpu::data_path::IO_IRQ_ADDR as int]
            &&& m9.dp.flags == m.dp.flags
            &&& m9.dp.io_write_data == m.dp.io_write_data
            &&& m9.cu.state == CUState::InstructionFetch
            &&& m9.cu.step == 0
            &&& m9.cu.halted == m.cu.halted
            &&& m9.cu.int_flag == m.cu.int_flag
            &&& m9.cu.int_block == m.cu.int_block
        },
{
    lemma_interrupt_pushes(m);
    lemma_ticks_add(m, 6, 3);
    let m6 = ticks(m, 6)->Ok_0;
    reveal_with_fuel(ticks, 4);
    let mem = m6.dp.memory;
    let m7 = machine_next(m6, None)->Ok_0;
    assert(machine_next(m6, None) is Ok);
    assert(m7.dp.regs =~= m6.dp.regs);
    let m8 = machine_next(m7, None)->Ok_0;
    assert(machine_next(m7, None) is Ok);
    assert(m8.dp.regs =~= m6.dp.regs);
    assert(m8.dp.mdr == mem[crate::cpu::data_path::IO_IRQ_ADDR as int]);
    let m9 = machine_next(m8, None)->Ok_0;
    assert(machine_next(m8, None) is Ok);
    assert(m9.dp.regs =~= m6.dp.regs);
    assert(m9.dp.ip == mem[crate::cpu::data_path::IO_IRQ_ADDR as int]) by {
        reveal(alu);
    }
}

/// A word read as a signed (two's complement) number.
pub open spec fn signed(x: u16) -> int {
    if x < 0x8000 {
        x as int
    } else {
        x - 0x10000
    }
}

/// Bit `i` of a word.
pub open spec fn bit_of(x: u16, i: u16) -> bool {
    (x >> i) & 1 == 1
}

/// The flags CMP a, b leaves.
pub open spec fn compare_flags(a: u16, b: u16, f: Flags) -> Flags {
    alu(AluOperation::Cmp, a, b, f).2
}

/// What the conditional jumps test after `CMP a, b`: JE and JNE whether the
/// words are equal, JL, JLE, JG and JGE their order as signed numbers, JCS
/// and JCC their order as unsigned numbers, JOS and JOC whether `a - b`
/// leaves the signed range, JNS and JNC (which the tables give the same
/// condition) whether `a - b` as a word has its sign bit set; JMP always
/// jumps.
pub proof fn law_jumps_after_compare(a: u16, b: u16, f: Flags)
    ensures
        crate::cpu::control_unit::jump_taken(isa::Opcode::Je, compare_flags(a, b, f)) == (a == b),
        crate::cpu::control_unit::jump_taken(isa::Opcode::Jne, compare_flags(a, b, f)) == (a != b),
        crate::cpu::control_unit::jump_taken(isa::Opcode::Jl, compare_flags(a, b, f)) == (signed(a)
            < signed(b)),
        crate::cpu::control_unit::jump_taken(isa::Opcode::Jle, compare_flags(a, b, f)) == (signed(a)
            <= signed(b)),
        crate::cpu::control_unit::jump_taken(isa::Opcode::Jg, compare_flags(a, b, f)) == (signed(a)
            > signed(b)),
        crate::cpu::control_unit::jump_taken(isa::Opcode::Jge, compare_flags(a, b, f)) == (signed(a)
            >= signed(b)),
        crate::cpu::control_unit::jump_taken(isa::Opcode::Jcs, compare_flags(a, b, f)) == (a < b),
        crate::cpu::control_unit::jump_taken(isa::Opcode::Jcc, compare_flags(a, b, f)) == (a >= b),
        crate::cpu::control_unit::jump_taken(isa::Opcode::Jos, compare_flags(a, b, f)) == !(-0x8000
            <= signed(a) - signed(b) < 0x8000),
        crate::cpu::control_unit::jump_taken(isa::Opcode::Joc, compare_flags(a, b, f)) == (-0x8000
            <= signed(a) - signed(b) < 0x8000),
        crate::cpu::control_unit::jump_taken(isa::Opcode::Jmp, compare_flags(a, b, f)),
        crate::cpu::control_unit::jump_taken(isa::Opcode::Jns, compare_flags(a, b, f)) == ((a - b)
            % 0x10000 >= 0x8000),
        crate::cpu::control_unit::jump_taken(isa::Opcode::Jnc, compare_flags(a, b, f)) == ((a - b)
            % 0x10000 >= 0x8000),
{
    reveal(alu);
    let d = a - b;
    let res = wrap(d);
    assert(res == if a >= b { d } else { d + 0x10000 });
    assert(signed(a) - signed(b) == if a < 0x8000 && b >= 0x8000 {
        d + 0x10000
    } else if a >= 0x8000 && b < 0x8000 {
        d - 0x10000
    } else {
        d
    });
}

/// What the bitwise operations compute, bit by bit: AND, OR, XOR of the two
/// inputs' bits, and NOT of the left input's.
pub proof fn law_alu_bitwise(l: u16, r: u16, f: Flags)
    ensures
        forall|i: u16|
            i < 16 ==> (bit_of(#[trigger] alu(AluOperation::And, l, r, f).0, i) == (bit_of(l, i)
                && bit_of(r, i))),
        forall|i: u16|
            i < 16 ==> (bit_of(#[trigger] alu(AluOperation::Or, l, r, f).0, i) == (bit_of(l, i)
                || bit_of(r, i))),
        forall|i: u16|
            i < 16 ==> (bit_of(#[trigger] alu(AluOperation::Xor, l, r, f).0, i) == (bit_of(l, i)
                != bit_of(r, i))),
        forall|i: u16|
            i < 16 ==> (bit_of(#[trigger] alu(AluOperation::Not, l, r, f).0, i) == !bit_of(l, i)),
{
    reveal(alu);
    assert forall|i: u16| i < 16 implies (bit_of(l & r, i) == (bit_of(l, i) && bit_of(r, i))) && (
    bit_of(l | r, i) == (bit_of(l, i) || bit_of(r, i))) && (bit_of(l ^ r, i) == (bit_of(l, i)
        != bit_of(r, i))) && (bit_of(!l, i) == !bit_of(l, i)) by {
        assert(i < 16 ==> ((((l & r) >> i) & 1 == 1) == (((l >> i) & 1 == 1) && ((r >> i) & 1
            == 1)))) by (bit_vector);
        assert(i < 16 ==> ((((l | r) >> i) & 1 == 1) == (((l >> i) & 1 == 1) || ((r >> i) & 1
            == 1)))) by (bit_vector);
        assert(i < 16 ==> ((((l ^ r) >> i) & 1 == 1) == (((l >> i) & 1 == 1) != ((r >> i) & 1
            == 1)))) by (bit_vector);
        assert(i < 16 ==> ((((!l) >> i) & 1 == 1) == !((l >> i) & 1 == 1))) by (bit_vector);
    }
}

/// What the arithmetic operations compute, as numbers: the sum or
/// difference with the carry (the borrow) as the bit beyond 16, the
/// overflow flag as leaving the signed range, the full product in the two
/// output words, the quotient and remainder of division, and INC, DEC, NEG
/// as adding one, subtracting one and negating modulo 2^16.
pub proof fn law_alu_arithmetic(l: u16, r: u16, f: Flags)
    ensures
        ({
            let (res, _, g) = alu(AluOperation::Add, l, r, f);
            &&& res + (if g.cf { 0x10000int } else { 0 }) == l + r
            &&& g.of == !(-0x8000 <= signed(l) + signed(r) < 0x8000)
            &&& g.zf == (res == 0)
            &&& g.nf == (signed(res) < 0)
        }),
        ({
            let (res, _, g) = alu(AluOperation::Sub, l, r, f);
            &&& res - (if g.cf { 0x10000int } else { 0 }) == l - r
            &&& g.of == !(-0x8000 <= signed(l) - signed(r) < 0x8000)
            &&& g.zf == (res == 0)
        }),
        ({
            let (lo, hi, _) = alu(AluOperation::Mul, l, r, f);
            lo + 0x10000 * hi == l * r
        }),
        r != 0 ==> ({
            let (q, m, _) = alu(AluOperation::Div, l, r, f);
            q * r + m == l && m < r
        }),
        (alu(AluOperation::Inc, l, r, f).0 as int) == (l + 1) % 0x10000,
        alu(AluOperation::Inc, l, r, f).2.of == (signed(l) + 1 == 0x8000),
        (alu(AluOperation::Dec, l, r, f).0 as int) == (l + 0xFFFF) % 0x10000,
        alu(AluOperation::Dec, l, r, f).2.of == (signed(l) - 1 == -0x8001),
        (alu(AluOperation::Neg, l, r, f).0 + l) % 0x10000 == 0,
{
    reveal(alu);
    let s = l + r;
    assert(wrap(s) == if s < 0x10000 { s } else { s - 0x10000 });
    let d = l - r;
    assert(wrap(d) == if d >= 0 { d } else { d + 0x10000 });
    assert(wrap(l + 1) == if l + 1 < 0x10000 { l + 1 } else { 0 });
    assert(wrap(l - 1) == if l >= 1 { l - 1 } else { 0xFFFF });
    assert(wrap(0 - l) == if l == 0 { 0 } else { 0x10000 - l });
    assert((l * r) / 0x10000 * 0x10000 + wrap(l * r) == l * r) by (nonlinear_arith);
    assert(l * r <= 0xFFFF * 0xFFFF) by (nonlinear_arith);
    if r != 0 {
        assert((l / r) * r + l % r == l && l % r < r) by (nonlinear_arith)
            requires
                r != 0,
        ;
    }
}

} // verus!
