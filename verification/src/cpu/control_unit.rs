//! The control unit: a microprogrammed sequencer that, tick by tick, reads
//! the instruction register and flags of the data path and answers with the
//! control signals for that tick.
use vstd::prelude::*;

use crate::cpu::data_path::{AluOperation, DataPath, DataPathView, Flags, GeneralPurposeRegister};
use crate::cpu::general::Register;
use crate::isa;

verus! {

/// Where the instruction pointer's next value comes from.
#[derive(Clone, Copy, Debug, PartialEq, Eq, Structural)]
pub enum IpSrc {
    Increment,
    AluOutput,
}

impl Default for IpSrc {
    fn default() -> (r: Self)
        ensures
            r == IpSrc::Increment,
    {
        IpSrc::Increment
    }
}

/// The left input of the ALU.
#[derive(Clone, Copy, Debug, PartialEq, Eq, Structural)]
pub enum AluSrcA {
    RegisterA,
    Mdr,
    Ip,
}

impl Default for AluSrcA {
    fn default() -> (r: Self)
        ensures
            r == AluSrcA::RegisterA,
    {
        AluSrcA::RegisterA
    }
}

/// The right input of the ALU.
#[derive(Clone, Copy, Debug, PartialEq, Eq, Structural)]
pub enum AluSrcB {
    RegisterB,
    Mdr,
    Tmp,
}

impl Default for AluSrcB {
    fn default() -> (r: Self)
        ensures
            r == AluSrcB::RegisterB,
    {
        AluSrcB::RegisterB
    }
}

/// Where the memory address register's next value comes from.
#[derive(Clone, Copy, Debug, PartialEq, Eq, Structural)]
pub enum MarSrc {
    Ip,
    IpInc,
    AluOutput,
    IoIrq,
}

impl Default for MarSrc {
    fn default() -> (r: Self)
        ensures
            r == MarSrc::Ip,
    {
        MarSrc::Ip
    }
}

/// Every control line of the data path for one tick.
#[derive(Clone, Copy, Debug, PartialEq, Eq, Structural)]
pub struct ControlSignals {
    // IR
    pub ir_write_enable: bool,
    // IP
    pub ip_src: IpSrc,
    pub ip_write_enable: bool,
    // Register file
    pub rf_read_a: GeneralPurposeRegister,
    pub rf_read_b: GeneralPurposeRegister,
    pub rf_write_dst: GeneralPurposeRegister,
    pub rf_write_pair_mode: bool,
    pub rf_write_enable: bool,
    // ALU
    pub alu_operation: AluOperation,
    pub alu_src_a: AluSrcA,
    pub alu_src_b: AluSrcB,
    pub alu_flags_write_enable: bool,
    // Memory
    pub mem_read: bool,
    pub mem_write: bool,
    pub mar_src: MarSrc,
    pub mar_write_enable: bool,
    pub mdr_write_enable: bool,
    pub tmp_write_enable: bool,
}

impl ControlSignals {
    /// The idle tick: every enable low, every selector at its first input.
    pub open spec fn idle() -> ControlSignals {
        ControlSignals {
            ir_write_enable: false,
            ip_src: IpSrc::Increment,
            ip_write_enable: false,
            rf_read_a: GeneralPurposeRegister::AL,
            rf_read_b: GeneralPurposeRegister::AL,
            rf_write_dst: GeneralPurposeRegister::AL,
            rf_write_pair_mode: false,
            rf_write_enable: false,
            alu_operation: AluOperation::PassLeft,
            alu_src_a: AluSrcA::RegisterA,
            alu_src_b: AluSrcB::RegisterB,
            alu_flags_write_enable: false,
            mem_read: false,
            mem_write: false,
            mar_src: MarSrc::Ip,
            mar_write_enable: false,
            mdr_write_enable: false,
            tmp_write_enable: false,
        }
    }
}

impl Default for ControlSignals {
    fn default() -> (r: Self)
        ensures
            r == ControlSignals::idle(),
    {
        ControlSignals {
            ir_write_enable: false,
            ip_src: IpSrc::Increment,
            ip_write_enable: false,
            rf_read_a: GeneralPurposeRegister::AL,
            rf_read_b: GeneralPurposeRegister::AL,
            rf_write_dst: GeneralPurposeRegister::AL,
            rf_write_pair_mode: false,
            rf_write_enable: false,
            alu_operation: AluOperation::PassLeft,
            alu_src_a: AluSrcA::RegisterA,
            alu_src_b: AluSrcB::RegisterB,
            alu_flags_write_enable: false,
            mem_read: false,
            mem_write: false,
            mar_src: MarSrc::Ip,
            mar_write_enable: false,
            mdr_write_enable: false,
            tmp_write_enable: false,
        }
    }
}

/// The phases of the control unit.
#[derive(Clone, Copy, Debug, PartialEq, Eq, Structural)]
pub enum CUState {
    InstructionFetch,
    InstructionAnalyze,
    SecondWordFetch,
    ThirdWordFetch,
    Exec,
    Interruption,
}

/// An instruction word split into its fields.
#[derive(Clone, Copy, Debug, PartialEq, Eq, Structural)]
pub struct DecodedInstruction {
    pub opcode: isa::Opcode,
    pub mode: isa::Mode,
    pub rd: GeneralPurposeRegister,
    pub rs: GeneralPurposeRegister,
}

/// Whether an instruction word has a known opcode and mode.
pub open spec fn decodable(raw: u16) -> bool {
    isa::Opcode::is_code((raw / 1024) as u8) && (raw / 64) % 16 <= 10
}

/// The fields of an instruction word: opcode in bits 15..10, mode in 9..6,
/// destination register in 5..3, source register in 2..0.
pub open spec fn is_decoding_of(di: DecodedInstruction, raw: u16) -> bool {
    &&& di.opcode.code() == raw / 1024
    &&& di.mode.code() == (raw / 64) % 16
    &&& di.rd.index() == (raw / 8) % 8
    &&& di.rs.index() == raw % 8
}

/// The decoding of a decodable instruction word.
pub open spec fn decode(raw: u16) -> DecodedInstruction {
    choose|di: DecodedInstruction| is_decoding_of(di, raw)
}

/// Number of words of an instruction in a given mode.
pub open spec fn mode_len(mode: isa::Mode) -> u8 {
    match mode {
        isa::Mode::RegToReg | isa::Mode::MemrToReg | isa::Mode::RegToMemr => 1,
        isa::Mode::ImmToReg | isa::Mode::MemaToReg | isa::Mode::MemraToReg
        | isa::Mode::ImmToMemr | isa::Mode::RegToMema | isa::Mode::RegToMemra => 2,
        isa::Mode::ImmToMema | isa::Mode::ImmToMemra => 3,
    }
}

/// The modes whose destination is in memory.
pub open spec fn writes_memory(mode: isa::Mode) -> bool {
    match mode {
        isa::Mode::RegToMemr | isa::Mode::ImmToMemr | isa::Mode::RegToMema
        | isa::Mode::ImmToMema | isa::Mode::RegToMemra | isa::Mode::ImmToMemra => true,
        _ => false,
    }
}

// ============================> Microcode <=============================

/// SP - 1 -> SP
pub open spec fn dec_sp_signals() -> ControlSignals {
    ControlSignals {
        rf_read_a: GeneralPurposeRegister::SP,
        rf_write_dst: GeneralPurposeRegister::SP,
        rf_write_enable: true,
        alu_src_a: AluSrcA::RegisterA,
        alu_operation: AluOperation::Dec,
        ..ControlSignals::idle()
    }
}

/// SP + 1 -> SP
pub open spec fn inc_sp_signals() -> ControlSignals {
    ControlSignals {
        rf_read_a: GeneralPurposeRegister::SP,
        rf_write_dst: GeneralPurposeRegister::SP,
        rf_write_enable: true,
        alu_src_a: AluSrcA::RegisterA,
        alu_operation: AluOperation::Inc,
        ..ControlSignals::idle()
    }
}

/// SP -> MAR
pub open spec fn sp_to_mar_signals() -> ControlSignals {
    ControlSignals {
        rf_read_a: GeneralPurposeRegister::SP,
        mar_src: MarSrc::AluOutput,
        mar_write_enable: true,
        alu_src_a: AluSrcA::RegisterA,
        alu_operation: AluOperation::PassLeft,
        ..ControlSignals::idle()
    }
}

/// mem[MAR] -> MDR
pub open spec fn read_to_mdr_signals() -> ControlSignals {
    ControlSignals { mem_read: true, mdr_write_enable: true, ..ControlSignals::idle() }
}

/// MDR -> IP
pub open spec fn mdr_to_ip_signals() -> ControlSignals {
    ControlSignals {
        alu_operation: AluOperation::PassLeft,
        alu_src_a: AluSrcA::Mdr,
        ip_src: IpSrc::AluOutput,
        ip_write_enable: true,
        ..ControlSignals::idle()
    }
}

/// A conditional jump to the address in MDR: taken (IP and MAR get the
/// address) or not (an idle tick).
pub open spec fn jmp_signals(cond: bool) -> ControlSignals {
    if cond {
        ControlSignals {
            ip_write_enable: true,
            ip_src: IpSrc::AluOutput,
            alu_src_a: AluSrcA::Mdr,
            mar_src: MarSrc::AluOutput,
            mar_write_enable: true,
            alu_operation: AluOperation::PassLeft,
            ..ControlSignals::idle()
        }
    } else {
        ControlSignals::idle()
    }
}

/// op(Rs) -> Rd in one tick, with the flags the ALU reports.
pub open spec fn unary_signals(di: DecodedInstruction, op: AluOperation) -> ControlSignals {
    ControlSignals {
        rf_read_a: di.rs,
        rf_read_b: di.rs,
        rf_write_dst: di.rd,
        rf_write_enable: true,
        alu_operation: op,
        alu_flags_write_enable: true,
        ..ControlSignals::idle()
    }
}

/// Rd shifted by the immediate in MDR -> Rd in one tick, with the flags the
/// ALU reports.
pub open spec fn shift_signals(di: DecodedInstruction, op: AluOperation) -> ControlSignals {
    ControlSignals {
        rf_read_a: di.rd,
        alu_src_a: AluSrcA::RegisterA,
        alu_src_b: AluSrcB::Mdr,
        alu_operation: op,
        rf_write_dst: di.rd,
        rf_write_enable: true,
        alu_flags_write_enable: true,
        ..ControlSignals::idle()
    }
}

/// The step a two-operand instruction is at: moves to a memory destination
/// skip the read of the old value.
pub open spec fn binary_step(di: DecodedInstruction, step: u8, skip_mem_read: bool) -> u8 {
    if skip_mem_read && step == 1 && writes_memory(di.mode) {
        2
    } else {
        step
    }
}

/// The steps of a two-operand instruction in any mode, before the
/// operation of the last step is filled in: the signals and whether it is
/// the last step.
#[verifier::opaque]
pub open spec fn binary_mode_signals(di: DecodedInstruction, step: u8) -> (ControlSignals, bool) {
    let idle = ControlSignals::idle();
    // Rd _ Mdr -> Rd
    let mdr_to_rd = ControlSignals {
        rf_read_a: di.rd,
        alu_src_a: AluSrcA::RegisterA,
        alu_src_b: AluSrcB::Mdr,
        rf_write_dst: di.rd,
        rf_write_enable: true,
        ..idle
    };
    // Mdr _ Rs -> mem[Mar]
    let rs_to_mem = ControlSignals {
        rf_read_b: di.rs,
        alu_src_a: AluSrcA::Mdr,
        alu_src_b: AluSrcB::RegisterB,
        mem_write: true,
        ..idle
    };
    // Mdr _ Tmp -> mem[Mar]
    let tmp_to_mem = ControlSignals {
        alu_src_a: AluSrcA::Mdr,
        alu_src_b: AluSrcB::Tmp,
        mem_write: true,
        ..idle
    };
    // X -> Mar, the address computed by the ALU
    let to_mar = ControlSignals {
        mar_src: MarSrc::AluOutput,
        mar_write_enable: true,
        ..idle
    };
    match di.mode {
        isa::Mode::RegToReg => (
            ControlSignals {
                rf_read_a: di.rd,
                rf_read_b: di.rs,
                alu_src_a: AluSrcA::RegisterA,
                alu_src_b: AluSrcB::RegisterB,
                rf_write_dst: di.rd,
                rf_write_enable: true,
                ..idle
            },
            true,
        ),
        isa::Mode::ImmToReg => (mdr_to_rd, true),
        isa::Mode::MemrToReg => if step == 0 {
            (
                ControlSignals {
                    rf_read_a: di.rs,
                    alu_src_a: AluSrcA::RegisterA,
                    alu_operation: AluOperation::PassLeft,
                    ..to_mar
                },
                false,
            )
        } else if step == 1 {
            (read_to_mdr_signals(), false)
        } else {
            (mdr_to_rd, true)
        },
        isa::Mode::MemaToReg => if step == 0 {
            (
                ControlSignals { alu_src_a: AluSrcA::Mdr, alu_operation: AluOperation::PassLeft, ..to_mar },
                false,
            )
        } else if step == 1 {
            (read_to_mdr_signals(), false)
        } else {
            (mdr_to_rd, true)
        },
        isa::Mode::MemraToReg => if step == 0 {
            (
                ControlSignals {
                    rf_read_a: di.rs,
                    alu_src_a: AluSrcA::RegisterA,
                    alu_src_b: AluSrcB::Mdr,
                    alu_operation: AluOperation::Add,
                    ..to_mar
                },
                false,
            )
        } else if step == 1 {
            (read_to_mdr_signals(), false)
        } else {
            (mdr_to_rd, true)
        },
        isa::Mode::RegToMemr => if step == 0 {
            (
                ControlSignals {
                    rf_read_a: di.rd,
                    alu_src_a: AluSrcA::RegisterA,
                    alu_operation: AluOperation::PassLeft,
                    ..to_mar
                },
                false,
            )
        } else if step == 1 {
            (read_to_mdr_signals(), false)
        } else {
            (rs_to_mem, true)
        },
        isa::Mode::ImmToMemr => if step == 0 {
            (
                ControlSignals {
                    rf_read_a: di.rd,
                    alu_src_a: AluSrcA::RegisterA,
                    alu_operation: AluOperation::PassLeft,
                    tmp_write_enable: true,
                    ..to_mar
                },
                false,
            )
        } else if step == 1 {
            (read_to_mdr_signals(), false)
        } else {
            (tmp_to_mem, true)
        },
        isa::Mode::RegToMema => if step == 0 {
            (
                ControlSignals { alu_src_a: AluSrcA::Mdr, alu_operation: AluOperation::PassLeft, ..to_mar },
                false,
            )
        } else if step == 1 {
            (read_to_mdr_signals(), false)
        } else {
            (rs_to_mem, true)
        },
        isa::Mode::ImmToMema => if step == 0 {
            (
                ControlSignals {
                    alu_src_b: AluSrcB::Tmp,
                    alu_operation: AluOperation::PassRight,
                    tmp_write_enable: true,
                    ..to_mar
                },
                false,
            )
        } else if step == 1 {
            (read_to_mdr_signals(), false)
        } else {
            (tmp_to_mem, true)
        },
        isa::Mode::RegToMemra => if step == 0 {
            (
                ControlSignals {
                    rf_read_a: di.rd,
                    alu_src_a: AluSrcA::RegisterA,
                    alu_src_b: AluSrcB::Mdr,
                    alu_operation: AluOperation::Add,
                    tmp_write_enable: true,
                    ..to_mar
                },
                false,
            )
        } else if step == 1 {
            (read_to_mdr_signals(), false)
        } else {
            (rs_to_mem, true)
        },
        isa::Mode::ImmToMemra => if step == 0 {
            (
                ControlSignals {
                    rf_read_a: di.rd,
                    alu_src_a: AluSrcA::RegisterA,
                    alu_src_b: AluSrcB::Tmp,
                    alu_operation: AluOperation::Add,
                    tmp_write_enable: true,
                    ..to_mar
                },
                false,
            )
        } else if step == 1 {
            (read_to_mdr_signals(), false)
        } else {
            (tmp_to_mem, true)
        },
    }
}

/// Whether a two-operand instruction in this mode has a step with this
/// number.
pub open spec fn binary_step_exists(mode: isa::Mode, step: u8) -> bool {
    match mode {
        isa::Mode::RegToReg | isa::Mode::ImmToReg => true,
        _ => step <= 2,
    }
}

/// One step of a two-operand instruction: on its last step the ALU performs
/// `alu_op`, MAR is pointed at IP for the next fetch, and the write of the
/// result is suppressed (`disable_write`), made to a register pair
/// (`pair_mode`) and accompanied by a flag update (`write_flags`).
pub open spec fn binary_signals(
    di: DecodedInstruction,
    step: u8,
    alu_op: AluOperation,
    disable_write: bool,
    skip_mem_read: bool,
    pair_mode: bool,
    write_flags: bool,
) -> (ControlSignals, bool) {
    let (cs, done) = binary_mode_signals(di, binary_step(di, step, skip_mem_read));
    if done {
        (
            ControlSignals {
                alu_operation: alu_op,
                mar_src: MarSrc::Ip,
                mar_write_enable: true,
                mem_write: cs.mem_write && !disable_write,
                rf_write_enable: cs.rf_write_enable && !disable_write,
                rf_write_pair_mode: cs.rf_write_pair_mode || pair_mode,
                alu_flags_write_enable: cs.alu_flags_write_enable || write_flags,
                ..cs
            },
            true,
        )
    } else {
        (cs, false)
    }
}

/// Whether the microprogram has a step `step` for an instruction, and which
/// instructions it knows at all.
pub open spec fn exec_step_exists(di: DecodedInstruction, step: u8) -> bool {
    match di.opcode {
        isa::Opcode::Nop | isa::Opcode::Hlt | isa::Opcode::Sti | isa::Opcode::Cli => di.mode
            == isa::Mode::RegToReg,
        isa::Opcode::Mov => binary_step_exists(di.mode, binary_step(di, step, true)),
        isa::Opcode::Add | isa::Opcode::AddC | isa::Opcode::Sub | isa::Opcode::SubC
        | isa::Opcode::And | isa::Opcode::Or | isa::Opcode::Xor | isa::Opcode::Mul
        | isa::Opcode::Div | isa::Opcode::Cmp | isa::Opcode::Test => binary_step_exists(
            di.mode,
            step,
        ),
        isa::Opcode::Inc | isa::Opcode::Dec | isa::Opcode::Neg | isa::Opcode::Not => di.mode
            == isa::Mode::RegToReg,
        isa::Opcode::Shl | isa::Opcode::Shr => di.mode == isa::Mode::ImmToReg,
        isa::Opcode::Jmp | isa::Opcode::Je | isa::Opcode::Jne | isa::Opcode::Jns
        | isa::Opcode::Jnc | isa::Opcode::Jcs | isa::Opcode::Jcc | isa::Opcode::Jos
        | isa::Opcode::Joc | isa::Opcode::Jl | isa::Opcode::Jle | isa::Opcode::Jg
        | isa::Opcode::Jge => di.mode == isa::Mode::ImmToReg,
        isa::Opcode::Call => di.mode == isa::Mode::ImmToReg && step <= 3,
        isa::Opcode::Ret => (di.mode == isa::Mode::RegToReg || di.mode == isa::Mode::ImmToReg)
            && step <= 3,
        isa::Opcode::Push => di.mode == isa::Mode::RegToReg && step <= 2,
        isa::Opcode::Pop => di.mode == isa::Mode::RegToReg && step <= 3,
        isa::Opcode::Enter => di.mode == isa::Mode::ImmToReg && step <= 4,
        isa::Opcode::Leave => di.mode == isa::Mode::RegToReg && step <= 4,
        isa::Opcode::Iret => di.mode == isa::Mode::RegToReg && step <= 5,
    }
}

/// Whether a conditional jump is taken under the given flags.
pub open spec fn jump_taken(op: isa::Opcode, f: Flags) -> bool {
    match op {
        isa::Opcode::Je => f.zf,
        isa::Opcode::Jne => !f.zf,
        isa::Opcode::Jns => f.nf,
        // The instruction table gives JNC the condition of JNS: the negative
        // flag set.
        isa::Opcode::Jnc => f.nf,
        isa::Opcode::Jcs => f.cf,
        isa::Opcode::Jcc => !f.cf,
        isa::Opcode::Jos => f.of,
        isa::Opcode::Joc => !f.of,
        isa::Opcode::Jl => f.nf != f.of,
        isa::Opcode::Jle => f.zf || (f.nf != f.of),
        isa::Opcode::Jg => !f.zf && (f.nf == f.of),
        isa::Opcode::Jge => f.nf == f.of,
        _ => true,
    }
}

/// The signals of one execution step, and whether it is the last one.
pub open spec fn exec_signals(di: DecodedInstruction, step: u8, f: Flags) -> (ControlSignals, bool) {
    let idle = ControlSignals::idle();
    match di.opcode {
        isa::Opcode::Nop | isa::Opcode::Hlt | isa::Opcode::Sti | isa::Opcode::Cli => (idle, true),
        isa::Opcode::Mov => binary_signals(di, step, AluOperation::PassRight, false, true, false, false),
        isa::Opcode::Add => binary_signals(di, step, AluOperation::Add, false, false, false, true),
        isa::Opcode::AddC => binary_signals(di, step, AluOperation::AddC, false, false, false, true),
        isa::Opcode::Sub => binary_signals(di, step, AluOperation::Sub, false, false, false, true),
        isa::Opcode::SubC => binary_signals(di, step, AluOperation::SubC, false, false, false, true),
        isa::Opcode::And => binary_signals(di, step, AluOperation::And, false, false, false, true),
        isa::Opcode::Or => binary_signals(di, step, AluOperation::Or, false, false, false, true),
        isa::Opcode::Xor => binary_signals(di, step, AluOperation::Xor, false, false, false, true),
        isa::Opcode::Mul => binary_signals(di, step, AluOperation::Mul, false, false, true, true),
        isa::Opcode::Div => binary_signals(di, step, AluOperation::Div, false, false, true, true),
        isa::Opcode::Cmp => binary_signals(di, step, AluOperation::Sub, true, false, false, true),
        isa::Opcode::Test => binary_signals(di, step, AluOperation::And, true, false, false, true),
        isa::Opcode::Inc => (unary_signals(di, AluOperation::Inc), true),
        isa::Opcode::Dec => (unary_signals(di, AluOperation::Dec), true),
        isa::Opcode::Neg => (unary_signals(di, AluOperation::Neg), true),
        isa::Opcode::Not => (unary_signals(di, AluOperation::Not), true),
        isa::Opcode::Shl => (shift_signals(di, AluOperation::ShiftL), true),
        isa::Opcode::Shr => (shift_signals(di, AluOperation::ShiftR), true),
        isa::Opcode::Jmp | isa::Opcode::Je | isa::Opcode::Jne | isa::Opcode::Jns
        | isa::Opcode::Jnc | isa::Opcode::Jcs | isa::Opcode::Jcc | isa::Opcode::Jos
        | isa::Opcode::Joc | isa::Opcode::Jl | isa::Opcode::Jle | isa::Opcode::Jg
        | isa::Opcode::Jge => (jmp_signals(jump_taken(di.opcode, f)), true),
        isa::Opcode::Call => call_signals(step),
        isa::Opcode::Ret => ret_signals(di, step),
        isa::Opcode::Push => push_signals(di, step),
        isa::Opcode::Pop => pop_signals(di, step),
        isa::Opcode::Enter => enter_signals(step),
        isa::Opcode::Leave => leave_signals(step),
        isa::Opcode::Iret => iret_signals(step),
    }
}

/// CALL #addr: push IP, jump to the address in MDR.
pub open spec fn call_signals(step: u8) -> (ControlSignals, bool) {
    let idle = ControlSignals::idle();
    if step == 0 {
        (dec_sp_signals(), false)
    } else if step == 1 {
        (sp_to_mar_signals(), false)
    } else if step == 2 {
        (
            ControlSignals {
                alu_operation: AluOperation::PassLeft,
                alu_src_a: AluSrcA::Ip,
                mem_write: true,
                ..idle
            },
            false,
        )
    } else {
        (mdr_to_ip_signals(), true)
    }
}

/// RET and RET #n: pop IP (and drop #n words of arguments).
pub open spec fn ret_signals(di: DecodedInstruction, step: u8) -> (ControlSignals, bool) {
    let idle = ControlSignals::idle();
    if step == 0 {
        (sp_to_mar_signals(), false)
    } else if step == 1 {
        (inc_sp_signals(), false)
    } else if step == 2 {
        if di.mode == isa::Mode::RegToReg {
            (read_to_mdr_signals(), false)
        } else {
            // Mem[SP] -> MDR; SP + #n (MDR) -> SP
            (
                ControlSignals {
                    rf_read_a: GeneralPurposeRegister::SP,
                    alu_src_a: AluSrcA::RegisterA,
                    alu_src_b: AluSrcB::Mdr,
                    alu_operation: AluOperation::Add,
                    rf_write_dst: GeneralPurposeRegister::SP,
                    rf_write_enable: true,
                    mem_read: true,
                    mdr_write_enable: true,
                    ..idle
                },
                false,
            )
        }
    } else {
        (mdr_to_ip_signals(), true)
    }
}

/// PUSH Rs: SP - 1 -> SP, Rs -> mem[SP].
pub open spec fn push_signals(di: DecodedInstruction, step: u8) -> (ControlSignals, bool) {
    let idle = ControlSignals::idle();
    if step == 0 {
        (dec_sp_signals(), false)
    } else if step == 1 {
        (sp_to_mar_signals(), false)
    } else {
        (
            ControlSignals {
                rf_read_a: di.rs,
                alu_src_a: AluSrcA::RegisterA,
                alu_operation: AluOperation::PassLeft,
                mem_write: true,
                ..idle
            },
            true,
        )
    }
}

/// POP Rd: mem[SP] -> Rd, SP + 1 -> SP.
pub open spec fn pop_signals(di: DecodedInstruction, step: u8) -> (ControlSignals, bool) {
    let idle = ControlSignals::idle();
    if step == 0 {
        (sp_to_mar_signals(), false)
    } else if step == 1 {
        (inc_sp_signals(), false)
    } else if step == 2 {
        (read_to_mdr_signals(), false)
    } else {
        (
            ControlSignals {
                alu_operation: AluOperation::PassLeft,
                alu_src_a: AluSrcA::Mdr,
                rf_write_dst: di.rd,
                rf_write_enable: true,
                ..idle
            },
            true,
        )
    }
}

/// ENTER #n: push BP, SP -> BP, SP - #n -> SP.
pub open spec fn enter_signals(step: u8) -> (ControlSignals, bool) {
    let idle = ControlSignals::idle();
    if step == 0 {
        (dec_sp_signals(), false)
    } else if step == 1 {
        (sp_to_mar_signals(), false)
    } else if step == 2 {
        (
            ControlSignals {
                rf_read_a: GeneralPurposeRegister::BP,
                alu_src_a: AluSrcA::RegisterA,
                alu_operation: AluOperation::PassLeft,
                mem_write: true,
                ..idle
            },
            false,
        )
    } else if step == 3 {
        (
            ControlSignals {
                rf_read_a: GeneralPurposeRegister::SP,
                alu_src_a: AluSrcA::RegisterA,
                alu_operation: AluOperation::PassLeft,
                rf_write_dst: GeneralPurposeRegister::BP,
                rf_write_enable: true,
                ..idle
            },
            false,
        )
    } else {
        (
            ControlSignals {
                rf_read_a: GeneralPurposeRegister::SP,
                alu_src_a: AluSrcA::RegisterA,
                alu_src_b: AluSrcB::Mdr,
                alu_operation: AluOperation::Sub,
                rf_write_dst: GeneralPurposeRegister::SP,
                rf_write_enable: true,
                ..idle
            },
            true,
        )
    }
}

/// LEAVE: BP -> SP, pop BP.
pub open spec fn leave_signals(step: u8) -> (ControlSignals, bool) {
    let idle = ControlSignals::idle();
    if step == 0 {
        (
            ControlSignals {
                rf_read_a: GeneralPurposeRegister::BP,
                alu_src_a: AluSrcA::RegisterA,
                alu_operation: AluOperation::PassLeft,
                rf_write_dst: GeneralPurposeRegister::SP,
                rf_write_enable: true,
                ..idle
            },
            false,
        )
    } else if step == 1 {
        (sp_to_mar_signals(), false)
    } else if step == 2 {
        (inc_sp_signals(), false)
    } else if step == 3 {
        (read_to_mdr_signals(), false)
    } else {
        (
            ControlSignals {
                alu_operation: AluOperation::PassLeft,
                alu_src_a: AluSrcA::Mdr,
                rf_write_dst: GeneralPurposeRegister::BP,
                rf_write_enable: true,
                ..idle
            },
            true,
        )
    }
}

/// IRET: pop IP, pop the flags, leave the interrupt handler.
pub open spec fn iret_signals(step: u8) -> (ControlSignals, bool) {
    let idle = ControlSignals::idle();
    if step == 0 || step == 3 {
        (sp_to_mar_signals(), false)
    } else if step == 1 || step == 4 {
        (ControlSignals { mem_read: true, mdr_write_enable: true, ..inc_sp_signals() }, false)
    } else if step == 2 {
        (
            ControlSignals {
                alu_operation: AluOperation::PassLeft,
                alu_src_a: AluSrcA::Mdr,
                ip_src: IpSrc::AluOutput,
                ip_write_enable: true,
                mar_src: MarSrc::AluOutput,
                mar_write_enable: true,
                ..idle
            },
            false,
        )
    } else {
        (
            ControlSignals {
                alu_src_a: AluSrcA::Mdr,
                alu_operation: AluOperation::LoadFlagsLeft,
                alu_flags_write_enable: true,
                ..idle
            },
            true,
        )
    }
}

/// The signals of one step of entering the interrupt handler (push the
/// flags, push IP, load IP from the interrupt vector), and whether it is
/// the last one.
pub open spec fn interruption_signals(step: u8) -> (ControlSignals, bool) {
    let idle = ControlSignals::idle();
    if step == 0 || step == 3 {
        (dec_sp_signals(), false)
    } else if step == 1 || step == 4 {
        (sp_to_mar_signals(), false)
    } else if step == 2 {
        (ControlSignals { alu_operation: AluOperation::PassFlags, mem_write: true, ..idle }, false)
    } else if step == 5 {
        (
            ControlSignals {
                alu_operation: AluOperation::PassLeft,
                alu_src_a: AluSrcA::Ip,
                mem_write: true,
                ..idle
            },
            false,
        )
    } else if step == 6 {
        (ControlSignals { mar_src: MarSrc::IoIrq, mar_write_enable: true, ..idle }, false)
    } else if step == 7 {
        (read_to_mdr_signals(), false)
    } else {
        (
            ControlSignals {
                ip_src: IpSrc::AluOutput,
                ip_write_enable: true,
                mar_src: MarSrc::AluOutput,
                mar_write_enable: true,
                alu_src_a: AluSrcA::Mdr,
                alu_operation: AluOperation::PassLeft,
                ..idle
            },
            true,
        )
    }
}

/// Abstract state of the control unit between two ticks.
pub struct ControlUnitView {
    pub state: CUState,
    pub step: u8,
    pub halted: bool,
    /// Interrupts enabled.
    pub int_flag: bool,
    /// An interrupt handler is running.
    pub int_block: bool,
}

/// The ticks on which the control unit stops: an instruction word with an
/// unknown opcode or mode, an instruction the microprogram has no step for,
/// or a step counter past the end of its phase.
pub open spec fn cu_faults(cu: ControlUnitView, dp: DataPathView) -> bool {
    match cu.state {
        CUState::InstructionFetch => cu.step > 1,
        CUState::InstructionAnalyze | CUState::SecondWordFetch => !decodable(dp.ir),
        CUState::ThirdWordFetch => false,
        CUState::Exec => !decodable(dp.ir) || !exec_step_exists(decode(dp.ir), cu.step),
        CUState::Interruption => cu.step > 8,
    }
}

/// The control unit after one tick, and the signals it sends, given the
/// data path it reads.
pub open spec fn cu_next(cu: ControlUnitView, dp: DataPathView) -> (ControlUnitView, ControlSignals) {
    let idle = ControlSignals::idle();
    match cu.state {
        CUState::InstructionFetch => if cu.step == 0 {
            (
                ControlUnitView { step: 1, ..cu },
                ControlSignals { mar_src: MarSrc::Ip, mar_write_enable: true, ..idle },
            )
        } else {
            (
                ControlUnitView { state: CUState::InstructionAnalyze, step: 0, ..cu },
                ControlSignals {
                    ir_write_enable: true,
                    ip_src: IpSrc::Increment,
                    ip_write_enable: true,
                    mem_read: true,
                    ..idle
                },
            )
        },
        CUState::InstructionAnalyze => (
            ControlUnitView {
                state: if mode_len(decode(dp.ir).mode) == 1 {
                    CUState::Exec
                } else {
                    CUState::SecondWordFetch
                },
                ..cu
            },
            ControlSignals { mar_src: MarSrc::Ip, mar_write_enable: true, ..idle },
        ),
        CUState::SecondWordFetch => (
            ControlUnitView {
                state: if mode_len(decode(dp.ir).mode) == 3 {
                    CUState::ThirdWordFetch
                } else {
                    CUState::Exec
                },
                ..cu
            },
            ControlSignals {
                ip_src: IpSrc::Increment,
                ip_write_enable: true,
                mdr_write_enable: true,
                mar_src: MarSrc::IpInc,
                mar_write_enable: true,
                mem_read: true,
                ..idle
            },
        ),
        CUState::ThirdWordFetch => (
            ControlUnitView { state: CUState::Exec, ..cu },
            ControlSignals {
                ip_src: IpSrc::Increment,
                ip_write_enable: true,
                mdr_write_enable: true,
                mar_src: MarSrc::IpInc,
                tmp_write_enable: true,
                mar_write_enable: true,
                mem_read: true,
                ..idle
            },
        ),
        CUState::Exec => {
            let di = decode(dp.ir);
            let (cs, done) = exec_signals(di, cu.step, dp.flags);
            let halted = cu.halted || di.opcode == isa::Opcode::Hlt;
            let int_flag = if di.opcode == isa::Opcode::Sti {
                true
            } else if di.opcode == isa::Opcode::Cli {
                false
            } else {
                cu.int_flag
            };
            let enter_interrupt = done && dp.io_irq && cu.int_flag && !cu.int_block;
            let int_block = if enter_interrupt {
                true
            } else if di.opcode == isa::Opcode::Iret && cu.step == 5 {
                false
            } else {
                cu.int_block
            };
            (
                ControlUnitView {
                    state: if !done {
                        CUState::Exec
                    } else if enter_interrupt {
                        CUState::Interruption
                    } else {
                        CUState::InstructionFetch
                    },
                    step: if done {
                        0
                    } else {
                        (cu.step + 1) as u8
                    },
                    halted,
                    int_flag,
                    int_block,
                },
                cs,
            )
        },
        CUState::Interruption => {
            let (cs, done) = interruption_signals(cu.step);
            (
                ControlUnitView {
                    state: if done {
                        CUState::InstructionFetch
                    } else {
                        CUState::Interruption
                    },
                    step: if done {
                        0
                    } else {
                        (cu.step + 1) as u8
                    },
                    ..cu
                },
                cs,
            )
        },
    }
}

// ============================> Decoding <=============================

proof fn lemma_decoding_unique(a: DecodedInstruction, b: DecodedInstruction, raw: u16)
    requires
        is_decoding_of(a, raw),
        is_decoding_of(b, raw),
    ensures
        a == b,
{
    isa::lemma_opcode_code_injective(a.opcode, b.opcode);
    isa::lemma_mode_code_injective(a.mode, b.mode);
}

/// The decoding of a word is the only one.
pub proof fn lemma_decode(di: DecodedInstruction, raw: u16)
    requires
        is_decoding_of(di, raw),
    ensures
        decode(raw) == di,
{
    let d = decode(raw);
    lemma_decoding_unique(d, di, raw);
}

impl DecodedInstruction {
    /// Splits a decodable instruction word into its fields.
    pub fn from_raw(raw: u16) -> (di: Self)
        requires
            decodable(raw),
        ensures
            is_decoding_of(di, raw),
            di == decode(raw),
    {
        assert(raw >> 10 == raw / 1024 && (raw >> 6) & 0b1111 == (raw / 64) % 16 && (raw >> 3)
            & 0b111 == (raw / 8) % 8 && raw & 0b111 == raw % 8) by (bit_vector);
        assert(raw / 1024 < 64);
        let opcode = match isa::Opcode::from_raw((raw >> 10) as u8) {
            Some(op) => op,
            None => {
                proof {
                    assert(false);
                }
                isa::Opcode::Nop
            },
        };
        let mode = match isa::Mode::from_raw(((raw >> 6) & 0b1111) as u8) {
            Some(m) => m,
            None => {
                proof {
                    assert(false);
                }
                isa::Mode::RegToReg
            },
        };
        let di = DecodedInstruction {
            opcode,
            mode,
            rd: Self::raw_isa_reg_to_alu_reg(((raw >> 3) & 0b111) as u8),
            rs: Self::raw_isa_reg_to_alu_reg((raw & 0b111) as u8),
        };
        proof {
            lemma_decode(di, raw);
        }
        di
    }

    /// Number of words of the instruction: 1, 2 or 3.
    pub fn get_len(&self) -> (r: u8)
        ensures
            r == mode_len(self.mode),
            1 <= r <= 3,
    {
        match self.mode {
            isa::Mode::RegToReg | isa::Mode::MemrToReg | isa::Mode::RegToMemr => 1,
            isa::Mode::ImmToReg | isa::Mode::MemaToReg | isa::Mode::MemraToReg
            | isa::Mode::ImmToMemr | isa::Mode::RegToMema | isa::Mode::RegToMemra => 2,
            isa::Mode::ImmToMema | isa::Mode::ImmToMemra => 3,
        }
    }

    /// The data path register of an instruction-set register code.
    fn raw_isa_reg_to_alu_reg(reg: u8) -> (r: GeneralPurposeRegister)
        requires
            reg < 8,
        ensures
            r.index() == reg,
    {
        let isa_reg = match isa::Register::from_raw(reg) {
            Some(r) => r,
            None => {
                proof {
                    assert(false);
                }
                isa::Register::AL
            },
        };
        match isa_reg {
            isa::Register::AL => GeneralPurposeRegister::AL,
            isa::Register::AH => GeneralPurposeRegister::AH,
            isa::Register::BL => GeneralPurposeRegister::BL,
            isa::Register::BH => GeneralPurposeRegister::BH,
            isa::Register::CL => GeneralPurposeRegister::CL,
            isa::Register::CH => GeneralPurposeRegister::CH,
            isa::Register::SP => GeneralPurposeRegister::SP,
            isa::Register::BP => GeneralPurposeRegister::BP,
        }
    }
}

// ============================> The control unit <=============================

pub struct ControlUnit {
    state: CUState,
    step_counter: u8,
    is_halted: bool,
    // Registers
    interruption_flag: Register<bool>,
    interruption_block: Register<bool>,
    debug: bool,
}

impl View for ControlUnit {
    type V = ControlUnitView;

    closed spec fn view(&self) -> ControlUnitView {
        ControlUnitView {
            state: self.state,
            step: self.step_counter,
            halted: self.is_halted,
            int_flag: self.interruption_flag.value(),
            int_block: self.interruption_block.value(),
        }
    }
}

impl ControlUnit {
    /// Between ticks the interrupt registers are settled.
    pub closed spec fn wf(&self) -> bool {
        self.interruption_flag.settled() && self.interruption_block.settled()
    }

    /// Whether the unit was created to print its steps.
    pub closed spec fn spec_debug(&self) -> bool {
        self.debug
    }

    /// A control unit about to fetch the first instruction, not halted, with
    /// interrupts disabled.
    pub fn new(debug: bool) -> (cu: Self)
        ensures
            cu.wf(),
            cu@ == (ControlUnitView {
                state: CUState::InstructionFetch,
                step: 0,
                halted: false,
                int_flag: false,
                int_block: false,
            }),
            cu.spec_debug() == debug,
    {
        Self {
            state: CUState::InstructionFetch,
            step_counter: 0,
            interruption_flag: Register::new(),
            interruption_block: Register::new(),
            is_halted: false,
            debug,
        }
    }

    pub fn get_is_halted(&self) -> (r: bool)
        ensures
            r == self@.halted,
    {
        self.is_halted
    }

    /// SP - 1 -> SP
    fn op_dec_sp() -> (cs: ControlSignals)
        ensures
            cs == dec_sp_signals(),
    {
        ControlSignals {
            rf_read_a: GeneralPurposeRegister::SP,
            rf_write_dst: GeneralPurposeRegister::SP,
            rf_write_enable: true,
            alu_src_a: AluSrcA::RegisterA,
            alu_operation: AluOperation::Dec,
            ..Default::default()
        }
    }

    /// SP + 1 -> SP
    fn op_inc_sp() -> (cs: ControlSignals)
        ensures
            cs == inc_sp_signals(),
    {
        ControlSignals {
            rf_read_a: GeneralPurposeRegister::SP,
            rf_write_dst: GeneralPurposeRegister::SP,
            rf_write_enable: true,
            alu_src_a: AluSrcA::RegisterA,
            alu_operation: AluOperation::Inc,
            ..Default::default()
        }
    }

    /// SP -> MAR
    fn op_sp_to_mar() -> (cs: ControlSignals)
        ensures
            cs == sp_to_mar_signals(),
    {
        ControlSignals {
            rf_read_a: GeneralPurposeRegister::SP,
            mar_src: MarSrc::AluOutput,
            mar_write_enable: true,
            alu_src_a: AluSrcA::RegisterA,
            alu_operation: AluOperation::PassLeft,
            ..Default::default()
        }
    }

    fn op_unary_rtr(di: DecodedInstruction, alu_op: AluOperation) -> (r: (ControlSignals, bool))
        ensures
            r == (unary_signals(di, alu_op), true),
    {
        (
            ControlSignals {
                rf_read_a: di.rs,
                rf_read_b: di.rs,
                rf_write_dst: di.rd,
                rf_write_enable: true,
                alu_operation: alu_op,
                alu_flags_write_enable: true,
                ..Default::default()
            },
            true,
        )
    }

    fn op_shift_itr(di: DecodedInstruction, alu_op: AluOperation) -> (r: (ControlSignals, bool))
        ensures
            r == (shift_signals(di, alu_op), true),
    {
        (
            ControlSignals {
                rf_read_a: di.rd,
                alu_src_a: AluSrcA::RegisterA,
                alu_src_b: AluSrcB::Mdr,
                alu_operation: alu_op,
                rf_write_dst: di.rd,
                rf_write_enable: true,
                alu_flags_write_enable: true,
                ..Default::default()
            },
            true,
        )
    }

    /// Whether a jump is taken on the data path's flags.
    fn jump_condition(op: isa::Opcode, dp: &DataPath) -> (r: bool)
        ensures
            r == jump_taken(op, dp@.flags),
    {
        let z = dp.get_zero_flag();
        let n = dp.get_negative_flag();
        let c = dp.get_carry_flag();
        let o = dp.get_overflow_flag();
        match op {
            isa::Opcode::Je => z,
            isa::Opcode::Jne => !z,
            isa::Opcode::Jns => n,
            isa::Opcode::Jnc => n,
            isa::Opcode::Jcs => c,
            isa::Opcode::Jcc => !c,
            isa::Opcode::Jos => o,
            isa::Opcode::Joc => !o,
            isa::Opcode::Jl => n != o,
            isa::Opcode::Jle => z || (n != o),
            isa::Opcode::Jg => !z && (n == o),
            isa::Opcode::Jge => n == o,
            _ => true,
        }
    }

    fn op_jmp_itr(cond: bool) -> (cs: ControlSignals)
        ensures
            cs == jmp_signals(cond),
    {
        if cond {
            ControlSignals {
                ip_write_enable: true,
                ip_src: IpSrc::AluOutput,
                alu_src_a: AluSrcA::Mdr,
                mar_src: MarSrc::AluOutput,
                mar_write_enable: true,
                alu_operation: AluOperation::PassLeft,
                ..Default::default()
            }
        } else {
            ControlSignals { ..Default::default() }
        }
    }

    /// Offers a new value to the interrupt-enable register.
    fn op_set_if(state: bool, reg: &mut Register<bool>) -> (cs: ControlSignals)
        ensures
            cs == ControlSignals::idle(),
            final(reg).latched() == state,
            final(reg).write_enabled(),
            final(reg).value() == old(reg).value(),
    {
        reg.set(state);
        reg.set_write(true);
        ControlSignals { ..Default::default() }
    }
}

impl ControlUnit {
    /// One step of a two-operand instruction in any mode.
    fn op_binary_alu_any(
        di: DecodedInstruction,
        step_counter: u8,
        alu_op: AluOperation,
        disable_mem_or_rf_write: bool,
        skip_mem_read: bool,
        pair_mode: bool,
        write_flags: bool,
    ) -> (r: (ControlSignals, bool))
        requires
            binary_step_exists(di.mode, binary_step(di, step_counter, skip_mem_read)),
        ensures
            r == binary_signals(
                di,
                step_counter,
                alu_op,
                disable_mem_or_rf_write,
                skip_mem_read,
                pair_mode,
                write_flags,
            ),
    {
        let ghost step0 = step_counter;
        let mut step_counter = step_counter;

        // Mov hack for opt.
        if skip_mem_read && step_counter == 1 && matches!(
            di.mode,
            isa::Mode::RegToMemr | isa::Mode::ImmToMemr | isa::Mode::RegToMema
                | isa::Mode::ImmToMema | isa::Mode::RegToMemra | isa::Mode::ImmToMemra
        ) {
            step_counter += 1;
        }
        assert(step_counter == binary_step(di, step0, skip_mem_read));

        let (mut cs, is_done) = Self::binary_mode_step(di, step_counter);
        if is_done {
            cs.alu_operation = alu_op;
            cs.mar_src = MarSrc::Ip;
            cs.mar_write_enable = true;

            // Tmp and Cmp hack
            cs.mem_write = cs.mem_write && !disable_mem_or_rf_write;
            cs.rf_write_enable = cs.rf_write_enable && !disable_mem_or_rf_write;
            // Mul and Div hack
            cs.rf_write_pair_mode = cs.rf_write_pair_mode || pair_mode;
            cs.alu_flags_write_enable = cs.alu_flags_write_enable || write_flags;
        }
        (cs, is_done)
    }


    /// The signals of one step of a two-operand instruction in its mode.
    fn binary_mode_step(di: DecodedInstruction, step_counter: u8) -> (r: (ControlSignals, bool))
        requires
            binary_step_exists(di.mode, step_counter),
        ensures
            r == binary_mode_signals(di, step_counter),
    {
        let mut cs = ControlSignals::default();
        let is_done = match di.mode {
            isa::Mode::RegToReg => {
                // Rd _ Rs -> Rd
                cs.rf_read_a = di.rd;
                cs.rf_read_b = di.rs;
                cs.alu_src_a = AluSrcA::RegisterA;
                cs.alu_src_b = AluSrcB::RegisterB;
                cs.rf_write_dst = di.rd;
                cs.rf_write_enable = true;
                assert((cs, true) == binary_mode_signals(di, step_counter)) by {
                    reveal(binary_mode_signals);
                }
                true
            },
            isa::Mode::ImmToReg => {
                // Rd _ #addr -> Rd
                cs.rf_read_a = di.rd;
                cs.alu_src_a = AluSrcA::RegisterA;
                cs.alu_src_b = AluSrcB::Mdr;
                cs.rf_write_dst = di.rd;
                cs.rf_write_enable = true;
                assert((cs, true) == binary_mode_signals(di, step_counter)) by {
                    reveal(binary_mode_signals);
                }
                true
            },
            _ => {
                if step_counter == 0 {
                    Self::address_step(di, &mut cs);
                    assert((cs, false) == binary_mode_signals(di, step_counter)) by {
                        reveal(binary_mode_signals);
                    }
                    false
                } else if step_counter == 1 {
                    // mem[Mar] -> Mdr
                    cs.mem_read = true;
                    cs.mdr_write_enable = true;
                    assert((cs, false) == binary_mode_signals(di, step_counter)) by {
                        reveal(binary_mode_signals);
                    }
                    false
                } else {
                    Self::operand_step(di, &mut cs);
                    assert((cs, true) == binary_mode_signals(di, step_counter)) by {
                        reveal(binary_mode_signals);
                    }
                    true
                }
            },
        };

        (cs, is_done)
    }

    /// The first step of a memory-mode operand: the address to MAR (and, for
    /// immediate sources, the immediate to TMP).
    fn address_step(di: DecodedInstruction, cs: &mut ControlSignals)
        requires
            *old(cs) == ControlSignals::idle(),
            di.mode != isa::Mode::RegToReg && di.mode != isa::Mode::ImmToReg,
        ensures
            *final(cs) == binary_mode_signals(di, 0).0,
    {
        reveal(binary_mode_signals);
        match di.mode {
            isa::Mode::MemrToReg => {
                // Rs -> Mar
                cs.rf_read_a = di.rs;
                cs.alu_src_a = AluSrcA::RegisterA;
                cs.alu_operation = AluOperation::PassLeft;
            },
            isa::Mode::MemaToReg | isa::Mode::RegToMema => {
                // #addr -> Mar
                cs.alu_src_a = AluSrcA::Mdr;
                cs.alu_operation = AluOperation::PassLeft;
            },
            isa::Mode::MemraToReg => {
                // Rs + #addr -> Mar
                cs.rf_read_a = di.rs;
                cs.alu_src_a = AluSrcA::RegisterA;
                cs.alu_src_b = AluSrcB::Mdr;
                cs.alu_operation = AluOperation::Add;
            },
            isa::Mode::RegToMemr => {
                // Rd -> Mar
                cs.rf_read_a = di.rd;
                cs.alu_src_a = AluSrcA::RegisterA;
                cs.alu_operation = AluOperation::PassLeft;
            },
            isa::Mode::ImmToMemr => {
                // Mdr -> Tmp; Rd -> Mar
                cs.rf_read_a = di.rd;
                cs.alu_src_a = AluSrcA::RegisterA;
                cs.alu_operation = AluOperation::PassLeft;
                cs.tmp_write_enable = true;
            },
            isa::Mode::ImmToMema => {
                // #addr (Tmp) -> Mar; Mdr -> Tmp
                cs.alu_src_b = AluSrcB::Tmp;
                cs.alu_operation = AluOperation::PassRight;
                cs.tmp_write_enable = true;
            },
            isa::Mode::RegToMemra => {
                // Rd + #addr (Mdr) -> Mar
                cs.rf_read_a = di.rd;
                cs.alu_src_a = AluSrcA::RegisterA;
                cs.alu_src_b = AluSrcB::Mdr;
                cs.alu_operation = AluOperation::Add;
                cs.tmp_write_enable = true;
            },
            _ => {
                // Rd + #addr (Tmp) -> Mar; Mdr -> Tmp
                cs.rf_read_a = di.rd;
                cs.alu_src_a = AluSrcA::RegisterA;
                cs.alu_src_b = AluSrcB::Tmp;
                cs.alu_operation = AluOperation::Add;
                cs.tmp_write_enable = true;
            },
        }
        cs.mar_src = MarSrc::AluOutput;
        cs.mar_write_enable = true;
    }

    /// The last step of a memory-mode operand: the operation on MDR, into
    /// the destination register or into memory.
    fn operand_step(di: DecodedInstruction, cs: &mut ControlSignals)
        requires
            *old(cs) == ControlSignals::idle(),
            di.mode != isa::Mode::RegToReg && di.mode != isa::Mode::ImmToReg,
        ensures
            *final(cs) == binary_mode_signals(di, 2).0,
            binary_mode_signals(di, 2).1,
    {
        reveal(binary_mode_signals);
        match di.mode {
            isa::Mode::MemrToReg | isa::Mode::MemaToReg | isa::Mode::MemraToReg => {
                // Rd _ Mdr -> Rd
                cs.rf_read_a = di.rd;
                cs.alu_src_a = AluSrcA::RegisterA;
                cs.alu_src_b = AluSrcB::Mdr;
                cs.rf_write_dst = di.rd;
                cs.rf_write_enable = true;
            },
            isa::Mode::RegToMemr | isa::Mode::RegToMema | isa::Mode::RegToMemra => {
                // Mdr _ Rs -> mem[Mar]
                cs.rf_read_b = di.rs;
                cs.alu_src_a = AluSrcA::Mdr;
                cs.alu_src_b = AluSrcB::RegisterB;
                cs.mem_write = true;
            },
            _ => {
                // Mdr _ Tmp -> mem[Mar]
                cs.alu_src_a = AluSrcA::Mdr;
                cs.alu_src_b = AluSrcB::Tmp;
                cs.mem_write = true;
            },
        }
    }
}

impl ControlUnit {
    /// One tick of the execution phase: the signals for the current step of
    /// the instruction in IR, and whether it is its last step. HLT halts the
    /// unit, STI and CLI offer a new value to the interrupt-enable register,
    /// and the last step of IRET offers to leave the interrupt handler.
    #[verifier::spinoff_prover]
    #[verifier::rlimit(100)]
    fn tick_exec_state(&mut self, dp: &DataPath) -> (r: (ControlSignals, bool))
        requires
            decodable(dp@.ir),
            exec_step_exists(decode(dp@.ir), old(self).step_counter),
        ensures
            r == exec_signals(decode(dp@.ir), old(self).step_counter, dp@.flags),
            final(self).is_halted == (old(self).is_halted || decode(dp@.ir).opcode
                == isa::Opcode::Hlt),
            final(self).interruption_flag.value() == old(self).interruption_flag.value(),
            decode(dp@.ir).opcode == isa::Opcode::Sti ==> final(self).interruption_flag.latched()
                && final(self).interruption_flag.write_enabled(),
            decode(dp@.ir).opcode == isa::Opcode::Cli ==> !final(self).interruption_flag.latched()
                && final(self).interruption_flag.write_enabled(),
            decode(dp@.ir).opcode != isa::Opcode::Sti && decode(dp@.ir).opcode
                != isa::Opcode::Cli ==> final(self).interruption_flag == old(self).interruption_flag,
            final(self).interruption_block.value() == old(self).interruption_block.value(),
            decode(dp@.ir).opcode == isa::Opcode::Iret && old(self).step_counter == 5
                ==> !final(self).interruption_block.latched()
                && final(self).interruption_block.write_enabled(),
            !(decode(dp@.ir).opcode == isa::Opcode::Iret && old(self).step_counter == 5)
                ==> final(self).interruption_block == old(self).interruption_block,
            final(self).state == old(self).state,
            final(self).step_counter == old(self).step_counter,
            final(self).debug == old(self).debug,
    {
        let ir = dp.get_instruction_register();
        let di = DecodedInstruction::from_raw(ir);

        match (di.opcode, di.mode) {
            (isa::Opcode::Nop, isa::Mode::RegToReg) => (ControlSignals { ..Default::default() }, true),
            (isa::Opcode::Hlt, isa::Mode::RegToReg) => {
                self.is_halted = true;
                (ControlSignals { ..Default::default() }, true)
            },
            (isa::Opcode::Mov, _) => Self::op_binary_alu_any(
                di,
                self.step_counter,
                AluOperation::PassRight,
                false,
                true,
                false,
                false,
            ),
            (isa::Opcode::Add, _) => Self::op_binary_alu_any(
                di,
                self.step_counter,
                AluOperation::Add,
                false,
                false,
                false,
                true,
            ),
            (isa::Opcode::AddC, _) => Self::op_binary_alu_any(
                di,
                self.step_counter,
                AluOperation::AddC,
                false,
                false,
                false,
                true,
            ),
            (isa::Opcode::Sub, _) => Self::op_binary_alu_any(
                di,
                self.step_counter,
                AluOperation::Sub,
                false,
                false,
                false,
                true,
            ),
            (isa::Opcode::SubC, _) => Self::op_binary_alu_any(
                di,
                self.step_counter,
                AluOperation::SubC,
                false,
                false,
                false,
                true,
            ),
            (isa::Opcode::And, _) => Self::op_binary_alu_any(
                di,
                self.step_counter,
                AluOperation::And,
                false,
                false,
                false,
                true,
            ),
            (isa::Opcode::Or, _) => Self::op_binary_alu_any(
                di,
                self.step_counter,
                AluOperation::Or,
                false,
                false,
                false,
                true,
            ),
            (isa::Opcode::Xor, _) => Self::op_binary_alu_any(
                di,
                self.step_counter,
                AluOperation::Xor,
                false,
                false,
                false,
                true,
            ),
            (isa::Opcode::Mul, _) => Self::op_binary_alu_any(
                di,
                self.step_counter,
                AluOperation::Mul,
                false,
                false,
                true,
                true,
            ),
            (isa::Opcode::Div, _) => Self::op_binary_alu_any(
                di,
                self.step_counter,
                AluOperation::Div,
                false,
                false,
                true,
                true,
            ),
            (isa::Opcode::Cmp, _) => Self::op_binary_alu_any(
                di,
                self.step_counter,
                AluOperation::Sub,
                true,
                false,
                false,
                true,
            ),
            (isa::Opcode::Test, _) => Self::op_binary_alu_any(
                di,
                self.step_counter,
                AluOperation::And,
                true,
                false,
                false,
                true,
            ),
            (isa::Opcode::Inc, isa::Mode::RegToReg) => Self::op_unary_rtr(di, AluOperation::Inc),
            (isa::Opcode::Dec, isa::Mode::RegToReg) => Self::op_unary_rtr(di, AluOperation::Dec),
            (isa::Opcode::Neg, isa::Mode::RegToReg) => Self::op_unary_rtr(di, AluOperation::Neg),
            (isa::Opcode::Not, isa::Mode::RegToReg) => Self::op_unary_rtr(di, AluOperation::Not),
            (isa::Opcode::Shl, isa::Mode::ImmToReg) => Self::op_shift_itr(di, AluOperation::ShiftL),
            (isa::Opcode::Shr, isa::Mode::ImmToReg) => Self::op_shift_itr(di, AluOperation::ShiftR),
            (isa::Opcode::Jmp, isa::Mode::ImmToReg)
            | (isa::Opcode::Je, isa::Mode::ImmToReg)
            | (isa::Opcode::Jne, isa::Mode::ImmToReg)
            | (isa::Opcode::Jns, isa::Mode::ImmToReg)
            | (isa::Opcode::Jnc, isa::Mode::ImmToReg)
            | (isa::Opcode::Jcs, isa::Mode::ImmToReg)
            | (isa::Opcode::Jcc, isa::Mode::ImmToReg)
            | (isa::Opcode::Jos, isa::Mode::ImmToReg)
            | (isa::Opcode::Joc, isa::Mode::ImmToReg)
            | (isa::Opcode::Jl, isa::Mode::ImmToReg)
            | (isa::Opcode::Jle, isa::Mode::ImmToReg)
            | (isa::Opcode::Jg, isa::Mode::ImmToReg)
            | (isa::Opcode::Jge, isa::Mode::ImmToReg) => (
                Self::op_jmp_itr(Self::jump_condition(di.opcode, dp)),
                true,
            ),
            (isa::Opcode::Call, isa::Mode::ImmToReg) => Self::op_call(self.step_counter),
            (isa::Opcode::Ret, isa::Mode::RegToReg) => Self::op_ret(di, self.step_counter),
            (isa::Opcode::Ret, isa::Mode::ImmToReg) => Self::op_ret_imm(di, self.step_counter),
            (isa::Opcode::Push, isa::Mode::RegToReg) => Self::op_push(di, self.step_counter),
            (isa::Opcode::Pop, isa::Mode::RegToReg) => Self::op_pop(di, self.step_counter),
            (isa::Opcode::Enter, isa::Mode::ImmToReg) => Self::op_enter(self.step_counter),
            (isa::Opcode::Leave, isa::Mode::RegToReg) => Self::op_leave(self.step_counter),
            (isa::Opcode::Iret, isa::Mode::RegToReg) => Self::op_iret(self.step_counter, &mut self.interruption_block),
            (isa::Opcode::Sti, isa::Mode::RegToReg) => (
                Self::op_set_if(true, &mut self.interruption_flag),
                true,
            ),
            (isa::Opcode::Cli, isa::Mode::RegToReg) => (
                Self::op_set_if(false, &mut self.interruption_flag),
                true,
            ),
            _ => {
                // Unknown to the microprogram: excluded by the precondition.
                proof {
                    assert(false);
                }
                (ControlSignals { ..Default::default() }, true)
            },
        }
    }
}

impl ControlUnit {
    fn op_call(step_counter: u8) -> (r: (ControlSignals, bool))
        requires
            step_counter <= 3,
        ensures
            r == call_signals(step_counter),
    {
        match step_counter {
            0 => (Self::op_dec_sp(), false),
            1 => (Self::op_sp_to_mar(), false),
            2 => (
                ControlSignals {
                    alu_operation: AluOperation::PassLeft,
                    alu_src_a: AluSrcA::Ip,
                    mem_write: true,
                    ..Default::default()
                },
                false,
            ),
            _ => (
                ControlSignals {
                    alu_operation: AluOperation::PassLeft,
                    alu_src_a: AluSrcA::Mdr,
                    ip_src: IpSrc::AluOutput,
                    ip_write_enable: true,
                    ..Default::default()
                },
                true,
            ),
        }
    }

    fn op_ret(di: DecodedInstruction, step_counter: u8) -> (r: (ControlSignals, bool))
        requires
            step_counter <= 3,
            di.mode == isa::Mode::RegToReg,
        ensures
            r == ret_signals(di, step_counter),
    {
        match step_counter {
            0 => (Self::op_sp_to_mar(), false),
            1 => (Self::op_inc_sp(), false),
            2 => (ControlSignals { mem_read: true, mdr_write_enable: true, ..Default::default() }, false),
            _ => (
                ControlSignals {
                    alu_operation: AluOperation::PassLeft,
                    alu_src_a: AluSrcA::Mdr,
                    ip_src: IpSrc::AluOutput,
                    ip_write_enable: true,
                    ..Default::default()
                },
                true,
            ),
        }
    }

    fn op_ret_imm(di: DecodedInstruction, step_counter: u8) -> (r: (ControlSignals, bool))
        requires
            step_counter <= 3,
            di.mode == isa::Mode::ImmToReg,
        ensures
            r == ret_signals(di, step_counter),
    {
        match step_counter {
            0 => (Self::op_sp_to_mar(), false),
            1 => (Self::op_inc_sp(), false),
            // Mem[SP] -> MDR
            // SP + #n (MDR) -> SP  ; Pop args
            2 => (
                ControlSignals {
                    rf_read_a: GeneralPurposeRegister::SP,
                    alu_src_a: AluSrcA::RegisterA,
                    alu_src_b: AluSrcB::Mdr,
                    alu_operation: AluOperation::Add,
                    rf_write_dst: GeneralPurposeRegister::SP,
                    rf_write_enable: true,
                    mem_read: true,
                    mdr_write_enable: true,
                    ..Default::default()
                },
                false,
            ),
            _ => (
                ControlSignals {
                    alu_operation: AluOperation::PassLeft,
                    alu_src_a: AluSrcA::Mdr,
                    ip_src: IpSrc::AluOutput,
                    ip_write_enable: true,
                    ..Default::default()
                },
                true,
            ),
        }
    }

    fn op_push(di: DecodedInstruction, step_counter: u8) -> (r: (ControlSignals, bool))
        requires
            step_counter <= 2,
        ensures
            r == push_signals(di, step_counter),
    {
        match step_counter {
            0 => (Self::op_dec_sp(), false),
            1 => (Self::op_sp_to_mar(), false),
            _ => (
                ControlSignals {
                    rf_read_a: di.rs,
                    alu_src_a: AluSrcA::RegisterA,
                    alu_operation: AluOperation::PassLeft,
                    mem_write: true,
                    ..Default::default()
                },
                true,
            ),
        }
    }

    fn op_pop(di: DecodedInstruction, step_counter: u8) -> (r: (ControlSignals, bool))
        requires
            step_counter <= 3,
        ensures
            r == pop_signals(di, step_counter),
    {
        match step_counter {
            0 => (Self::op_sp_to_mar(), false),
            1 => (Self::op_inc_sp(), false),
            2 => (ControlSignals { mem_read: true, mdr_write_enable: true, ..Default::default() }, false),
            _ => (
                ControlSignals {
                    alu_operation: AluOperation::PassLeft,
                    alu_src_a: AluSrcA::Mdr,
                    rf_write_dst: di.rd,
                    rf_write_enable: true,
                    ..Default::default()
                },
                true,
            ),
        }
    }

    fn op_enter(step_counter: u8) -> (r: (ControlSignals, bool))
        requires
            step_counter <= 4,
        ensures
            r == enter_signals(step_counter),
    {
        match step_counter {
            0 => (Self::op_dec_sp(), false),
            1 => (Self::op_sp_to_mar(), false),
            2 => (
                ControlSignals {
                    rf_read_a: GeneralPurposeRegister::BP,
                    alu_src_a: AluSrcA::RegisterA,
                    alu_operation: AluOperation::PassLeft,
                    mem_write: true,
                    ..Default::default()
                },
                false,
            ),
            3 => (
                ControlSignals {
                    rf_read_a: GeneralPurposeRegister::SP,
                    alu_src_a: AluSrcA::RegisterA,
                    alu_operation: AluOperation::PassLeft,
                    rf_write_dst: GeneralPurposeRegister::BP,
                    rf_write_enable: true,
                    ..Default::default()
                },
                false,
            ),
            _ => (
                ControlSignals {
                    rf_read_a: GeneralPurposeRegister::SP,
                    alu_src_a: AluSrcA::RegisterA,
                    alu_src_b: AluSrcB::Mdr,
                    alu_operation: AluOperation::Sub,
                    rf_write_dst: GeneralPurposeRegister::SP,
                    rf_write_enable: true,
                    ..Default::default()
                },
                true,
            ),
        }
    }

    fn op_leave(step_counter: u8) -> (r: (ControlSignals, bool))
        requires
            step_counter <= 4,
        ensures
            r == leave_signals(step_counter),
    {
        match step_counter {
            0 => (
                ControlSignals {
                    rf_read_a: GeneralPurposeRegister::BP,
                    alu_src_a: AluSrcA::RegisterA,
                    alu_operation: AluOperation::PassLeft,
                    rf_write_dst: GeneralPurposeRegister::SP,
                    rf_write_enable: true,
                    ..Default::default()
                },
                false,
            ),
            1 => (Self::op_sp_to_mar(), false),
            2 => (Self::op_inc_sp(), false),
            3 => (ControlSignals { mem_read: true, mdr_write_enable: true, ..Default::default() }, false),
            _ => (
                ControlSignals {
                    alu_operation: AluOperation::PassLeft,
                    alu_src_a: AluSrcA::Mdr,
                    rf_write_dst: GeneralPurposeRegister::BP,
                    rf_write_enable: true,
                    ..Default::default()
                },
                true,
            ),
        }
    }

    fn op_iret(step_counter: u8, block: &mut Register<bool>) -> (r: (ControlSignals, bool))
        requires
            step_counter <= 5,
        ensures
            r == iret_signals(step_counter),
            step_counter == 5 ==> !final(block).latched() && final(block).write_enabled(),
            step_counter != 5 ==> *final(block) == *old(block),
            final(block).value() == old(block).value(),
    {
        match step_counter {
                // Pop IP
            0 => (Self::op_sp_to_mar(), false),
            1 => {
                let mut cu = Self::op_inc_sp();
                cu.mem_read = true;
                cu.mdr_write_enable = true;
                (cu, false)
            },
            2 => (
                ControlSignals {
                    alu_operation: AluOperation::PassLeft,
                    alu_src_a: AluSrcA::Mdr,
                    ip_src: IpSrc::AluOutput,
                    ip_write_enable: true,
                    mar_src: MarSrc::AluOutput,
                    mar_write_enable: true,
                    ..Default::default()
                },
                false,
            ),
            // Pop flags
            3 => (Self::op_sp_to_mar(), false),
            4 => {
                let mut cu = Self::op_inc_sp();
                cu.mem_read = true;
                cu.mdr_write_enable = true;
                (cu, false)
            },
            _ => {
                block.set(false);
                block.set_write(true);
                (
                    ControlSignals {
                        alu_src_a: AluSrcA::Mdr,
                        alu_operation: AluOperation::LoadFlagsLeft,
                        alu_flags_write_enable: true,
                        ..Default::default()
                    },
                    true,
                )
            },
        }
    }
}

impl ControlUnit {
    /// One clock tick: the control signals for this tick, chosen from the
    /// current phase and step and, as needed, from the instruction register,
    /// the flags and the interrupt line of the data path.
    pub fn tick(&mut self, dp: &DataPath) -> (cs: ControlSignals)
        requires
            old(self).wf(),
            !cu_faults(old(self)@, dp@),
        ensures
            final(self).wf(),
            (final(self)@, cs) == cu_next(old(self)@, dp@),
            final(self).spec_debug() == old(self).spec_debug(),
    {
        let (cu_signals, new_state) = match self.state {
            CUState::InstructionFetch => {
                if self.step_counter == 0 {
                    self.step_counter += 1;
                    (
                        ControlSignals {
                            mar_src: MarSrc::Ip,
                            mar_write_enable: true,
                            ..Default::default()
                        },
                        CUState::InstructionFetch,
                    )
                } else {
                    self.step_counter = 0;
                    (
                        ControlSignals {
                            ir_write_enable: true,
                            ip_src: IpSrc::Increment,
                            ip_write_enable: true,
                            mem_read: true,
                            ..Default::default()
                        },
                        CUState::InstructionAnalyze,
                    )
                }
            },
            CUState::InstructionAnalyze => {
                let di = DecodedInstruction::from_raw(dp.get_instruction_register());
                let next_step = if di.get_len() == 1 {
                    CUState::Exec
                } else {
                    CUState::SecondWordFetch
                };
                (
                    ControlSignals {
                        mar_src: MarSrc::Ip,
                        mar_write_enable: true,
                        ..Default::default()
                    },
                    next_step,
                )
            },
            CUState::SecondWordFetch => {
                let di = DecodedInstruction::from_raw(dp.get_instruction_register());
                let next_step = if di.get_len() == 3 {
                    CUState::ThirdWordFetch
                } else {
                    CUState::Exec
                };
                (
                    ControlSignals {
                        ip_src: IpSrc::Increment,
                        ip_write_enable: true,
                        mdr_write_enable: true,
                        mar_src: MarSrc::IpInc,
                        mar_write_enable: true,
                        mem_read: true,
                        ..Default::default()
                    },
                    next_step,
                )
            },
            CUState::ThirdWordFetch => (
                ControlSignals {
                    ip_src: IpSrc::Increment,
                    ip_write_enable: true,
                    mdr_write_enable: true,
                    mar_src: MarSrc::IpInc,
                    tmp_write_enable: true,
                    mar_write_enable: true,
                    mem_read: true,
                    ..Default::default()
                },
                CUState::Exec,
            ),
            CUState::Exec => {
                proof {
                    lemma_exec_step_bound(decode(dp@.ir), self.step_counter, dp@.flags);
                }
                let (cu_signals, is_done) = self.tick_exec_state(dp);
                if is_done {
                    self.step_counter = 0;
                    if dp.get_io_irq() && self.interruption_flag.get()
                        && !self.interruption_block.get() {
                        self.interruption_block.set(true);
                        self.interruption_block.set_write(true);
                        (cu_signals, CUState::Interruption)
                    } else {
                        (cu_signals, CUState::InstructionFetch)
                    }
                } else {
                    self.step_counter += 1;
                    (cu_signals, CUState::Exec)
                }
            },
            CUState::Interruption => {
                let (cu_signals, is_done) = Self::interruption_step(self.step_counter);
                if !is_done {
                    self.step_counter += 1;
                    (cu_signals, CUState::Interruption)
                } else {
                    self.step_counter = 0;
                    (cu_signals, CUState::InstructionFetch)
                }
            },
        };

        self.interruption_flag.tick();
        self.interruption_block.tick();
        self.state = new_state;
        cu_signals
    }

    /// One step of entering the interrupt handler.
    fn interruption_step(step_counter: u8) -> (r: (ControlSignals, bool))
        requires
            step_counter <= 8,
        ensures
            r == interruption_signals(step_counter),
    {
        match step_counter {
            // Push flags onto stack
            0 => (Self::op_dec_sp(), false),
            1 => (Self::op_sp_to_mar(), false),
            2 => (
                ControlSignals {
                    alu_operation: AluOperation::PassFlags,
                    mem_write: true,
                    ..Default::default()
                },
                false,
            ),
            // Push IP onto stack
            3 => (Self::op_dec_sp(), false),
            4 => (Self::op_sp_to_mar(), false),
            5 => (
                ControlSignals {
                    alu_operation: AluOperation::PassLeft,
                    alu_src_a: AluSrcA::Ip,
                    mem_write: true,
                    ..Default::default()
                },
                false,
            ),
            6 => (
                ControlSignals { mar_src: MarSrc::IoIrq, mar_write_enable: true, ..Default::default() },
                false,
            ),
            7 => (ControlSignals { mem_read: true, mdr_write_enable: true, ..Default::default() }, false),
            _ => (
                ControlSignals {
                    ip_src: IpSrc::AluOutput,
                    ip_write_enable: true,
                    mar_src: MarSrc::AluOutput,
                    mar_write_enable: true,
                    alu_src_a: AluSrcA::Mdr,
                    alu_operation: AluOperation::PassLeft,
                    ..Default::default()
                },
                true,
            ),
        }
    }
}

/// A step that is not the last one has a small number.
proof fn lemma_exec_step_bound(di: DecodedInstruction, step: u8, f: Flags)
    requires
        exec_step_exists(di, step),
    ensures
        !exec_signals(di, step, f).1 ==> step < 8,
{
    reveal(binary_mode_signals);
}

impl DecodedInstruction {
    /// Whether a raw word is a known instruction (no decoding fault).
    pub fn is_decodable(raw: u16) -> (r: bool)
        ensures
            r == decodable(raw),
    {
        let op = raw / 1024;
        let mode = (raw / 64) % 16;
        (op <= 17 || (20 <= op && op <= 40) || (42 <= op && op <= 44)) && mode <= 10
    }

    /// Whether the microprogram has the step `step` of this instruction.
    pub fn has_step(&self, step: u8) -> (r: bool)
        ensures
            r == exec_step_exists(*self, step),
    {
        let rtr = matches!(self.mode, isa::Mode::RegToReg);
        let itr = matches!(self.mode, isa::Mode::ImmToReg);
        let binary = rtr || itr || step <= 2;
        match self.opcode {
            isa::Opcode::Nop | isa::Opcode::Hlt | isa::Opcode::Sti | isa::Opcode::Cli => rtr,
            isa::Opcode::Mov | isa::Opcode::Add | isa::Opcode::AddC | isa::Opcode::Sub | isa::Opcode::SubC
            | isa::Opcode::And | isa::Opcode::Or | isa::Opcode::Xor | isa::Opcode::Mul
            | isa::Opcode::Div | isa::Opcode::Cmp | isa::Opcode::Test => binary,
            isa::Opcode::Inc | isa::Opcode::Dec | isa::Opcode::Neg | isa::Opcode::Not => rtr,
            isa::Opcode::Shl | isa::Opcode::Shr => itr,
            isa::Opcode::Jmp | isa::Opcode::Je | isa::Opcode::Jne | isa::Opcode::Jns
            | isa::Opcode::Jnc | isa::Opcode::Jcs | isa::Opcode::Jcc | isa::Opcode::Jos
            | isa::Opcode::Joc | isa::Opcode::Jl | isa::Opcode::Jle | isa::Opcode::Jg
            | isa::Opcode::Jge => itr,
            isa::Opcode::Call => itr && step <= 3,
            isa::Opcode::Ret => (rtr || itr) && step <= 3,
            isa::Opcode::Push => rtr && step <= 2,
            isa::Opcode::Pop => rtr && step <= 3,
            isa::Opcode::Enter => itr && step <= 4,
            isa::Opcode::Leave => rtr && step <= 4,
            isa::Opcode::Iret => rtr && step <= 5,
        }
    }
}

impl ControlUnit {
    /// Whether the next tick would stop the control unit (see `cu_faults`).
    pub fn faults(&self, dp: &DataPath) -> (r: bool)
        ensures
            r == cu_faults(self@, dp@),
    {
        match self.state {
            CUState::InstructionFetch => self.step_counter > 1,
            CUState::InstructionAnalyze | CUState::SecondWordFetch => !DecodedInstruction::is_decodable(
                dp.get_instruction_register(),
            ),
            CUState::ThirdWordFetch => false,
            CUState::Exec => {
                let ir = dp.get_instruction_register();
                if !DecodedInstruction::is_decodable(ir) {
                    true
                } else {
                    !DecodedInstruction::from_raw(ir).has_step(self.step_counter)
                }
            },
            CUState::Interruption => self.step_counter > 8,
        }
    }

    /// The phase the unit is in.
    pub fn get_state(&self) -> (r: CUState)
        ensures
            r == self@.state,
    {
        self.state
    }

    /// The step within the phase.
    pub fn get_step_counter(&self) -> (r: u8)
        ensures
            r == self@.step,
    {
        self.step_counter
    }
}

} // verus!
