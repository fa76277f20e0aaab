//! The data path: memory with memory-mapped I/O, the register file, the ALU
//! with its flags, and the instruction, address and data registers.
use vstd::prelude::*;

use crate::cpu::control_unit::{AluSrcA, AluSrcB, ControlSignals, IpSrc, MarSrc};
use crate::cpu::general::Register;

verus! {

/// Reading this address takes the word that arrived on the input port.
pub const IO_READ: u16 = 0x80;

/// Writing this address sends a word to the output port.
pub const IO_WRITE: u16 = 0x81;

/// The memory cell that holds the address of the input interrupt handler.
pub const IO_IRQ_ADDR: u16 = 0x10;

/// Number of words of memory.
pub const MEMORY_SIZE: usize = 65536;

#[derive(Clone, Copy, Debug, PartialEq, Eq, Structural)]
pub enum AluOperation {
    PassLeft,
    PassRight,
    Add,
    AddC,
    Sub,
    SubC,
    Mul,
    Div,
    Inc,
    Dec,
    Neg,
    And,
    Or,
    Xor,
    Not,
    ShiftR,
    ShiftL,
    Cmp,
    Test,
    PassFlags,
    LoadFlagsLeft,
}

impl Default for AluOperation {
    fn default() -> (r: Self)
        ensures
            r == AluOperation::PassLeft,
    {
        AluOperation::PassLeft
    }
}

#[derive(Clone, Copy, Debug, PartialEq, Eq, Structural)]
pub enum GeneralPurposeRegister {
    AL,
    AH,
    BL,
    BH,
    CL,
    CH,
    SP,
    BP,
}

impl Default for GeneralPurposeRegister {
    fn default() -> (r: Self)
        ensures
            r == GeneralPurposeRegister::AL,
    {
        GeneralPurposeRegister::AL
    }
}

impl GeneralPurposeRegister {
    /// Position of the register in the register file.
    pub open spec fn index(self) -> int {
        match self {
            GeneralPurposeRegister::AL => 0,
            GeneralPurposeRegister::AH => 1,
            GeneralPurposeRegister::BL => 2,
            GeneralPurposeRegister::BH => 3,
            GeneralPurposeRegister::CL => 4,
            GeneralPurposeRegister::CH => 5,
            GeneralPurposeRegister::SP => 6,
            GeneralPurposeRegister::BP => 7,
        }
    }

    pub fn to_index(self) -> (r: usize)
        ensures
            r == self.index(),
            r < 8,
    {
        match self {
            GeneralPurposeRegister::AL => 0,
            GeneralPurposeRegister::AH => 1,
            GeneralPurposeRegister::BL => 2,
            GeneralPurposeRegister::BH => 3,
            GeneralPurposeRegister::CL => 4,
            GeneralPurposeRegister::CH => 5,
            GeneralPurposeRegister::SP => 6,
            GeneralPurposeRegister::BP => 7,
        }
    }
}

/// The four ALU state flags.
#[derive(Clone, Copy, Debug, PartialEq, Eq, Structural)]
pub struct Flags {
    /// Zero.
    pub zf: bool,
    /// Negative (sign bit of the result).
    pub nf: bool,
    /// Carry out of, or borrow into, bit 15.
    pub cf: bool,
    /// Signed overflow.
    pub of: bool,
}

/// The sign bit of a word.
pub open spec fn neg(x: u16) -> bool {
    x >= 0x8000
}

/// An integer reduced to a word (arithmetic modulo 2^16).
pub open spec fn wrap(x: int) -> u16 {
    (x % 0x10000) as u16
}

pub open spec fn bit(b: bool) -> int {
    if b {
        1
    } else {
        0
    }
}

/// Flags with zero and negative taken from a result.
pub open spec fn with_zn(f: Flags, res: u16) -> Flags {
    Flags { zf: res == 0, nf: neg(res), cf: f.cf, of: f.of }
}

/// Flags of a result with carry and overflow given.
pub open spec fn flags_of(res: u16, cf: bool, of: bool) -> Flags {
    Flags { zf: res == 0, nf: neg(res), cf, of }
}

/// What the ALU computes: the low and high output words and the flags it
/// offers, from an operation, its two inputs and the current flags.
#[verifier::opaque]
pub open spec fn alu(op: AluOperation, l: u16, r: u16, f: Flags) -> (u16, u16, Flags) {
    match op {
        AluOperation::PassLeft => (l, 0, f),
        AluOperation::PassRight => (r, 0, f),
        AluOperation::Add => {
            let res = wrap(l + r);
            (res, 0, flags_of(res, l + r > 0xFFFF, neg(l) == neg(r) && neg(res) != neg(l)))
        },
        AluOperation::AddC => {
            let res = wrap(l + r + bit(f.cf));
            (
                res,
                0,
                flags_of(res, l + r + bit(f.cf) > 0xFFFF, neg(l) == neg(r) && neg(res) != neg(l)),
            )
        },
        AluOperation::Sub => {
            let res = wrap(l - r);
            (res, 0, flags_of(res, l < r, neg(l) != neg(r) && neg(res) != neg(l)))
        },
        AluOperation::SubC => {
            let res = wrap(l - r - bit(f.cf));
            (res, 0, flags_of(res, l < r + bit(f.cf), neg(l) != neg(r) && neg(res) != neg(l)))
        },
        AluOperation::Mul => {
            let lo = wrap(l * r);
            let hi = ((l * r) / 0x10000) as u16;
            (lo, hi, flags_of(lo, hi != 0, hi != 0))
        },
        AluOperation::Div => {
            let lo = (l / r) as u16;
            (lo, (l % r) as u16, with_zn(f, lo))
        },
        AluOperation::Inc => {
            let res = wrap(l + 1);
            (res, 0, Flags { zf: res == 0, nf: neg(res), cf: f.cf, of: l == 0x7FFF })
        },
        AluOperation::Dec => {
            let res = wrap(l - 1);
            (res, 0, Flags { zf: res == 0, nf: neg(res), cf: f.cf, of: l == 0x8000 })
        },
        AluOperation::Neg => {
            let res = wrap(0 - l);
            (res, 0, flags_of(res, l != 0, l == 0x8000))
        },
        AluOperation::And => (l & r, 0, flags_of(l & r, false, false)),
        AluOperation::Or => (l | r, 0, flags_of(l | r, false, false)),
        AluOperation::Xor => (l ^ r, 0, flags_of(l ^ r, false, false)),
        AluOperation::Not => (!l, 0, flags_of(!l, false, false)),
        AluOperation::ShiftR => {
            let s = r % 16;
            if s == 0 {
                (l, 0, f)
            } else {
                let res = l >> s;
                (res, 0, flags_of(res, (l >> ((s - 1) as u16)) & 1 == 1, neg(l) != neg(res)))
            }
        },
        AluOperation::ShiftL => {
            let s = r % 16;
            if s == 0 {
                (l, 0, f)
            } else {
                let res = l << s;
                (res, 0, flags_of(res, (l >> ((16 - s) as u16)) & 1 == 1, neg(l) != neg(res)))
            }
        },
        AluOperation::Cmp => {
            let res = wrap(l - r);
            (0, 0, flags_of(res, l < r, neg(l) != neg(r) && neg(res) != neg(l)))
        },
        AluOperation::Test => (0, 0, flags_of(l & r, false, false)),
        AluOperation::PassFlags => (
            (bit(f.zf) * 8 + bit(f.nf) * 4 + bit(f.cf) * 2 + bit(f.of)) as u16,
            0,
            f,
        ),
        AluOperation::LoadFlagsLeft => (
            0,
            0,
            Flags { zf: l / 8 == 1, nf: (l / 4) % 2 == 1, cf: (l / 2) % 2 == 1, of: l % 2 == 1 },
        ),
    }
}

/// Abstract state of the data path between two ticks.
pub struct DataPathView {
    pub memory: Seq<u16>,
    pub io_read_buffer: u16,
    pub io_write_data: Seq<u16>,
    pub io_irq: bool,
    pub regs: Seq<u16>,
    pub flags: Flags,
    pub ip: u16,
    pub ir: u16,
    pub mar: u16,
    pub mdr: u16,
    pub tmp: u16,
}

/// The register file after a write: in pair mode a write to a low or high
/// half writes both halves (low word to the low half, high word to the high
/// half); otherwise only the destination, with the low word.
pub open spec fn rf_write(
    regs: Seq<u16>,
    low: u16,
    high: u16,
    dst: GeneralPurposeRegister,
    enable: bool,
    pair: bool,
) -> Seq<u16> {
    Seq::new(
        8,
        |i: int|
            if enable && rf_target(dst, pair, i) {
                if pair && (i == 1 || i == 3 || i == 5) {
                    high
                } else {
                    low
                }
            } else {
                regs[i]
            },
    )
}

/// Whether a register write reaches register `i`.
pub open spec fn rf_target(dst: GeneralPurposeRegister, pair: bool, i: int) -> bool {
    if pair && (dst.index() == 0 || dst.index() == 1) {
        i == 0 || i == 1
    } else if pair && (dst.index() == 2 || dst.index() == 3) {
        i == 2 || i == 3
    } else if pair && (dst.index() == 4 || dst.index() == 5) {
        i == 4 || i == 5
    } else {
        i == dst.index()
    }
}

/// The memory accesses on which the data path stops: reading and writing at
/// once, reading the input port while no word is waiting, writing the input
/// port, reading the output port.
pub open spec fn mem_faults(s: DataPathView, read: bool, write: bool) -> bool {
    access_faults(s.mar, s.io_irq, read, write)
}

/// The memory accesses at `addr` on which the data path stops.
pub open spec fn access_faults(addr: u16, io_irq: bool, read: bool, write: bool) -> bool {
    ||| read && write
    ||| read && addr == IO_READ && !io_irq
    ||| write && addr == IO_READ
    ||| read && addr == IO_WRITE
}

/// The word a memory access returns.
pub open spec fn mem_out(s: DataPathView, read: bool, write: bool) -> u16 {
    access_out(s.mar, s.memory, s.io_read_buffer, read, write)
}

/// The word an access at `addr` returns.
pub open spec fn access_out(addr: u16, memory: Seq<u16>, buffer: u16, read: bool, write: bool) -> u16 {
    if read && !write {
        if addr == IO_READ {
            buffer
        } else {
            memory[addr as int]
        }
    } else {
        0
    }
}

/// The ticks on which the data path stops: a division by zero, an
/// instruction pointer incremented past the last word, a faulting memory
/// access.
pub open spec fn dp_faults(s: DataPathView, cs: ControlSignals) -> bool {
    let (left, right) = alu_inputs(s, cs);
    ||| cs.alu_operation == AluOperation::Div && right == 0
    ||| cs.ip_src == IpSrc::Increment && s.ip == 0xFFFF
    ||| cs.mar_src == MarSrc::IpInc && s.ip == 0xFFFF
    ||| mem_faults(s, cs.mem_read, cs.mem_write)
}

/// The two ALU inputs selected by the control signals.
pub open spec fn alu_inputs(s: DataPathView, cs: ControlSignals) -> (u16, u16) {
    let left = match cs.alu_src_a {
        AluSrcA::RegisterA => s.regs[cs.rf_read_a.index()],
        AluSrcA::Mdr => s.mdr,
        AluSrcA::Ip => s.ip,
    };
    let right = match cs.alu_src_b {
        AluSrcB::RegisterB => s.regs[cs.rf_read_b.index()],
        AluSrcB::Mdr => s.mdr,
        AluSrcB::Tmp => s.tmp,
    };
    (left, right)
}

/// The data path after one tick under the given control signals.
pub open spec fn dp_next(s: DataPathView, cs: ControlSignals) -> DataPathView {
    let (left, right) = alu_inputs(s, cs);
    let (lo, hi, f) = alu(cs.alu_operation, left, right, s.flags);
    let new_ip = match cs.ip_src {
        IpSrc::Increment => (s.ip + 1) as u16,
        IpSrc::AluOutput => lo,
    };
    let new_mar = match cs.mar_src {
        MarSrc::Ip => s.ip,
        MarSrc::IpInc => (s.ip + 1) as u16,
        MarSrc::AluOutput => lo,
        MarSrc::IoIrq => IO_IRQ_ADDR,
    };
    let read = cs.mem_read && !cs.mem_write;
    let write = cs.mem_write && !cs.mem_read;
    let out = mem_out(s, cs.mem_read, cs.mem_write);
    DataPathView {
        memory: if write && s.mar != IO_WRITE {
            s.memory.update(s.mar as int, lo)
        } else {
            s.memory
        },
        io_read_buffer: if read && s.mar == IO_READ {
            0
        } else {
            s.io_read_buffer
        },
        io_write_data: if write && s.mar == IO_WRITE {
            s.io_write_data.push(lo)
        } else {
            s.io_write_data
        },
        io_irq: if read && s.mar == IO_READ {
            false
        } else {
            s.io_irq
        },
        regs: rf_write(s.regs, lo, hi, cs.rf_write_dst, cs.rf_write_enable, cs.rf_write_pair_mode),
        flags: if cs.alu_flags_write_enable {
            f
        } else {
            s.flags
        },
        ip: if cs.ip_write_enable {
            new_ip
        } else {
            s.ip
        },
        ir: if cs.ir_write_enable {
            out
        } else {
            s.ir
        },
        mar: if cs.mar_write_enable {
            new_mar
        } else {
            s.mar
        },
        mdr: if cs.mdr_write_enable {
            out
        } else {
            s.mdr
        },
        tmp: if cs.tmp_write_enable {
            s.mdr
        } else {
            s.tmp
        },
    }
}

pub struct DataPath {
    memory: [u16; 65536],
    io_read_buffer: u16,
    io_write_data: Vec<u16>,
    io_irq: bool,
    // Registers
    register_file: [Register<u16>; 8],
    alu_state_flags: [Register<bool>; 4],
    instruction_pointer: Register<u16>,
    instruction_register: Register<u16>,
    // Memory registers
    mar_register: Register<u16>,
    mdr_register: Register<u16>,
    tmp_register: Register<u16>,
}

const ZF: usize = 0;
const NF: usize = 1;
const CF: usize = 2;
const OF: usize = 3;

impl View for DataPath {
    type V = DataPathView;

    closed spec fn view(&self) -> DataPathView {
        DataPathView {
            memory: self.memory@,
            io_read_buffer: self.io_read_buffer,
            io_write_data: self.io_write_data@,
            io_irq: self.io_irq,
            regs: Seq::new(8, |i: int| self.register_file[i].value()),
            flags: self.flags_view(),
            ip: self.instruction_pointer.value(),
            ir: self.instruction_register.value(),
            mar: self.mar_register.value(),
            mdr: self.mdr_register.value(),
            tmp: self.tmp_register.value(),
        }
    }
}

impl DataPath {
    pub closed spec fn flags_view(&self) -> Flags {
        Flags {
            zf: self.alu_state_flags[0].value(),
            nf: self.alu_state_flags[1].value(),
            cf: self.alu_state_flags[2].value(),
            of: self.alu_state_flags[3].value(),
        }
    }

    /// Between ticks every register is settled.
    pub closed spec fn wf(&self) -> bool {
        &&& forall|i: int| 0 <= i < 8 ==> #[trigger] self.register_file[i].settled()
        &&& forall|i: int| 0 <= i < 4 ==> #[trigger] self.alu_state_flags[i].settled()
        &&& self.instruction_pointer.settled()
        &&& self.instruction_register.settled()
        &&& self.mar_register.settled()
        &&& self.mdr_register.settled()
        &&& self.tmp_register.settled()
    }

    /// A data path over the given memory image, with every register zero,
    /// every flag clear and no input pending.
    pub fn new(memory: [u16; 65536]) -> (dp: Self)
        ensures
            dp.wf(),
            dp@.memory == memory@,
            dp@.io_read_buffer == 0,
            dp@.io_write_data == Seq::<u16>::empty(),
            !dp@.io_irq,
            dp@.regs == Seq::new(8, |i: int| 0u16),
            dp@.flags == (Flags { zf: false, nf: false, cf: false, of: false }),
            dp@.ip == 0 && dp@.ir == 0 && dp@.mar == 0 && dp@.mdr == 0 && dp@.tmp == 0,
    {
        let r: Register<u16> = Register::new();
        let b: Register<bool> = Register::new();
        let dp = DataPath {
            memory,
            io_read_buffer: 0,
            io_write_data: Vec::new(),
            io_irq: false,
            register_file: [r; 8],
            alu_state_flags: [b; 4],
            instruction_pointer: r,
            instruction_register: r,
            mar_register: r,
            mdr_register: r,
            tmp_register: r,
        };
        assert(dp@.regs =~= Seq::new(8, |i: int| 0u16));
        dp
    }
}


proof fn lemma_add_overflow(l: u16, r: u16, res: u16)
    ensures
        (((l ^ res) & (r ^ res) & 0x8000) != 0) == ((l >= 0x8000) == (r >= 0x8000) && (res
            >= 0x8000) != (l >= 0x8000)),
{
    assert((((l ^ res) & (r ^ res) & 0x8000) != 0) == ((l >= 0x8000) == (r >= 0x8000) && (res
        >= 0x8000) != (l >= 0x8000))) by (bit_vector);
}

proof fn lemma_sub_overflow(l: u16, r: u16, res: u16)
    ensures
        (((l ^ r) & (l ^ res) & 0x8000) != 0) == ((l >= 0x8000) != (r >= 0x8000) && (res
            >= 0x8000) != (l >= 0x8000)),
{
    assert((((l ^ r) & (l ^ res) & 0x8000) != 0) == ((l >= 0x8000) != (r >= 0x8000) && (res
        >= 0x8000) != (l >= 0x8000))) by (bit_vector);
}

proof fn lemma_sign_bit(a: u16, b: u16)
    ensures
        ((a & 0x8000) != (b & 0x8000)) == ((a >= 0x8000) != (b >= 0x8000)),
{
    assert(((a & 0x8000) != (b & 0x8000)) == ((a >= 0x8000) != (b >= 0x8000))) by (bit_vector);
}

impl DataPath {
    /// The ALU as a combinational function of its inputs and the flags.
    fn alu_eval(operation: AluOperation, left_in: u16, right_in: u16, f: Flags) -> (res: (
        u16,
        u16,
        Flags,
    ))
        requires
            !(operation == AluOperation::Div && right_in == 0),
        ensures
            res == alu(operation, left_in, right_in, f),
    {
        reveal(alu);
        match operation {
            AluOperation::Add => Self::alu_add(operation, left_in, right_in, f),
            AluOperation::AddC => Self::alu_add(operation, left_in, right_in, f),
            AluOperation::Sub => Self::alu_sub(operation, left_in, right_in, f),
            AluOperation::SubC => Self::alu_sub(operation, left_in, right_in, f),
            AluOperation::Cmp => Self::alu_sub(operation, left_in, right_in, f),
            AluOperation::Mul => Self::alu_muldiv(operation, left_in, right_in, f),
            AluOperation::Div => Self::alu_muldiv(operation, left_in, right_in, f),
            AluOperation::Inc => Self::alu_unary(operation, left_in, right_in, f),
            AluOperation::Dec => Self::alu_unary(operation, left_in, right_in, f),
            AluOperation::Neg => Self::alu_unary(operation, left_in, right_in, f),
            AluOperation::Not => Self::alu_unary(operation, left_in, right_in, f),
            AluOperation::And => Self::alu_logic(operation, left_in, right_in, f),
            AluOperation::Or => Self::alu_logic(operation, left_in, right_in, f),
            AluOperation::Xor => Self::alu_logic(operation, left_in, right_in, f),
            AluOperation::Test => Self::alu_logic(operation, left_in, right_in, f),
            AluOperation::PassLeft => Self::alu_logic(operation, left_in, right_in, f),
            AluOperation::PassRight => Self::alu_logic(operation, left_in, right_in, f),
            AluOperation::ShiftR => Self::alu_shift(operation, left_in, right_in, f),
            AluOperation::ShiftL => Self::alu_shift(operation, left_in, right_in, f),
            AluOperation::PassFlags => Self::alu_flags(operation, left_in, right_in, f),
            AluOperation::LoadFlagsLeft => Self::alu_flags(operation, left_in, right_in, f),
        }
    }

    fn alu_add(operation: AluOperation, left_in: u16, right_in: u16, f: Flags) -> (res: (u16, u16, Flags))
        requires
            operation == AluOperation::Add || operation == AluOperation::AddC,
        ensures
            res == alu(operation, left_in, right_in, f),
    {
        reveal(alu);
        match operation {
            AluOperation::Add => {
                let full: u32 = left_in as u32 + right_in as u32;
                let res = (full % 0x10000) as u16;
                let overflow = full > 0xFFFF;
                proof {
                    lemma_add_overflow(left_in, right_in, res);
                }
                let of = ((left_in ^ res) & (right_in ^ res) & 0x8000) != 0;
                (res, 0, Flags { zf: res == 0, nf: res >= 0x8000, cf: overflow, of })
            },
            AluOperation::AddC => {
                let carry_in: u32 = if f.cf {
                    1
                } else {
                    0
                };
                let full1: u32 = left_in as u32 + right_in as u32;
                let res1 = (full1 % 0x10000) as u16;
                let o1 = full1 > 0xFFFF;
                let full2: u32 = res1 as u32 + carry_in;
                let res = (full2 % 0x10000) as u16;
                let o2 = full2 > 0xFFFF;
                proof {
                    lemma_add_overflow(left_in, right_in, res);
                }
                let of = ((left_in ^ res) & (right_in ^ res) & 0x8000) != 0;
                (res, 0, Flags { zf: res == 0, nf: res >= 0x8000, cf: o1 || o2, of })
            },
            _ => (0, 0, f),
        }
    }

    fn alu_sub(operation: AluOperation, left_in: u16, right_in: u16, f: Flags) -> (res: (u16, u16, Flags))
        requires
            operation == AluOperation::Sub || operation == AluOperation::SubC || operation == AluOperation::Cmp,
        ensures
            res == alu(operation, left_in, right_in, f),
    {
        reveal(alu);
        match operation {
            AluOperation::Sub => {
                let borrow = left_in < right_in;
                let res = if borrow {
                    (0x10000u32 + left_in as u32 - right_in as u32) as u16
                } else {
                    left_in - right_in
                };
                proof {
                    lemma_sub_overflow(left_in, right_in, res);
                }
                let of = ((left_in ^ right_in) & (left_in ^ res) & 0x8000) != 0;
                (res, 0, Flags { zf: res == 0, nf: res >= 0x8000, cf: borrow, of })
            },
            AluOperation::SubC => {
                let borrow_in: u16 = if f.cf {
                    1
                } else {
                    0
                };
                let b1 = left_in < right_in;
                let res1 = if b1 {
                    (0x10000u32 + left_in as u32 - right_in as u32) as u16
                } else {
                    left_in - right_in
                };
                let b2 = res1 < borrow_in;
                let res = if b2 {
                    (0x10000u32 + res1 as u32 - borrow_in as u32) as u16
                } else {
                    res1 - borrow_in
                };
                proof {
                    lemma_sub_overflow(left_in, right_in, res);
                }
                let of = ((left_in ^ right_in) & (left_in ^ res) & 0x8000) != 0;
                (res, 0, Flags { zf: res == 0, nf: res >= 0x8000, cf: b1 || b2, of })
            },
            AluOperation::Cmp => {
                let borrow = left_in < right_in;
                let res = if borrow {
                    (0x10000u32 + left_in as u32 - right_in as u32) as u16
                } else {
                    left_in - right_in
                };
                proof {
                    lemma_sub_overflow(left_in, right_in, res);
                }
                let of = ((left_in ^ right_in) & (left_in ^ res) & 0x8000) != 0;
                (0, 0, Flags { zf: res == 0, nf: res >= 0x8000, cf: borrow, of })
            },
            _ => (0, 0, f),
        }
    }

    fn alu_muldiv(operation: AluOperation, left_in: u16, right_in: u16, f: Flags) -> (res: (u16, u16, Flags))
        requires
            operation == AluOperation::Mul || operation == AluOperation::Div,
            !(operation == AluOperation::Div && right_in == 0),
        ensures
            res == alu(operation, left_in, right_in, f),
    {
        reveal(alu);
        match operation {
            AluOperation::Mul => {
                assert(left_in as u32 * right_in as u32 <= 0xFFFF * 0xFFFF) by (nonlinear_arith);
                let full_res = (left_in as u32) * (right_in as u32);
                let low = (full_res % 0x10000) as u16;
                let high = (full_res / 0x10000) as u16;
                let is_overflow = high != 0;
                (low, high, Flags { zf: low == 0, nf: low >= 0x8000, cf: is_overflow, of: is_overflow })
            },
            AluOperation::Div => {
                let low = left_in / right_in;
                let high = left_in % right_in;
                (low, high, Flags { zf: low == 0, nf: low >= 0x8000, cf: f.cf, of: f.of })
            },
            _ => (0, 0, f),
        }
    }

    fn alu_unary(operation: AluOperation, left_in: u16, right_in: u16, f: Flags) -> (res: (u16, u16, Flags))
        requires
            operation == AluOperation::Inc || operation == AluOperation::Dec || operation == AluOperation::Neg || operation == AluOperation::Not,
            !(operation == AluOperation::Div && right_in == 0),
        ensures
            res == alu(operation, left_in, right_in, f),
    {
        reveal(alu);
        match operation {
            AluOperation::Inc => {
                let res = if left_in == 0xFFFF {
                    0
                } else {
                    left_in + 1
                };
                (res, 0, Flags { zf: res == 0, nf: res >= 0x8000, cf: f.cf, of: left_in == 0x7FFF })
            },
            AluOperation::Dec => {
                let res = if left_in == 0 {
                    0xFFFF
                } else {
                    left_in - 1
                };
                (res, 0, Flags { zf: res == 0, nf: res >= 0x8000, cf: f.cf, of: left_in == 0x8000 })
            },
            AluOperation::Neg => {
                let res = if left_in == 0 {
                    0
                } else {
                    (0x10000u32 - left_in as u32) as u16
                };
                (res, 0, Flags { zf: res == 0, nf: res >= 0x8000, cf: left_in != 0, of: left_in == 0x8000 })
            },
            AluOperation::Not => {
                let res = !left_in;
                (res, 0, Flags { zf: res == 0, nf: res >= 0x8000, cf: false, of: false })
            },
            _ => (0, 0, f),
        }
    }

    fn alu_logic(operation: AluOperation, left_in: u16, right_in: u16, f: Flags) -> (res: (u16, u16, Flags))
        requires
            operation == AluOperation::And || operation == AluOperation::Or || operation == AluOperation::Xor || operation == AluOperation::Test || operation == AluOperation::PassLeft || operation == AluOperation::PassRight,
            !(operation == AluOperation::Div && right_in == 0),
        ensures
            res == alu(operation, left_in, right_in, f),
    {
        reveal(alu);
        match operation {
            AluOperation::PassLeft => (left_in, 0, f),
            AluOperation::PassRight => (right_in, 0, f),
            AluOperation::And => {
                let res = left_in & right_in;
                (res, 0, Flags { zf: res == 0, nf: res >= 0x8000, cf: false, of: false })
            },
            AluOperation::Or => {
                let res = left_in | right_in;
                (res, 0, Flags { zf: res == 0, nf: res >= 0x8000, cf: false, of: false })
            },
            AluOperation::Xor => {
                let res = left_in ^ right_in;
                (res, 0, Flags { zf: res == 0, nf: res >= 0x8000, cf: false, of: false })
            },
            AluOperation::Test => {
                let res = left_in & right_in;
                (0, 0, Flags { zf: res == 0, nf: res >= 0x8000, cf: false, of: false })
            },
            _ => (0, 0, f),
        }
    }

    fn alu_shift(operation: AluOperation, left_in: u16, right_in: u16, f: Flags) -> (res: (u16, u16, Flags))
        requires
            operation == AluOperation::ShiftR || operation == AluOperation::ShiftL,
            !(operation == AluOperation::Div && right_in == 0),
        ensures
            res == alu(operation, left_in, right_in, f),
    {
        reveal(alu);
        match operation {
            AluOperation::ShiftR => {
                let shift = right_in % 16;
                if shift == 0 {
                    (left_in, 0, f)
                } else {
                    let last_out_bit = ((left_in >> (shift - 1)) & 1) == 1;
                    let res = left_in >> shift;
                    proof {
                        lemma_sign_bit(left_in, res);
                    }
                    let of = (left_in & 0x8000) != (res & 0x8000);
                    (res, 0, Flags { zf: res == 0, nf: res >= 0x8000, cf: last_out_bit, of })
                }
            },
            AluOperation::ShiftL => {
                let shift = right_in % 16;
                if shift == 0 {
                    (left_in, 0, f)
                } else {
                    let last_out_bit = ((left_in >> (16 - shift)) & 1) == 1;
                    let res = left_in << shift;
                    proof {
                        lemma_sign_bit(left_in, res);
                    }
                    let of = (left_in & 0x8000) != (res & 0x8000);
                    (res, 0, Flags { zf: res == 0, nf: res >= 0x8000, cf: last_out_bit, of })
                }
            },
            _ => (0, 0, f),
        }
    }

    fn alu_flags(operation: AluOperation, left_in: u16, right_in: u16, f: Flags) -> (res: (u16, u16, Flags))
        requires
            operation == AluOperation::PassFlags || operation == AluOperation::LoadFlagsLeft,
            !(operation == AluOperation::Div && right_in == 0),
        ensures
            res == alu(operation, left_in, right_in, f),
    {
        reveal(alu);
        match operation {
            AluOperation::PassFlags => {
                let zf: u16 = if f.zf {
                    1
                } else {
                    0
                };
                let nf: u16 = if f.nf {
                    1
                } else {
                    0
                };
                let cf: u16 = if f.cf {
                    1
                } else {
                    0
                };
                let of: u16 = if f.of {
                    1
                } else {
                    0
                };
                assert(zf <= 1 && nf <= 1 && cf <= 1 && of <= 1 ==> (zf << 3) | (nf << 2) | (cf
                    << 1) | of == zf * 8 + nf * 4 + cf * 2 + of) by (bit_vector);
                let val = (zf << 3) | (nf << 2) | (cf << 1) | of;
                (val, 0, f)
            },
            AluOperation::LoadFlagsLeft => {
                assert(left_in >> 3 == left_in / 8 && (left_in >> 2) & 1 == (left_in / 4) % 2 && (
                left_in >> 1) & 1 == (left_in / 2) % 2 && left_in & 1 == left_in % 2)
                    by (bit_vector);
                let nf = Flags {
                    zf: left_in >> 3 == 1,
                    nf: (left_in >> 2) & 0b1 == 1,
                    cf: (left_in >> 1) & 0b1 == 1,
                    of: left_in & 0b1 == 1,
                };
                (0, 0, nf)
            },
            _ => (0, 0, f),
        }
    }
}

impl DataPath {
    /// Hands a word to the input port and raises the input interrupt line.
    pub fn set_io_read_buffer(&mut self, value: u16)
        requires
            old(self).wf(),
        ensures
            final(self).wf(),
            final(self)@ == (DataPathView { io_read_buffer: value, io_irq: true, ..old(self)@ }),
    {
        self.io_read_buffer = value;
        self.io_irq = true;
    }

    /// The words sent to the output port so far, in order.
    pub fn get_io_write_data(&self) -> (r: Vec<u16>)
        ensures
            r@ == self@.io_write_data,
    {
        self.io_write_data.clone()
    }

    pub fn get_memory(&self) -> (r: [u16; 65536])
        ensures
            r@ == self@.memory,
    {
        self.memory
    }

    // =====> CU Wires <======
    pub fn get_instruction_register(&self) -> (r: u16)
        ensures
            r == self@.ir,
    {
        self.instruction_register.get()
    }

    pub fn get_zero_flag(&self) -> (r: bool)
        ensures
            r == self@.flags.zf,
    {
        self.alu_state_flags[ZF].get()
    }

    pub fn get_negative_flag(&self) -> (r: bool)
        ensures
            r == self@.flags.nf,
    {
        self.alu_state_flags[NF].get()
    }

    pub fn get_carry_flag(&self) -> (r: bool)
        ensures
            r == self@.flags.cf,
    {
        self.alu_state_flags[CF].get()
    }

    pub fn get_overflow_flag(&self) -> (r: bool)
        ensures
            r == self@.flags.of,
    {
        self.alu_state_flags[OF].get()
    }

    pub fn get_io_irq(&self) -> (r: bool)
        ensures
            r == self@.io_irq,
    {
        self.io_irq
    }

    // ======> Inner functions <======
    fn register_file_get_register(&self, register: GeneralPurposeRegister) -> (r: u16)
        ensures
            r == self.register_file[register.index()].value(),
    {
        self.register_file[register.to_index()].get()
    }

    /// Offers `low` to every low half, SP and BP, and `high` (pair mode) or
    /// `low` to the high halves, and enables writing for the destination
    /// (both halves of its pair in pair mode).
    fn register_file_write(
        &mut self,
        low: u16,
        high: u16,
        register: GeneralPurposeRegister,
        is_write_enabled: bool,
        is_pair_mode: bool,
    )
        ensures
            forall|i: int|
                0 <= i < 8 ==> #[trigger] final(self).register_file[i].value() == old(
                    self,
                ).register_file[i].value(),
            forall|i: int|
                0 <= i < 8 ==> #[trigger] final(self).register_file[i].latched() == (if is_pair_mode
                    && (i == 1 || i == 3 || i == 5) {
                    high
                } else {
                    low
                }),
            forall|i: int|
                0 <= i < 8 ==> #[trigger] final(self).register_file[i].write_enabled() == (
                if rf_target(register, is_pair_mode, i) {
                    is_write_enabled
                } else {
                    old(self).register_file[i].write_enabled()
                }),
            final(self).memory == old(self).memory,
            final(self).io_read_buffer == old(self).io_read_buffer,
            final(self).io_write_data == old(self).io_write_data,
            final(self).io_irq == old(self).io_irq,
            final(self).alu_state_flags == old(self).alu_state_flags,
            final(self).instruction_pointer == old(self).instruction_pointer,
            final(self).instruction_register == old(self).instruction_register,
            final(self).mar_register == old(self).mar_register,
            final(self).mdr_register == old(self).mdr_register,
            final(self).tmp_register == old(self).tmp_register,
    {
        let high_reg_to_latch = if is_pair_mode {
            high
        } else {
            low
        };
        let mut i: usize = 0;
        while i < 8
            invariant
                0 <= i <= 8,
                high_reg_to_latch == (if is_pair_mode { high } else { low }),
                forall|j: int|
                    0 <= j < 8 ==> #[trigger] self.register_file[j].value() == old(
                        self,
                    ).register_file[j].value(),
                forall|j: int|
                    0 <= j < 8 ==> #[trigger] self.register_file[j].write_enabled() == old(
                        self,
                    ).register_file[j].write_enabled(),
                forall|j: int|
                    0 <= j < i ==> #[trigger] self.register_file[j].latched() == (if j == 1 || j
                        == 3 || j == 5 {
                        high_reg_to_latch
                    } else {
                        low
                    }),
                forall|j: int|
                    i <= j < 8 ==> #[trigger] self.register_file[j] == old(self).register_file[j],
                self.memory == old(self).memory,
                self.io_read_buffer == old(self).io_read_buffer,
                self.io_write_data == old(self).io_write_data,
                self.io_irq == old(self).io_irq,
                self.alu_state_flags == old(self).alu_state_flags,
                self.instruction_pointer == old(self).instruction_pointer,
                self.instruction_register == old(self).instruction_register,
                self.mar_register == old(self).mar_register,
                self.mdr_register == old(self).mdr_register,
                self.tmp_register == old(self).tmp_register,
            decreases 8 - i,
        {
            let mut reg = self.register_file[i];
            if i == 1 || i == 3 || i == 5 {
                reg.set(high_reg_to_latch);
            } else {
                reg.set(low);
            }
            self.register_file[i] = reg;
            i = i + 1;
        }
        // Register write decoder
        let (first, second): (usize, Option<usize>) = match (is_pair_mode, register) {
            (true, GeneralPurposeRegister::AL) | (true, GeneralPurposeRegister::AH) => (0, Some(1)),
            (true, GeneralPurposeRegister::BL) | (true, GeneralPurposeRegister::BH) => (2, Some(3)),
            (true, GeneralPurposeRegister::CL) | (true, GeneralPurposeRegister::CH) => (4, Some(5)),
            (_, reg) => (reg.to_index(), None),
        };
        assert(forall|i: int|
            0 <= i < 8 ==> (rf_target(register, is_pair_mode, i) <==> (i == first || (second
                matches Some(k) && i == k))));
        let ghost mid = self.register_file;
        let mut r0 = self.register_file[first];
        r0.set_write(is_write_enabled);
        self.register_file[first] = r0;
        let ghost after_first = self.register_file;
        assert(after_first[first as int].write_enabled() == is_write_enabled);
        if let Some(k) = second {
            assert(k != first);
            let mut r1 = self.register_file[k];
            r1.set_write(is_write_enabled);
            self.register_file[k] = r1;
            assert(self.register_file[first as int] == after_first[first as int]);
        }
        assert(self.register_file[first as int].write_enabled() == is_write_enabled);
        assert forall|i: int| 0 <= i < 8 implies #[trigger] self.register_file[i].write_enabled()
            == (if rf_target(register, is_pair_mode, i) {
            is_write_enabled
        } else {
            old(self).register_file[i].write_enabled()
        }) by {
            assert(mid[i].write_enabled() == old(self).register_file[i].write_enabled());
            if i == first {
            } else if second matches Some(k) && i == k {
            } else {
                assert(self.register_file[i] == mid[i]);
            }
        }
    }

    /// Runs the ALU and offers its flags to the flag registers.
    fn alu_compute(&mut self, operation: AluOperation, left_in: u16, right_in: u16) -> (res: (
        u16,
        u16,
    ))
        requires
            !(operation == AluOperation::Div && right_in == 0),
        ensures
            ({
                let (lo, hi, f) = alu(operation, left_in, right_in, old(self).flags_view());
                &&& res == (lo, hi)
                &&& final(self).alu_state_flags[0].latched() == f.zf
                &&& final(self).alu_state_flags[1].latched() == f.nf
                &&& final(self).alu_state_flags[2].latched() == f.cf
                &&& final(self).alu_state_flags[3].latched() == f.of
            }),
            forall|i: int|
                0 <= i < 4 ==> {
                    &&& #[trigger] final(self).alu_state_flags[i].value() == old(
                        self,
                    ).alu_state_flags[i].value()
                    &&& final(self).alu_state_flags[i].write_enabled() == old(
                        self,
                    ).alu_state_flags[i].write_enabled()
                },
            final(self).memory == old(self).memory,
            final(self).io_read_buffer == old(self).io_read_buffer,
            final(self).io_write_data == old(self).io_write_data,
            final(self).io_irq == old(self).io_irq,
            final(self).register_file == old(self).register_file,
            final(self).instruction_pointer == old(self).instruction_pointer,
            final(self).instruction_register == old(self).instruction_register,
            final(self).mar_register == old(self).mar_register,
            final(self).mdr_register == old(self).mdr_register,
            final(self).tmp_register == old(self).tmp_register,
    {
        let f = Flags {
            zf: self.alu_state_flags[ZF].get(),
            nf: self.alu_state_flags[NF].get(),
            cf: self.alu_state_flags[CF].get(),
            of: self.alu_state_flags[OF].get(),
        };
        let (lo, hi, nf) = Self::alu_eval(operation, left_in, right_in, f);
        let mut z = self.alu_state_flags[ZF];
        z.set(nf.zf);
        self.alu_state_flags[ZF] = z;
        let mut n = self.alu_state_flags[NF];
        n.set(nf.nf);
        self.alu_state_flags[NF] = n;
        let mut c = self.alu_state_flags[CF];
        c.set(nf.cf);
        self.alu_state_flags[CF] = c;
        let mut o = self.alu_state_flags[OF];
        o.set(nf.of);
        self.alu_state_flags[OF] = o;
        (lo, hi)
    }

    /// One memory access at `addr`: reading or writing memory, taking the
    /// waiting input word, or sending a word to the output port.
    fn memory_access(&mut self, addr: u16, write_data: u16, is_read: bool, is_write: bool) -> (r:
        u16)
        requires
            !access_faults(addr, old(self).io_irq, is_read, is_write),
        ensures
            r == access_out(addr, old(self).memory@, old(self).io_read_buffer, is_read, is_write),
            final(self).memory@ == (if is_write && !is_read && addr != IO_WRITE {
                old(self).memory@.update(addr as int, write_data)
            } else {
                old(self).memory@
            }),
            final(self).io_read_buffer == (if is_read && !is_write && addr == IO_READ {
                0
            } else {
                old(self).io_read_buffer
            }),
            final(self).io_irq == (if is_read && !is_write && addr == IO_READ {
                false
            } else {
                old(self).io_irq
            }),
            final(self).io_write_data@ == (if is_write && !is_read && addr == IO_WRITE {
                old(self).io_write_data@.push(write_data)
            } else {
                old(self).io_write_data@
            }),
            final(self).register_file == old(self).register_file,
            final(self).alu_state_flags == old(self).alu_state_flags,
            final(self).instruction_pointer == old(self).instruction_pointer,
            final(self).instruction_register == old(self).instruction_register,
            final(self).mar_register == old(self).mar_register,
            final(self).mdr_register == old(self).mdr_register,
            final(self).tmp_register == old(self).tmp_register,
    {
        if is_read && !is_write {
            if addr == IO_READ {
                let data = self.io_read_buffer;
                self.io_read_buffer = 0;
                self.io_irq = false;
                data
            } else {
                self.memory[addr as usize]
            }
        } else if is_write && !is_read {
            if addr == IO_WRITE {
                self.io_write_data.push(write_data);
                0
            } else {
                self.memory[addr as usize] = write_data;
                0
            }
        } else {
            // Idle
            0
        }
    }
}

impl DataPath {
    /// One clock tick under the given control signals: every multiplexer,
    /// the ALU and the memory act on the values held before the tick, and
    /// then every register whose writing is enabled stores its new value.
    #[verifier::spinoff_prover]
    #[verifier::rlimit(60)]
    pub fn tick(&mut self, cu_signals: ControlSignals)
        requires
            old(self).wf(),
            !dp_faults(old(self)@, cu_signals),
        ensures
            final(self).wf(),
            final(self)@ == dp_next(old(self)@, cu_signals),
    {
        let ghost s0 = *self;
        let gpr_read_a = self.register_file_get_register(cu_signals.rf_read_a);
        let gpr_read_b = self.register_file_get_register(cu_signals.rf_read_b);

        // MUX LEFT
        let left_in = match cu_signals.alu_src_a {
            AluSrcA::RegisterA => gpr_read_a,
            AluSrcA::Mdr => self.mdr_register.get(),
            AluSrcA::Ip => self.instruction_pointer.get(),
        };
        // MUX RIGHT
        let right_in = match cu_signals.alu_src_b {
            AluSrcB::RegisterB => gpr_read_b,
            AluSrcB::Mdr => self.mdr_register.get(),
            AluSrcB::Tmp => self.tmp_register.get(),
        };
        proof {
            lemma_alu_inputs(s0, cu_signals, left_in, right_in);
        }

        let (alu_out_low, alu_out_high) = self.alu_compute(
            cu_signals.alu_operation,
            left_in,
            right_in,
        );
        let ghost s1 = *self;

        self.register_file_write(
            alu_out_low,
            alu_out_high,
            cu_signals.rf_write_dst,
            cu_signals.rf_write_enable,
            cu_signals.rf_write_pair_mode,
        );
        let ghost s2 = *self;

        // MUX IP
        let new_ip = match cu_signals.ip_src {
            IpSrc::Increment => self.instruction_pointer.get() + 1,
            IpSrc::AluOutput => alu_out_low,
        };
        self.instruction_pointer.set(new_ip);
        self.instruction_pointer.set_write(cu_signals.ip_write_enable);

        // MUX MAR
        let new_mar = match cu_signals.mar_src {
            MarSrc::Ip => self.instruction_pointer.get(),
            MarSrc::IpInc => self.instruction_pointer.get() + 1,
            MarSrc::AluOutput => alu_out_low,
            MarSrc::IoIrq => IO_IRQ_ADDR,
        };
        self.mar_register.set(new_mar);
        self.mar_register.set_write(cu_signals.mar_write_enable);

        // Latch TMP
        let mdr_value = self.mdr_register.get();
        self.tmp_register.set(mdr_value);
        self.tmp_register.set_write(cu_signals.tmp_write_enable);

        // Memory
        let addr = self.mar_register.get();
        let mem_out = self.memory_access(
            addr,
            alu_out_low,
            cu_signals.mem_read,
            cu_signals.mem_write,
        );

        // MDR
        self.mdr_register.set(mem_out);
        self.mdr_register.set_write(cu_signals.mdr_write_enable);

        // IR
        self.instruction_register.set(mem_out);
        self.instruction_register.set_write(cu_signals.ir_write_enable);
        let ghost s3 = *self;

        // Tick registers
        self.clock_registers(cu_signals.alu_flags_write_enable);
        proof {
            lemma_tick_result(s0, s1, s2, s3, *self, cu_signals, left_in, right_in, alu_out_low,
                alu_out_high, new_ip, new_mar, mem_out);
        }
    }
}

proof fn lemma_alu_inputs(s: DataPath, cs: ControlSignals, left: u16, right: u16)
    requires
        left == (match cs.alu_src_a {
            AluSrcA::RegisterA => s.register_file[cs.rf_read_a.index()].value(),
            AluSrcA::Mdr => s.mdr_register.value(),
            AluSrcA::Ip => s.instruction_pointer.value(),
        }),
        right == (match cs.alu_src_b {
            AluSrcB::RegisterB => s.register_file[cs.rf_read_b.index()].value(),
            AluSrcB::Mdr => s.mdr_register.value(),
            AluSrcB::Tmp => s.tmp_register.value(),
        }),
    ensures
        (left, right) == alu_inputs(s@, cs),
{
}

/// Ties the register-level effects of the steps of `tick` to `dp_next`.
proof fn lemma_tick_result(
    s0: DataPath,
    s1: DataPath,
    s2: DataPath,
    s3: DataPath,
    s4: DataPath,
    cs: ControlSignals,
    left: u16,
    right: u16,
    lo: u16,
    hi: u16,
    new_ip: u16,
    new_mar: u16,
    mem_out: u16,
)
    requires
        s0.wf(),
        !dp_faults(s0@, cs),
        (left, right) == alu_inputs(s0@, cs),
        // the ALU
        ({
            let (l, h, f) = alu(cs.alu_operation, left, right, s0.flags_view());
            &&& lo == l && hi == h
            &&& s1.alu_state_flags[0].latched() == f.zf
            &&& s1.alu_state_flags[1].latched() == f.nf
            &&& s1.alu_state_flags[2].latched() == f.cf
            &&& s1.alu_state_flags[3].latched() == f.of
        }),
        forall|i: int|
            0 <= i < 4 ==> #[trigger] s1.alu_state_flags[i].value() == s0.alu_state_flags[i].value(),
        s1.register_file == s0.register_file,
        s1.memory == s0.memory,
        s1.io_read_buffer == s0.io_read_buffer,
        s1.io_write_data == s0.io_write_data,
        s1.io_irq == s0.io_irq,
        s1.instruction_pointer == s0.instruction_pointer,
        s1.instruction_register == s0.instruction_register,
        s1.mar_register == s0.mar_register,
        s1.mdr_register == s0.mdr_register,
        s1.tmp_register == s0.tmp_register,
        // the register file
        forall|i: int|
            0 <= i < 8 ==> #[trigger] s2.register_file[i].value() == s1.register_file[i].value(),
        forall|i: int|
            0 <= i < 8 ==> #[trigger] s2.register_file[i].latched() == (if cs.rf_write_pair_mode && (
            i == 1 || i == 3 || i == 5) {
                hi
            } else {
                lo
            }),
        forall|i: int|
            0 <= i < 8 ==> #[trigger] s2.register_file[i].write_enabled() == (if rf_target(
                cs.rf_write_dst,
                cs.rf_write_pair_mode,
                i,
            ) {
                cs.rf_write_enable
            } else {
                s1.register_file[i].write_enabled()
            }),
        s2.alu_state_flags == s1.alu_state_flags,
        s2.memory == s1.memory,
        s2.io_read_buffer == s1.io_read_buffer,
        s2.io_write_data == s1.io_write_data,
        s2.io_irq == s1.io_irq,
        s2.instruction_pointer == s1.instruction_pointer,
        s2.instruction_register == s1.instruction_register,
        s2.mar_register == s1.mar_register,
        s2.mdr_register == s1.mdr_register,
        s2.tmp_register == s1.tmp_register,
        // the multiplexers and the memory
        new_ip == (match cs.ip_src {
            IpSrc::Increment => (s0.instruction_pointer.value() + 1) as u16,
            IpSrc::AluOutput => lo,
        }),
        new_mar == (match cs.mar_src {
            MarSrc::Ip => s0.instruction_pointer.value(),
            MarSrc::IpInc => (s0.instruction_pointer.value() + 1) as u16,
            MarSrc::AluOutput => lo,
            MarSrc::IoIrq => IO_IRQ_ADDR,
        }),
        mem_out == access_out(
            s0.mar_register.value(),
            s0.memory@,
            s0.io_read_buffer,
            cs.mem_read,
            cs.mem_write,
        ),
        s3.register_file == s2.register_file,
        s3.alu_state_flags == s2.alu_state_flags,
        s3.instruction_pointer.value() == s2.instruction_pointer.value(),
        s3.instruction_pointer.latched() == new_ip,
        s3.instruction_pointer.write_enabled() == cs.ip_write_enable,
        s3.mar_register.value() == s2.mar_register.value(),
        s3.mar_register.latched() == new_mar,
        s3.mar_register.write_enabled() == cs.mar_write_enable,
        s3.tmp_register.value() == s2.tmp_register.value(),
        s3.tmp_register.latched() == s2.mdr_register.value(),
        s3.tmp_register.write_enabled() == cs.tmp_write_enable,
        s3.mdr_register.value() == s2.mdr_register.value(),
        s3.mdr_register.latched() == mem_out,
        s3.mdr_register.write_enabled() == cs.mdr_write_enable,
        s3.instruction_register.value() == s2.instruction_register.value(),
        s3.instruction_register.latched() == mem_out,
        s3.instruction_register.write_enabled() == cs.ir_write_enable,
        s3.memory@ == (if cs.mem_write && !cs.mem_read && s2.mar_register.value() != IO_WRITE {
            s2.memory@.update(s2.mar_register.value() as int, lo)
        } else {
            s2.memory@
        }),
        s3.io_read_buffer == (if cs.mem_read && !cs.mem_write && s2.mar_register.value()
            == IO_READ {
            0
        } else {
            s2.io_read_buffer
        }),
        s3.io_irq == (if cs.mem_read && !cs.mem_write && s2.mar_register.value() == IO_READ {
            false
        } else {
            s2.io_irq
        }),
        s3.io_write_data@ == (if cs.mem_write && !cs.mem_read && s2.mar_register.value()
            == IO_WRITE {
            s2.io_write_data@.push(lo)
        } else {
            s2.io_write_data@
        }),
        // the clock edge
        forall|j: int|
            0 <= j < 8 ==> #[trigger] s4.register_file[j].value() == (
            if s3.register_file[j].write_enabled() {
                s3.register_file[j].latched()
            } else {
                s3.register_file[j].value()
            }),
        forall|j: int| 0 <= j < 8 ==> #[trigger] s4.register_file[j].settled(),
        forall|j: int|
            0 <= j < 4 ==> #[trigger] s4.alu_state_flags[j].value() == (
            if cs.alu_flags_write_enable {
                s3.alu_state_flags[j].latched()
            } else {
                s3.alu_state_flags[j].value()
            }),
        forall|j: int| 0 <= j < 4 ==> #[trigger] s4.alu_state_flags[j].settled(),
        s4.instruction_pointer.value() == (if s3.instruction_pointer.write_enabled() {
            s3.instruction_pointer.latched()
        } else {
            s3.instruction_pointer.value()
        }),
        s4.instruction_register.value() == (if s3.instruction_register.write_enabled() {
            s3.instruction_register.latched()
        } else {
            s3.instruction_register.value()
        }),
        s4.mar_register.value() == (if s3.mar_register.write_enabled() {
            s3.mar_register.latched()
        } else {
            s3.mar_register.value()
        }),
        s4.mdr_register.value() == (if s3.mdr_register.write_enabled() {
            s3.mdr_register.latched()
        } else {
            s3.mdr_register.value()
        }),
        s4.tmp_register.value() == (if s3.tmp_register.write_enabled() {
            s3.tmp_register.latched()
        } else {
            s3.tmp_register.value()
        }),
        s4.instruction_pointer.settled(),
        s4.instruction_register.settled(),
        s4.mar_register.settled(),
        s4.mdr_register.settled(),
        s4.tmp_register.settled(),
        s4.memory == s3.memory,
        s4.io_read_buffer == s3.io_read_buffer,
        s4.io_write_data == s3.io_write_data,
        s4.io_irq == s3.io_irq,
    ensures
        s4.wf(),
        s4@ == dp_next(s0@, cs),
{
    let t = dp_next(s0@, cs);
    assert forall|j: int| 0 <= j < 8 implies s4@.regs[j] == t.regs[j] by {
        assert(s0.register_file[j].settled());
    }
    assert(s4@.regs =~= t.regs);
    assert(s4@.flags == t.flags) by {
        assert(s0.alu_state_flags[0].settled());
        assert(s0.alu_state_flags[1].settled());
        assert(s0.alu_state_flags[2].settled());
        assert(s0.alu_state_flags[3].settled());
        assert(s4.alu_state_flags[0].value() == s4@.flags.zf);
        assert(s4.alu_state_flags[1].value() == s4@.flags.nf);
        assert(s4.alu_state_flags[2].value() == s4@.flags.cf);
        assert(s4.alu_state_flags[3].value() == s4@.flags.of);
    }
    assert(s4@.memory =~= t.memory);
    assert(s4@.io_write_data =~= t.io_write_data);
}

impl DataPath {
    /// The clock edge: every register stores its offered value if its
    /// writing is enabled; the flags store theirs if flag writing is enabled.
    fn clock_registers(&mut self, alu_flags_write_enable: bool)
        ensures
            forall|j: int|
                0 <= j < 8 ==> #[trigger] final(self).register_file[j].value() == (if old(
                    self,
                ).register_file[j].write_enabled() {
                    old(self).register_file[j].latched()
                } else {
                    old(self).register_file[j].value()
                }),
            forall|j: int| 0 <= j < 8 ==> #[trigger] final(self).register_file[j].settled(),
            forall|j: int|
                0 <= j < 4 ==> #[trigger] final(self).alu_state_flags[j].value() == (
                if alu_flags_write_enable {
                    old(self).alu_state_flags[j].latched()
                } else {
                    old(self).alu_state_flags[j].value()
                }),
            forall|j: int| 0 <= j < 4 ==> #[trigger] final(self).alu_state_flags[j].settled(),
            final(self).instruction_pointer.value() == (if old(self).instruction_pointer.write_enabled() {
                old(self).instruction_pointer.latched()
            } else {
                old(self).instruction_pointer.value()
            }),
            final(self).instruction_register.value() == (if old(self).instruction_register.write_enabled() {
                old(self).instruction_register.latched()
            } else {
                old(self).instruction_register.value()
            }),
            final(self).mar_register.value() == (if old(self).mar_register.write_enabled() {
                old(self).mar_register.latched()
            } else {
                old(self).mar_register.value()
            }),
            final(self).mdr_register.value() == (if old(self).mdr_register.write_enabled() {
                old(self).mdr_register.latched()
            } else {
                old(self).mdr_register.value()
            }),
            final(self).tmp_register.value() == (if old(self).tmp_register.write_enabled() {
                old(self).tmp_register.latched()
            } else {
                old(self).tmp_register.value()
            }),
            final(self).instruction_pointer.settled(),
            final(self).instruction_register.settled(),
            final(self).mar_register.settled(),
            final(self).mdr_register.settled(),
            final(self).tmp_register.settled(),
            final(self).memory == old(self).memory,
            final(self).io_read_buffer == old(self).io_read_buffer,
            final(self).io_write_data == old(self).io_write_data,
            final(self).io_irq == old(self).io_irq,
    {
        let ghost before = self.register_file;
        let ghost pre = *self;
        let mut i: usize = 0;
        while i < 8
            invariant
                0 <= i <= 8,
                forall|j: int|
                    0 <= j < i ==> #[trigger] self.register_file[j].value() == (if before[j].write_enabled() {
                        before[j].latched()
                    } else {
                        before[j].value()
                    }),
                forall|j: int| 0 <= j < i ==> #[trigger] self.register_file[j].settled(),
                forall|j: int| i <= j < 8 ==> #[trigger] self.register_file[j] == before[j],
                self.alu_state_flags == pre.alu_state_flags,
                self.memory == pre.memory,
                self.io_read_buffer == pre.io_read_buffer,
                self.io_write_data == pre.io_write_data,
                self.io_irq == pre.io_irq,
                self.instruction_pointer == pre.instruction_pointer,
                self.instruction_register == pre.instruction_register,
                self.mar_register == pre.mar_register,
                self.mdr_register == pre.mdr_register,
                self.tmp_register == pre.tmp_register,
            decreases 8 - i,
        {
            let mut reg = self.register_file[i];
            reg.tick();
            self.register_file[i] = reg;
            i = i + 1;
        }

        let ghost flags_before = self.alu_state_flags;
        let ghost rf_ticked = self.register_file;
        let mut k: usize = 0;
        while k < 4
            invariant
                0 <= k <= 4,
                forall|j: int|
                    0 <= j < k ==> #[trigger] self.alu_state_flags[j].value() == (
                    if alu_flags_write_enable {
                        flags_before[j].latched()
                    } else {
                        flags_before[j].value()
                    }),
                forall|j: int| 0 <= j < k ==> #[trigger] self.alu_state_flags[j].settled(),
                forall|j: int| k <= j < 4 ==> #[trigger] self.alu_state_flags[j] == flags_before[j],
                self.register_file == rf_ticked,
                self.memory == pre.memory,
                self.io_read_buffer == pre.io_read_buffer,
                self.io_write_data == pre.io_write_data,
                self.io_irq == pre.io_irq,
                self.instruction_pointer == pre.instruction_pointer,
                self.instruction_register == pre.instruction_register,
                self.mar_register == pre.mar_register,
                self.mdr_register == pre.mdr_register,
                self.tmp_register == pre.tmp_register,
            decreases 4 - k,
        {
            let mut reg = self.alu_state_flags[k];
            reg.set_write(alu_flags_write_enable);
            reg.tick();
            self.alu_state_flags[k] = reg;
            k = k + 1;
        }

        self.instruction_register.tick();
        self.instruction_pointer.tick();
        self.mar_register.tick();
        self.mdr_register.tick();
        self.tmp_register.tick();

    }
}

impl DataPath {
    /// Whether a tick under these signals would stop the data path (see
    /// `dp_faults`).
    pub fn faults(&self, cu_signals: ControlSignals) -> (r: bool)
        ensures
            r == dp_faults(self@, cu_signals),
    {
        let right_in = match cu_signals.alu_src_b {
            AluSrcB::RegisterB => self.register_file_get_register(cu_signals.rf_read_b),
            AluSrcB::Mdr => self.mdr_register.get(),
            AluSrcB::Tmp => self.tmp_register.get(),
        };
        let ip = self.instruction_pointer.get();
        let addr = self.mar_register.get();
        let read = cu_signals.mem_read;
        let write = cu_signals.mem_write;
        let div_by_zero = matches!(cu_signals.alu_operation, AluOperation::Div) && right_in == 0;
        let ip_overflow = (matches!(cu_signals.ip_src, IpSrc::Increment) || matches!(
            cu_signals.mar_src,
            MarSrc::IpInc
        )) && ip == 0xFFFF;
        let mem_fault = (read && write) || (read && addr == IO_READ && !self.io_irq) || (write
            && addr == IO_READ) || (read && addr == IO_WRITE);
        div_by_zero || ip_overflow || mem_fault
    }

    /// The instruction pointer.
    pub fn get_instruction_pointer(&self) -> (r: u16)
        ensures
            r == self@.ip,
    {
        self.instruction_pointer.get()
    }

    /// A register of the register file.
    pub fn get_register(&self, register: GeneralPurposeRegister) -> (r: u16)
        ensures
            r == self@.regs[register.index()],
    {
        self.register_file_get_register(register)
    }
}

} // verus!
