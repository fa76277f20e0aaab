//! The instruction set: opcodes, addressing modes and registers, with their
//! raw encodings and the layout of an instruction word.
use vstd::prelude::*;

use crate::compiler::chars::{str_eq, to_uppercase, uppercase};

verus! {

/// Operation codes of the machine (bits 15..10 of an instruction word).
#[derive(Clone, Copy, Debug, PartialEq, Eq, Structural)]
pub enum Opcode {
    Nop,
    Hlt,
    Mov,
    Add,
    AddC,
    Sub,
    SubC,
    Mul,
    Div,
    Inc,
    Dec,
    Neg,
    And,
    Or,
    Xor,
    Not,
    Shl,
    Shr,
    Cmp,
    Test,
    Jmp,
    Je,
    Jne,
    Jns,
    Jnc,
    Jcs,
    Jcc,
    Jos,
    Joc,
    Jl,
    Jle,
    Jg,
    Jge,
    Call,
    Ret,
    Push,
    Pop,
    Enter,
    Leave,
    Iret,
    Sti,
    Cli,
}

impl Opcode {
    /// The raw code of an opcode.
    pub open spec fn code(self) -> u8 {
        match self {
            Opcode::Nop => 0,
            Opcode::Hlt => 1,
            Opcode::Mov => 2,
            Opcode::Add => 3,
            Opcode::AddC => 4,
            Opcode::Sub => 5,
            Opcode::SubC => 6,
            Opcode::Mul => 7,
            Opcode::Div => 8,
            Opcode::Inc => 9,
            Opcode::Dec => 10,
            Opcode::Neg => 11,
            Opcode::And => 12,
            Opcode::Or => 13,
            Opcode::Xor => 14,
            Opcode::Not => 15,
            Opcode::Shl => 16,
            Opcode::Shr => 17,
            Opcode::Cmp => 20,
            Opcode::Test => 21,
            Opcode::Jmp => 22,
            Opcode::Je => 23,
            Opcode::Jne => 24,
            Opcode::Jns => 25,
            Opcode::Jnc => 26,
            Opcode::Jcs => 27,
            Opcode::Jcc => 28,
            Opcode::Jos => 29,
            Opcode::Joc => 30,
            Opcode::Jl => 31,
            Opcode::Jle => 32,
            Opcode::Jg => 33,
            Opcode::Jge => 34,
            Opcode::Call => 35,
            Opcode::Ret => 36,
            Opcode::Push => 37,
            Opcode::Pop => 38,
            Opcode::Enter => 39,
            Opcode::Leave => 40,
            Opcode::Iret => 42,
            Opcode::Sti => 43,
            Opcode::Cli => 44,
        }
    }

    /// Whether a raw value is the code of some opcode.
    pub open spec fn is_code(value: u8) -> bool {
        value <= 17 || (20 <= value && value <= 40) || (42 <= value && value <= 44)
    }

    /// The raw code of this opcode.
    pub fn to_raw(self) -> (r: u8)
        ensures
            r == self.code(),
    {
        match self {
            Opcode::Nop => 0,
            Opcode::Hlt => 1,
            Opcode::Mov => 2,
            Opcode::Add => 3,
            Opcode::AddC => 4,
            Opcode::Sub => 5,
            Opcode::SubC => 6,
            Opcode::Mul => 7,
            Opcode::Div => 8,
            Opcode::Inc => 9,
            Opcode::Dec => 10,
            Opcode::Neg => 11,
            Opcode::And => 12,
            Opcode::Or => 13,
            Opcode::Xor => 14,
            Opcode::Not => 15,
            Opcode::Shl => 16,
            Opcode::Shr => 17,
            Opcode::Cmp => 20,
            Opcode::Test => 21,
            Opcode::Jmp => 22,
            Opcode::Je => 23,
            Opcode::Jne => 24,
            Opcode::Jns => 25,
            Opcode::Jnc => 26,
            Opcode::Jcs => 27,
            Opcode::Jcc => 28,
            Opcode::Jos => 29,
            Opcode::Joc => 30,
            Opcode::Jl => 31,
            Opcode::Jle => 32,
            Opcode::Jg => 33,
            Opcode::Jge => 34,
            Opcode::Call => 35,
            Opcode::Ret => 36,
            Opcode::Push => 37,
            Opcode::Pop => 38,
            Opcode::Enter => 39,
            Opcode::Leave => 40,
            Opcode::Iret => 42,
            Opcode::Sti => 43,
            Opcode::Cli => 44,
        }
    }

    /// The opcode with a given raw code, if there is one.
    pub fn from_raw(value: u8) -> (r: Option<Self>)
        ensures
            r is Some <==> Self::is_code(value),
            r matches Some(op) ==> op.code() == value,
    {
        match value {
            0 => Some(Opcode::Nop),
            1 => Some(Opcode::Hlt),
            2 => Some(Opcode::Mov),
            3 => Some(Opcode::Add),
            4 => Some(Opcode::AddC),
            5 => Some(Opcode::Sub),
            6 => Some(Opcode::SubC),
            7 => Some(Opcode::Mul),
            8 => Some(Opcode::Div),
            9 => Some(Opcode::Inc),
            10 => Some(Opcode::Dec),
            11 => Some(Opcode::Neg),
            12 => Some(Opcode::And),
            13 => Some(Opcode::Or),
            14 => Some(Opcode::Xor),
            15 => Some(Opcode::Not),
            16 => Some(Opcode::Shl),
            17 => Some(Opcode::Shr),
            20 => Some(Opcode::Cmp),
            21 => Some(Opcode::Test),
            22 => Some(Opcode::Jmp),
            23 => Some(Opcode::Je),
            24 => Some(Opcode::Jne),
            25 => Some(Opcode::Jns),
            26 => Some(Opcode::Jnc),
            27 => Some(Opcode::Jcs),
            28 => Some(Opcode::Jcc),
            29 => Some(Opcode::Jos),
            30 => Some(Opcode::Joc),
            31 => Some(Opcode::Jl),
            32 => Some(Opcode::Jle),
            33 => Some(Opcode::Jg),
            34 => Some(Opcode::Jge),
            35 => Some(Opcode::Call),
            36 => Some(Opcode::Ret),
            37 => Some(Opcode::Push),
            38 => Some(Opcode::Pop),
            39 => Some(Opcode::Enter),
            40 => Some(Opcode::Leave),
            42 => Some(Opcode::Iret),
            43 => Some(Opcode::Sti),
            44 => Some(Opcode::Cli),
            _ => None,
        }
    }
}

impl Default for Opcode {
    fn default() -> (r: Self)
        ensures
            r == Opcode::Nop,
    {
        Opcode::Nop
    }
}

/// Addressing modes (bits 9..6 of an instruction word).
#[derive(Clone, Copy, Debug, PartialEq, Eq, Structural)]
pub enum Mode {
    RegToReg,
    ImmToReg,
    MemrToReg,
    MemaToReg,
    MemraToReg,
    RegToMemr,
    ImmToMemr,
    RegToMema,
    ImmToMema,
    RegToMemra,
    ImmToMemra,
}

impl Mode {
    /// The raw code of an addressing mode.
    pub open spec fn code(self) -> u8 {
        match self {
            Mode::RegToReg => 0,
            Mode::ImmToReg => 1,
            Mode::MemrToReg => 2,
            Mode::MemaToReg => 3,
            Mode::MemraToReg => 4,
            Mode::RegToMemr => 5,
            Mode::ImmToMemr => 6,
            Mode::RegToMema => 7,
            Mode::ImmToMema => 8,
            Mode::RegToMemra => 9,
            Mode::ImmToMemra => 10,
        }
    }

    /// The raw code of this mode.
    pub fn to_raw(self) -> (r: u8)
        ensures
            r == self.code(),
    {
        match self {
            Mode::RegToReg => 0,
            Mode::ImmToReg => 1,
            Mode::MemrToReg => 2,
            Mode::MemaToReg => 3,
            Mode::MemraToReg => 4,
            Mode::RegToMemr => 5,
            Mode::ImmToMemr => 6,
            Mode::RegToMema => 7,
            Mode::ImmToMema => 8,
            Mode::RegToMemra => 9,
            Mode::ImmToMemra => 10,
        }
    }

    /// The mode with a given raw code, if there is one.
    pub fn from_raw(value: u8) -> (r: Option<Self>)
        ensures
            r is Some <==> value <= 10,
            r matches Some(m) ==> m.code() == value,
    {
        match value {
            0 => Some(Mode::RegToReg),
            1 => Some(Mode::ImmToReg),
            2 => Some(Mode::MemrToReg),
            3 => Some(Mode::MemaToReg),
            4 => Some(Mode::MemraToReg),
            5 => Some(Mode::RegToMemr),
            6 => Some(Mode::ImmToMemr),
            7 => Some(Mode::RegToMema),
            8 => Some(Mode::ImmToMema),
            9 => Some(Mode::RegToMemra),
            10 => Some(Mode::ImmToMemra),
            _ => None,
        }
    }
}

impl Default for Mode {
    fn default() -> (r: Self)
        ensures
            r == Mode::RegToReg,
    {
        Mode::RegToReg
    }
}

/// Registers as the instruction set names them (bits 5..3 and 2..0).
#[derive(Clone, Copy, Debug, PartialEq, Eq, Structural)]
pub enum Register {
    AL,
    AH,
    BL,
    BH,
    CL,
    CH,
    SP,
    BP,
}

impl Register {
    /// The raw code of a register.
    pub open spec fn code(self) -> u8 {
        match self {
            Register::AL => 0,
            Register::AH => 1,
            Register::BL => 2,
            Register::BH => 3,
            Register::CL => 4,
            Register::CH => 5,
            Register::SP => 6,
            Register::BP => 7,
        }
    }

    /// The raw code of this register.
    pub fn to_raw(self) -> (r: u8)
        ensures
            r == self.code(),
    {
        match self {
            Register::AL => 0,
            Register::AH => 1,
            Register::BL => 2,
            Register::BH => 3,
            Register::CL => 4,
            Register::CH => 5,
            Register::SP => 6,
            Register::BP => 7,
        }
    }

    /// The register with a given raw code, if there is one.
    pub fn from_raw(value: u8) -> (r: Option<Self>)
        ensures
            r is Some <==> value <= 7,
            r matches Some(reg) ==> reg.code() == value,
    {
        match value {
            0 => Some(Register::AL),
            1 => Some(Register::AH),
            2 => Some(Register::BL),
            3 => Some(Register::BH),
            4 => Some(Register::CL),
            5 => Some(Register::CH),
            6 => Some(Register::SP),
            7 => Some(Register::BP),
            _ => None,
        }
    }
}

impl Default for Register {
    fn default() -> (r: Self)
        ensures
            r == Register::AL,
    {
        Register::AL
    }
}

/// Raw code back to opcode: the code determines the opcode.
pub proof fn lemma_opcode_code_injective(a: Opcode, b: Opcode)
    ensures
        a.code() == b.code() ==> a == b,
        Opcode::is_code(a.code()),
{
}

/// Raw code back to mode: the code determines the mode.
pub proof fn lemma_mode_code_injective(a: Mode, b: Mode)
    ensures
        a.code() == b.code() ==> a == b,
        a.code() <= 10,
{
}

/// Raw code back to register: the code determines the register.
pub proof fn lemma_register_code_injective(a: Register, b: Register)
    ensures
        a.code() == b.code() ==> a == b,
        a.code() <= 7,
{
}

/// The instruction word that encodes an opcode, a mode and two registers.
pub open spec fn spec_encode(op: Opcode, mode: Mode, rd: Register, rs: Register) -> u16 {
    (op.code() * 1024 + mode.code() * 64 + rd.code() * 8 + rs.code()) as u16
}

/// Packs an instruction into one word: opcode in bits 15..10, mode in 9..6,
/// destination register in 5..3 and source register in 2..0.
pub fn encode_instruction(op: Opcode, mode: Mode, rd: Register, rs: Register) -> (w: u16)
    ensures
        w == spec_encode(op, mode, rd, rs),
{
    let o = op.to_raw() as u16;
    let m = mode.to_raw() as u16;
    let d = rd.to_raw() as u16;
    let s = rs.to_raw() as u16;
    let w = (o << 10) | (m << 6) | (d << 3) | s;
    assert(o <= 44 && m <= 10 && d <= 7 && s <= 7 ==> (o << 10) | (m << 6) | (d << 3) | s
        == o * 1024 + m * 64 + d * 8 + s) by (bit_vector);
    w
}


/// A word is the encoding of at most one instruction: the fields of
/// `x * 1024 + y * 64 + z * 8 + w` are `x`, `y`, `z` and `w`.
proof fn lemma_fields_unique(x1: int, y1: int, z1: int, w1: int, x2: int, y2: int, z2: int, w2: int)
    requires
        0 <= y1 < 16,
        0 <= z1 < 8,
        0 <= w1 < 8,
        0 <= y2 < 16,
        0 <= z2 < 8,
        0 <= w2 < 8,
        x1 * 1024 + y1 * 64 + z1 * 8 + w1 == x2 * 1024 + y2 * 64 + z2 * 8 + w2,
    ensures
        x1 == x2,
        y1 == y2,
        z1 == z2,
        w1 == w2,
{
    assert(x1 == x2) by (nonlinear_arith)
        requires
            0 <= y1 * 64 + z1 * 8 + w1 < 1024,
            0 <= y2 * 64 + z2 * 8 + w2 < 1024,
            x1 * 1024 + y1 * 64 + z1 * 8 + w1 == x2 * 1024 + y2 * 64 + z2 * 8 + w2,
    ;
    assert(y1 == y2) by (nonlinear_arith)
        requires
            0 <= z1 * 8 + w1 < 64,
            0 <= z2 * 8 + w2 < 64,
            y1 * 64 + z1 * 8 + w1 == y2 * 64 + z2 * 8 + w2,
    ;
}

/// Unpacks an instruction word into its opcode, mode and two registers, when
/// each of its fields holds the code of one.
pub fn decode_instruction(raw: u16) -> (r: Option<(Opcode, Mode, Register, Register)>)
    ensures
        r matches Some((o, m, d, s)) ==> spec_encode(o, m, d, s) == raw,
        r is None ==> forall|o: Opcode, m: Mode, d: Register, s: Register|
            #[trigger] spec_encode(o, m, d, s) != raw,
{
    let a = (raw >> 10) as u8;
    let b = ((raw >> 6) & 0b1111) as u8;
    let c = ((raw >> 3) & 0b111) as u8;
    let e = (raw & 0b111) as u8;
    assert(raw >> 10 < 64 && (raw >> 6) & 0b1111 < 16 && (raw >> 3) & 0b111 < 8 && raw & 0b111 < 8
        && raw == (raw >> 10) * 1024 + ((raw >> 6) & 0b1111) * 64 + ((raw >> 3) & 0b111) * 8 + (raw
        & 0b111)) by (bit_vector);
    let opcode = Opcode::from_raw(a);
    let mode = Mode::from_raw(b);
    let rd = Register::from_raw(c);
    let rs = Register::from_raw(e);
    match (opcode, mode, rd, rs) {
        (Some(o), Some(m), Some(d), Some(s)) => Some((o, m, d, s)),
        _ => {
            assert forall|o: Opcode, m: Mode, d: Register, s: Register|
                #[trigger] spec_encode(o, m, d, s) != raw by {
                lemma_register_code_injective(d, d);
                lemma_register_code_injective(s, s);
                lemma_mode_code_injective(m, m);
                lemma_opcode_code_injective(o, o);
                if spec_encode(o, m, d, s) == raw {
                    lemma_fields_unique(
                        o.code() as int,
                        m.code() as int,
                        d.code() as int,
                        s.code() as int,
                        a as int,
                        b as int,
                        c as int,
                        e as int,
                    );
                }
            }
            None
        },
    }
}

// ===========================> Names <===========================

/// The operation that an upper-case name stands for.
pub open spec fn opcode_named(n: Seq<char>) -> Option<Opcode> {
    if n == "NOP"@ {
        Some(Opcode::Nop)
    } else if n == "HLT"@ {
        Some(Opcode::Hlt)
    } else if n == "MOV"@ {
        Some(Opcode::Mov)
    } else if n == "ADD"@ {
        Some(Opcode::Add)
    } else if n == "ADDC"@ {
        Some(Opcode::AddC)
    } else if n == "SUB"@ {
        Some(Opcode::Sub)
    } else if n == "SUBC"@ {
        Some(Opcode::SubC)
    } else if n == "MUL"@ {
        Some(Opcode::Mul)
    } else if n == "DIV"@ {
        Some(Opcode::Div)
    } else if n == "INC"@ {
        Some(Opcode::Inc)
    } else if n == "DEC"@ {
        Some(Opcode::Dec)
    } else if n == "NEG"@ {
        Some(Opcode::Neg)
    } else if n == "AND"@ {
        Some(Opcode::And)
    } else if n == "OR"@ {
        Some(Opcode::Or)
    } else if n == "XOR"@ {
        Some(Opcode::Xor)
    } else if n == "NOT"@ {
        Some(Opcode::Not)
    } else if n == "SHL"@ {
        Some(Opcode::Shl)
    } else if n == "SHR"@ {
        Some(Opcode::Shr)
    } else if n == "CMP"@ {
        Some(Opcode::Cmp)
    } else if n == "TEST"@ {
        Some(Opcode::Test)
    } else if n == "JMP"@ {
        Some(Opcode::Jmp)
    } else if n == "JE"@ {
        Some(Opcode::Je)
    } else if n == "JNE"@ {
        Some(Opcode::Jne)
    } else if n == "JNS"@ {
        Some(Opcode::Jns)
    } else if n == "JNC"@ {
        Some(Opcode::Jnc)
    } else if n == "JCS"@ {
        Some(Opcode::Jcs)
    } else if n == "JCC"@ {
        Some(Opcode::Jcc)
    } else if n == "JOS"@ {
        Some(Opcode::Jos)
    } else if n == "JOC"@ {
        Some(Opcode::Joc)
    } else if n == "JL"@ {
        Some(Opcode::Jl)
    } else if n == "JLE"@ {
        Some(Opcode::Jle)
    } else if n == "JG"@ {
        Some(Opcode::Jg)
    } else if n == "JGE"@ {
        Some(Opcode::Jge)
    } else if n == "CALL"@ {
        Some(Opcode::Call)
    } else if n == "RET"@ {
        Some(Opcode::Ret)
    } else if n == "PUSH"@ {
        Some(Opcode::Push)
    } else if n == "POP"@ {
        Some(Opcode::Pop)
    } else if n == "ENTER"@ {
        Some(Opcode::Enter)
    } else if n == "LEAVE"@ {
        Some(Opcode::Leave)
    } else if n == "IRET"@ {
        Some(Opcode::Iret)
    } else if n == "STI"@ {
        Some(Opcode::Sti)
    } else if n == "CLI"@ {
        Some(Opcode::Cli)
    } else {
        None
    }
}

impl Opcode {
    /// The operation named by a word, in any case.
    pub fn from_raw_str(raw: &str) -> (r: Option<Opcode>)
        ensures
            r == opcode_named(uppercase(raw@)),
    {
        let up = to_uppercase(raw);
        let n = up.as_str();
        if str_eq(n, "NOP") {
            Some(Opcode::Nop)
        } else if str_eq(n, "HLT") {
            Some(Opcode::Hlt)
        } else if str_eq(n, "MOV") {
            Some(Opcode::Mov)
        } else if str_eq(n, "ADD") {
            Some(Opcode::Add)
        } else if str_eq(n, "ADDC") {
            Some(Opcode::AddC)
        } else if str_eq(n, "SUB") {
            Some(Opcode::Sub)
        } else if str_eq(n, "SUBC") {
            Some(Opcode::SubC)
        } else if str_eq(n, "MUL") {
            Some(Opcode::Mul)
        } else if str_eq(n, "DIV") {
            Some(Opcode::Div)
        } else if str_eq(n, "INC") {
            Some(Opcode::Inc)
        } else if str_eq(n, "DEC") {
            Some(Opcode::Dec)
        } else if str_eq(n, "NEG") {
            Some(Opcode::Neg)
        } else if str_eq(n, "AND") {
            Some(Opcode::And)
        } else if str_eq(n, "OR") {
            Some(Opcode::Or)
        } else if str_eq(n, "XOR") {
            Some(Opcode::Xor)
        } else if str_eq(n, "NOT") {
            Some(Opcode::Not)
        } else if str_eq(n, "SHL") {
            Some(Opcode::Shl)
        } else if str_eq(n, "SHR") {
            Some(Opcode::Shr)
        } else if str_eq(n, "CMP") {
            Some(Opcode::Cmp)
        } else if str_eq(n, "TEST") {
            Some(Opcode::Test)
        } else if str_eq(n, "JMP") {
            Some(Opcode::Jmp)
        } else if str_eq(n, "JE") {
            Some(Opcode::Je)
        } else if str_eq(n, "JNE") {
            Some(Opcode::Jne)
        } else if str_eq(n, "JNS") {
            Some(Opcode::Jns)
        } else if str_eq(n, "JNC") {
            Some(Opcode::Jnc)
        } else if str_eq(n, "JCS") {
            Some(Opcode::Jcs)
        } else if str_eq(n, "JCC") {
            Some(Opcode::Jcc)
        } else if str_eq(n, "JOS") {
            Some(Opcode::Jos)
        } else if str_eq(n, "JOC") {
            Some(Opcode::Joc)
        } else if str_eq(n, "JL") {
            Some(Opcode::Jl)
        } else if str_eq(n, "JLE") {
            Some(Opcode::Jle)
        } else if str_eq(n, "JG") {
            Some(Opcode::Jg)
        } else if str_eq(n, "JGE") {
            Some(Opcode::Jge)
        } else if str_eq(n, "CALL") {
            Some(Opcode::Call)
        } else if str_eq(n, "RET") {
            Some(Opcode::Ret)
        } else if str_eq(n, "PUSH") {
            Some(Opcode::Push)
        } else if str_eq(n, "POP") {
            Some(Opcode::Pop)
        } else if str_eq(n, "ENTER") {
            Some(Opcode::Enter)
        } else if str_eq(n, "LEAVE") {
            Some(Opcode::Leave)
        } else if str_eq(n, "IRET") {
            Some(Opcode::Iret)
        } else if str_eq(n, "STI") {
            Some(Opcode::Sti)
        } else if str_eq(n, "CLI") {
            Some(Opcode::Cli)
        } else {
            None
        }
    }
}
/// The addressing mode that an upper-case name stands for.
pub open spec fn mode_named(n: Seq<char>) -> Option<Mode> {
    if n == "REGTOREG"@ {
        Some(Mode::RegToReg)
    } else if n == "IMMTOREG"@ {
        Some(Mode::ImmToReg)
    } else if n == "MEMRTOREG"@ {
        Some(Mode::MemrToReg)
    } else if n == "MEMATOREG"@ {
        Some(Mode::MemaToReg)
    } else if n == "MEMRATOREG"@ {
        Some(Mode::MemraToReg)
    } else if n == "REGTOMEMR"@ {
        Some(Mode::RegToMemr)
    } else if n == "IMMTOMEMR"@ {
        Some(Mode::ImmToMemr)
    } else if n == "REGTOMEMA"@ {
        Some(Mode::RegToMema)
    } else if n == "IMMTOMEMA"@ {
        Some(Mode::ImmToMema)
    } else if n == "REGTOMEMRA"@ {
        Some(Mode::RegToMemra)
    } else if n == "IMMTOMEMRA"@ {
        Some(Mode::ImmToMemra)
    } else {
        None
    }
}

impl Mode {
    /// The addressing mode named by a word, in any case.
    pub fn from_raw_str(raw: &str) -> (r: Option<Mode>)
        ensures
            r == mode_named(uppercase(raw@)),
    {
        let up = to_uppercase(raw);
        let n = up.as_str();
        if str_eq(n, "REGTOREG") {
            Some(Mode::RegToReg)
        } else if str_eq(n, "IMMTOREG") {
            Some(Mode::ImmToReg)
        } else if str_eq(n, "MEMRTOREG") {
            Some(Mode::MemrToReg)
        } else if str_eq(n, "MEMATOREG") {
            Some(Mode::MemaToReg)
        } else if str_eq(n, "MEMRATOREG") {
            Some(Mode::MemraToReg)
        } else if str_eq(n, "REGTOMEMR") {
            Some(Mode::RegToMemr)
        } else if str_eq(n, "IMMTOMEMR") {
            Some(Mode::ImmToMemr)
        } else if str_eq(n, "REGTOMEMA") {
            Some(Mode::RegToMema)
        } else if str_eq(n, "IMMTOMEMA") {
            Some(Mode::ImmToMema)
        } else if str_eq(n, "REGTOMEMRA") {
            Some(Mode::RegToMemra)
        } else if str_eq(n, "IMMTOMEMRA") {
            Some(Mode::ImmToMemra)
        } else {
            None
        }
    }
}
/// The register that an upper-case name stands for.
pub open spec fn register_named(n: Seq<char>) -> Option<Register> {
    if n == "AL"@ {
        Some(Register::AL)
    } else if n == "AH"@ {
        Some(Register::AH)
    } else if n == "BL"@ {
        Some(Register::BL)
    } else if n == "BH"@ {
        Some(Register::BH)
    } else if n == "CL"@ {
        Some(Register::CL)
    } else if n == "CH"@ {
        Some(Register::CH)
    } else if n == "SP"@ {
        Some(Register::SP)
    } else if n == "BP"@ {
        Some(Register::BP)
    } else {
        None
    }
}

impl Register {
    /// The register named by a word, in any case.
    pub fn from_raw_str(raw: &str) -> (r: Option<Register>)
        ensures
            r == register_named(uppercase(raw@)),
    {
        let up = to_uppercase(raw);
        let n = up.as_str();
        if str_eq(n, "AL") {
            Some(Register::AL)
        } else if str_eq(n, "AH") {
            Some(Register::AH)
        } else if str_eq(n, "BL") {
            Some(Register::BL)
        } else if str_eq(n, "BH") {
            Some(Register::BH)
        } else if str_eq(n, "CL") {
            Some(Register::CL)
        } else if str_eq(n, "CH") {
            Some(Register::CH)
        } else if str_eq(n, "SP") {
            Some(Register::SP)
        } else if str_eq(n, "BP") {
            Some(Register::BP)
        } else {
            None
        }
    }
}
/// The mnemonic of an operation, as the instruction tables write it.
pub open spec fn opcode_name(o: Opcode) -> Seq<char> {
    match o {
        Opcode::Nop => "NOP"@,
        Opcode::Hlt => "HLT"@,
        Opcode::Mov => "MOV"@,
        Opcode::Add => "ADD"@,
        Opcode::AddC => "ADDC"@,
        Opcode::Sub => "SUB"@,
        Opcode::SubC => "SUBC"@,
        Opcode::Mul => "MUL"@,
        Opcode::Div => "DIV"@,
        Opcode::Inc => "INC"@,
        Opcode::Dec => "DEC"@,
        Opcode::Neg => "NEG"@,
        Opcode::And => "AND"@,
        Opcode::Or => "OR"@,
        Opcode::Xor => "XOR"@,
        Opcode::Not => "NOT"@,
        Opcode::Shl => "SHL"@,
        Opcode::Shr => "SHR"@,
        Opcode::Cmp => "CMP"@,
        Opcode::Test => "TEST"@,
        Opcode::Jmp => "JMP"@,
        Opcode::Je => "JE"@,
        Opcode::Jne => "JNE"@,
        Opcode::Jns => "JNS"@,
        Opcode::Jnc => "JNC"@,
        Opcode::Jcs => "JCS"@,
        Opcode::Jcc => "JCC"@,
        Opcode::Jos => "JOS"@,
        Opcode::Joc => "JOC"@,
        Opcode::Jl => "JL"@,
        Opcode::Jle => "JLE"@,
        Opcode::Jg => "JG"@,
        Opcode::Jge => "JGE"@,
        Opcode::Call => "CALL"@,
        Opcode::Ret => "RET"@,
        Opcode::Push => "PUSH"@,
        Opcode::Pop => "POP"@,
        Opcode::Enter => "ENTER"@,
        Opcode::Leave => "LEAVE"@,
        Opcode::Iret => "IRET"@,
        Opcode::Sti => "STI"@,
        Opcode::Cli => "CLI"@,
    }
}

/// The mnemonics by operation code, as the instruction tables give them;
/// the codes no operation has are empty.
pub open spec fn opcode_names_by_code() -> Seq<Seq<char>> {
    seq![
        "NOP"@,
        "HLT"@,
        "MOV"@,
        "ADD"@,
        "ADDC"@,
        "SUB"@,
        "SUBC"@,
        "MUL"@,
        "DIV"@,
        "INC"@,
        "DEC"@,
        "NEG"@,
        "AND"@,
        "OR"@,
        "XOR"@,
        "NOT"@,
        "SHL"@,
        "SHR"@,
        ""@,
        ""@,
        "CMP"@,
        "TEST"@,
        "JMP"@,
        "JE"@,
        "JNE"@,
        "JNS"@,
        "JNC"@,
        "JCS"@,
        "JCC"@,
        "JOS"@,
        "JOC"@,
        "JL"@,
        "JLE"@,
        "JG"@,
        "JGE"@,
        "CALL"@,
        "RET"@,
        "PUSH"@,
        "POP"@,
        "ENTER"@,
        "LEAVE"@,
        ""@,
        "IRET"@,
        "STI"@,
        "CLI"@,
    ]
}

/// The name of an addressing mode, upper-case.
pub open spec fn mode_name(m: Mode) -> Seq<char> {
    match m {
        Mode::RegToReg => "REGTOREG"@,
        Mode::ImmToReg => "IMMTOREG"@,
        Mode::MemrToReg => "MEMRTOREG"@,
        Mode::MemaToReg => "MEMATOREG"@,
        Mode::MemraToReg => "MEMRATOREG"@,
        Mode::RegToMemr => "REGTOMEMR"@,
        Mode::ImmToMemr => "IMMTOMEMR"@,
        Mode::RegToMema => "REGTOMEMA"@,
        Mode::ImmToMema => "IMMTOMEMA"@,
        Mode::RegToMemra => "REGTOMEMRA"@,
        Mode::ImmToMemra => "IMMTOMEMRA"@,
    }
}

/// The mode names by mode code, as the table of addressing modes gives them.
pub open spec fn mode_names_by_code() -> Seq<Seq<char>> {
    seq![
        "REGTOREG"@,
        "IMMTOREG"@,
        "MEMRTOREG"@,
        "MEMATOREG"@,
        "MEMRATOREG"@,
        "REGTOMEMR"@,
        "IMMTOMEMR"@,
        "REGTOMEMA"@,
        "IMMTOMEMA"@,
        "REGTOMEMRA"@,
        "IMMTOMEMRA"@,
    ]
}

/// The name of a register.
pub open spec fn register_name(r: Register) -> Seq<char> {
    match r {
        Register::AL => "AL"@,
        Register::AH => "AH"@,
        Register::BL => "BL"@,
        Register::BH => "BH"@,
        Register::CL => "CL"@,
        Register::CH => "CH"@,
        Register::SP => "SP"@,
        Register::BP => "BP"@,
    }
}

/// The register names by register code, as the register tables give them.
pub open spec fn register_names_by_code() -> Seq<Seq<char>> {
    seq![
        "AL"@,
        "AH"@,
        "BL"@,
        "BH"@,
        "CL"@,
        "CH"@,
        "SP"@,
        "BP"@,
    ]
}

/// A name stands for the operation, mode or register of that name: what a
/// name reads as is named by exactly that name.
pub proof fn law_names_read_back(n: Seq<char>)
    ensures
        opcode_named(n) matches Some(o) ==> n == opcode_name(o),
        mode_named(n) matches Some(m) ==> n == mode_name(m),
        register_named(n) matches Some(r) ==> n == register_name(r),
{
}

/// The codes are those of the instruction-set tables: each operation,
/// mode and register has the code the tables list for its name.
pub proof fn law_codes_follow_the_tables(o: Opcode, m: Mode, r: Register)
    ensures
        o.code() < 45 && opcode_names_by_code()[o.code() as int] == opcode_name(o),
        m.code() < 11 && mode_names_by_code()[m.code() as int] == mode_name(m),
        r.code() < 8 && register_names_by_code()[r.code() as int] == register_name(r),
{
}

} // verus!
