//! The whole machine: a memory image loaded from a binary, a control unit
//! and a data path ticking together, and words arriving on the input port
//! at given ticks.
use vstd::prelude::*;

use std::collections::HashMap;

use crate::cpu::control_unit::{cu_faults, cu_next, ControlUnit, ControlUnitView, CUState};
use crate::cpu::data_path::{dp_faults, dp_next, DataPath, DataPathView, Flags};

verus! {

broadcast use vstd::std_specs::hash::group_hash_axioms;

/// Why a run stopped before its end.
#[derive(Clone, Copy, Debug, PartialEq, Eq, Structural)]
pub enum MachineError {
    /// The binary is not a sequence of well-formed blocks.
    BadImage,
    /// The control unit met an unknown instruction or step.
    ControlUnitFault,
    /// The data path met a division by zero, an instruction pointer past
    /// the last word, or a forbidden memory access.
    DataPathFault,
}

/// The little-endian word at word index `k` of a binary.
pub open spec fn image_word(b: Seq<u8>, k: int) -> u16 {
    (b[2 * k] as int + 256 * (b[2 * k + 1] as int)) as u16
}

/// Memory after copying `size` words of the binary, from word index `from`,
/// to memory starting at address `offset`.
pub open spec fn write_block(mem: Seq<u16>, b: Seq<u8>, offset: int, from: int, size: int) -> Seq<u16> {
    Seq::new(
        mem.len(),
        |a: int|
            if offset <= a < offset + size {
                image_word(b, from + a - offset)
            } else {
                mem[a]
            },
    )
}

/// Loads the blocks of a binary from word index `p` on: each block is an
/// offset word, a size word and `size` data words. A block cut short, or
/// one that runs past the last address, makes the whole image bad.
pub open spec fn load_blocks(b: Seq<u8>, p: nat, mem: Seq<u16>) -> Option<Seq<u16>>
    decreases b.len() / 2 - p,
{
    let n = b.len() / 2;
    if p >= n {
        Some(mem)
    } else if p + 1 >= n {
        None
    } else {
        let offset = image_word(b, p as int);
        let size = image_word(b, p + 1int);
        if p + 2 + size > n || (size > 0 && offset + size - 1 > 0xFFFF) {
            None
        } else {
            load_blocks(b, (p + 2 + size) as nat, write_block(mem, b, offset as int, p + 2int, size as int))
        }
    }
}

/// The memory image of a binary: zeros, overwritten by every block in
/// order. A binary of odd length is bad.
pub open spec fn load_image(b: Seq<u8>) -> Option<Seq<u16>> {
    if b.len() % 2 == 1 {
        None
    } else {
        load_blocks(b, 0, zero_memory())
    }
}

/// Memory with every word zero.
pub open spec fn zero_memory() -> Seq<u16> {
    Seq::new(65536, |i: int| 0u16)
}

/// Loads a binary into a fresh memory image.
pub fn load_bin(bin_code: Vec<u8>) -> (r: Option<[u16; 65536]>)
    ensures
        r is Some <==> load_image(bin_code@) is Some,
        r matches Some(mem) ==> mem@ == load_image(bin_code@)->0,
{
    let mut memory = [0u16; 65536];
    let ghost zeros = zero_memory();
    assert(memory@ =~= zeros);
    if bin_code.len() % 2 == 1 {
        return None;
    }
    let n = bin_code.len() / 2;
    let mut p: usize = 0;
    while p < n
        invariant
            n == bin_code@.len() / 2,
            bin_code@.len() % 2 == 0,
            p <= n,
            load_blocks(bin_code@, p as nat, memory@) == load_blocks(bin_code@, 0, zeros),
            zeros == zero_memory(),
            memory@.len() == 65536,
        decreases n - p,
    {
        let offset = word_at(&bin_code, p);
        if p + 1 >= n {
            return None;
        }
        let size = word_at(&bin_code, p + 1);
        if size as usize > n - p - 2 || (size > 0 && offset as u32 + size as u32 - 1 > 0xFFFF) {
            return None;
        }
        let ghost before = memory@;
        let mut i: u16 = 0;
        while i < size
            invariant
                n == bin_code@.len() / 2,
                p + 2 + size <= n,
                size > 0 ==> offset + size - 1 <= 0xFFFF,
                i <= size,
                memory@ == write_block(before, bin_code@, offset as int, p + 2, i as int),
                before.len() == 65536,
            decreases size - i,
        {
            let word = word_at(&bin_code, p + 2 + i as usize);
            memory[(offset + i) as usize] = word;
            i += 1;
            assert(memory@ =~= write_block(before, bin_code@, offset as int, p + 2, i as int));
        }
        p = p + 2 + size as usize;
    }
    Some(memory)
}

/// The little-endian word at word index `k`.
fn word_at(b: &Vec<u8>, k: usize) -> (w: u16)
    requires
        2 * k + 1 < b@.len(),
    ensures
        w == image_word(b@, k as int),
{
    let len = b.len();
    b[2 * k] as u16 + 256 * (b[2 * k + 1] as u16)
}

/// Abstract state of the whole machine between two ticks.
pub struct MachineView {
    pub cu: ControlUnitView,
    pub dp: DataPathView,
}

/// The data path after a word arrived on the input port (or none did).
pub open spec fn with_input(dp: DataPathView, input: Option<u16>) -> DataPathView {
    match input {
        Some(v) => DataPathView { io_read_buffer: v, io_irq: true, ..dp },
        None => dp,
    }
}

/// One tick of the machine: the input word (if any) reaches the input port,
/// the control unit reads the data path and sends its signals, and the data
/// path performs them. `Err` tells which unit would have stopped.
pub open spec fn machine_next(m: MachineView, input: Option<u16>) -> Result<MachineView, MachineError> {
    let dp1 = with_input(m.dp, input);
    if cu_faults(m.cu, dp1) {
        Err(MachineError::ControlUnitFault)
    } else {
        let (cu2, cs) = cu_next(m.cu, dp1);
        if dp_faults(dp1, cs) {
            Err(MachineError::DataPathFault)
        } else {
            Ok(MachineView { cu: cu2, dp: dp_next(dp1, cs) })
        }
    }
}

/// The input word of a tick, if one is scheduled.
pub open spec fn input_at(inputs: Map<usize, u16>, tick: int) -> Option<u16> {
    if 0 <= tick <= usize::MAX && inputs.contains_key(tick as usize) {
        Some(inputs[tick as usize])
    } else {
        None
    }
}

/// Runs the machine from tick `tick` until it halts or `limit` ticks have
/// passed: the words sent to the output port, or why it stopped.
pub open spec fn run_from(m: MachineView, inputs: Map<usize, u16>, tick: nat, limit: nat) -> Result<
    Seq<u16>,
    MachineError,
>
    decreases limit - tick,
{
    if tick >= limit || m.cu.halted {
        Ok(m.dp.io_write_data)
    } else {
        match machine_next(m, input_at(inputs, tick as int)) {
            Ok(m2) => run_from(m2, inputs, tick + 1, limit),
            Err(e) => Err(e),
        }
    }
}

/// The machine at power-on over a memory image.
pub open spec fn initial_machine(memory: Seq<u16>) -> MachineView {
    MachineView {
        cu: ControlUnitView {
            state: CUState::InstructionFetch,
            step: 0,
            halted: false,
            int_flag: false,
            int_block: false,
        },
        dp: DataPathView {
            memory,
            io_read_buffer: 0,
            io_write_data: Seq::empty(),
            io_irq: false,
            regs: Seq::new(8, |i: int| 0u16),
            flags: Flags { zf: false, nf: false, cf: false, of: false },
            ip: 0,
            ir: 0,
            mar: 0,
            mdr: 0,
            tmp: 0,
        },
    }
}

/// What running a binary gives: the output words, or why it stopped.
pub open spec fn run_image(b: Seq<u8>, inputs: Map<usize, u16>, limit: nat) -> Result<Seq<u16>, MachineError> {
    match load_image(b) {
        None => Err(MachineError::BadImage),
        Some(memory) => run_from(initial_machine(memory), inputs, 0, limit),
    }
}

/// A control unit and a data path wired together.
pub struct Machine {
    cu: ControlUnit,
    dp: DataPath,
}

impl View for Machine {
    type V = MachineView;

    closed spec fn view(&self) -> MachineView {
        MachineView { cu: self.cu@, dp: self.dp@ }
    }
}

impl Machine {
    pub closed spec fn wf(&self) -> bool {
        self.cu.wf() && self.dp.wf()
    }

    /// A machine at power-on over a memory image.
    pub fn new(memory: [u16; 65536], debug: bool) -> (m: Self)
        ensures
            m.wf(),
            m@ == initial_machine(memory@),
    {
        let m = Machine { cu: ControlUnit::new(debug), dp: DataPath::new(memory) };
        assert(m@.dp.regs =~= Seq::new(8, |i: int| 0u16));
        m
    }

    /// One tick, with an optional word arriving on the input port.
    pub fn step(&mut self, input: Option<u16>) -> (r: Result<(), MachineError>)
        requires
            old(self).wf(),
        ensures
            final(self).wf(),
            match machine_next(old(self)@, input) {
                Ok(m) => r is Ok && final(self)@ == m,
                Err(e) => r == Err::<(), MachineError>(e),
            },
    {
        if let Some(v) = input {
            self.dp.set_io_read_buffer(v);
        }
        if self.cu.faults(&self.dp) {
            return Err(MachineError::ControlUnitFault);
        }
        let signals = self.cu.tick(&self.dp);
        if self.dp.faults(signals) {
            return Err(MachineError::DataPathFault);
        }
        self.dp.tick(signals);
        Ok(())
    }

    pub fn is_halted(&self) -> (r: bool)
        ensures
            r == self@.cu.halted,
    {
        self.cu.get_is_halted()
    }

    /// The words sent to the output port so far.
    pub fn output(&self) -> (r: Vec<u16>)
        ensures
            r@ == self@.dp.io_write_data,
    {
        self.dp.get_io_write_data()
    }

    pub fn control_unit(&self) -> (r: &ControlUnit)
        ensures
            r@ == self@.cu,
    {
        &self.cu
    }

    pub fn data_path(&self) -> (r: &DataPath)
        ensures
            r@ == self@.dp,
    {
        &self.dp
    }
}

/// Loads a binary and runs it until the machine halts or `limit` ticks have
/// passed, handing it the word `in_map[t]` at each tick `t` that has one.
/// Returns the words sent to the output port, or why the run stopped.
pub fn run(bin_code: Vec<u8>, in_map: HashMap<usize, u16>, limit: usize) -> (r: Result<
    Vec<u16>,
    MachineError,
>)
    ensures
        match run_image(bin_code@, in_map@, limit as nat) {
            Ok(out) => r matches Ok(v) && v@ == out,
            Err(e) => r == Err::<Vec<u16>, MachineError>(e),
        },
{
    let memory = match load_bin(bin_code) {
        Some(m) => m,
        None => return Err(MachineError::BadImage),
    };
    let mut machine = Machine::new(memory, false);
    let ghost m0 = machine@;
    let mut tick: usize = 0;
    while tick < limit && !machine.is_halted()
        invariant
            machine.wf(),
            tick <= limit,
            run_from(machine@, in_map@, tick as nat, limit as nat) == run_from(
                m0,
                in_map@,
                0,
                limit as nat,
            ),
            run_image(bin_code@, in_map@, limit as nat) == run_from(m0, in_map@, 0, limit as nat),
        decreases limit - tick,
    {
        let input = match in_map.get(&tick) {
            Some(v) => Some(*v),
            None => None,
        };
        assert(input == input_at(in_map@, tick as int));
        let ghost before = machine@;
        match machine.step(input) {
            Ok(()) => {},
            Err(e) => {
                assert(run_from(before, in_map@, tick as nat, limit as nat) == Err::<
                    Seq<u16>,
                    MachineError,
                >(e));
                return Err(e);
            },
        }
        tick += 1;
    }
    Ok(machine.output())
}

} // verus!
