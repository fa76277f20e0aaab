//! The linker: puts a start-up program before the generated code and
//! writes both as blocks of a binary image, with every label replaced by
//! its address.
use vstd::prelude::*;

use crate::compiler::codegen::{
    asm_code, asm_fault, initial_state, Codegen, CodegenV, Command, CommandV,
};
use crate::compiler::names::NameMap;
use crate::compiler::protolexer::text_lines;

verus! {

/// The address the generated program is loaded at.
pub const MAIN_PROG_START: u16 = 256;

/// Why a program could not be linked.
#[derive(Debug)]
pub enum LinkError {
    /// The start-up program does not fit below its limit.
    InitialProgramTooBig,
    /// The generated program does not fit in memory.
    MainProgramTooBig,
    /// A label is used but never set.
    LabelNotFound(String),
    /// The start-up program could not be assembled.
    BadInitialProgram,
}

/// Why a program could not be linked, as plain values.
pub enum LinkErrorV {
    InitialProgramTooBig,
    MainProgramTooBig,
    LabelNotFound(Seq<char>),
    BadInitialProgram,
}

impl View for LinkError {
    type V = LinkErrorV;

    open spec fn view(&self) -> LinkErrorV {
        match self {
            LinkError::InitialProgramTooBig => LinkErrorV::InitialProgramTooBig,
            LinkError::MainProgramTooBig => LinkErrorV::MainProgramTooBig,
            LinkError::LabelNotFound(l) => LinkErrorV::LabelNotFound(l@),
            LinkError::BadInitialProgram => LinkErrorV::BadInitialProgram,
        }
    }
}

/// The start-up program: the stack at the end of memory, the interrupt
/// handler bound when the program has `IO_ISR`, then a call of `MAIN` and
/// a halt.
pub open spec fn init_text(io: bool) -> Seq<char> {
    if io {
        "
            ; Set SP to end of memory
            mov immtoreg sp al
            # 65535
    
            ; Bind interruption handler
            mov immtomema al al
            # 64
            @ __io_isr_wrapper
    
            ; Enable interruptions
            sti regtoreg al al
    
            ; Go to entry point
            call immtoreg al al
            @ main
    
            hlt regtoreg al al
    
            : __io_isr_wrapper
            call immtoreg al al
            @ io_isr
            iret regtoreg al al
        "@
    } else {
        "
            ; Set SP to end of memory
            mov immtoreg sp al
            # 65535
            
            ; Go to entry point
            call immtoreg al al
            @ main
            
            hlt regtoreg al al
        "@
    }
}

/// The text of the start-up program.
fn init_asm(io: bool) -> (r: &'static str)
    ensures
        r@ == init_text(io),
{
    if io {
        "
            ; Set SP to end of memory
            mov immtoreg sp al
            # 65535
    
            ; Bind interruption handler
            mov immtomema al al
            # 64
            @ __io_isr_wrapper
    
            ; Enable interruptions
            sti regtoreg al al
    
            ; Go to entry point
            call immtoreg al al
            @ main
    
            hlt regtoreg al al
    
            : __io_isr_wrapper
            call immtoreg al al
            @ io_isr
            iret regtoreg al al
        "
    } else {
        "
            ; Set SP to end of memory
            mov immtoreg sp al
            # 65535
            
            ; Go to entry point
            call immtoreg al al
            @ main
            
            hlt regtoreg al al
        "
    }
}

/// The two little-endian bytes of a word.
pub open spec fn le_bytes(w: u16) -> Seq<u8> {
    seq![(w % 256) as u8, (w / 256) as u8]
}

/// The bytes of the commands from `i` on, every label replaced by its
/// address, or the first label that is not set.
pub open spec fn resolve(cs: Seq<CommandV>, i: int, labels: Map<Seq<char>, usize>) -> Result<
    Seq<u8>,
    Seq<char>,
>
    decreases cs.len() - i,
{
    if i < 0 || i >= cs.len() {
        Ok(seq![])
    } else {
        let head: Result<Seq<u8>, Seq<char>> = match cs[i] {
            CommandV::Word(w) => Ok(le_bytes(w)),
            CommandV::Label(l) => if labels.contains_key(l) {
                Ok(le_bytes(labels[l] as u16))
            } else {
                Err(l)
            },
        };
        match head {
            Err(l) => Err(l),
            Ok(h) => match resolve(cs, i + 1, labels) {
                Ok(rest) => Ok(h + rest),
                Err(l) => Err(l),
            },
        }
    }
}

/// The labels moved to the address of the generated program.
pub open spec fn shifted_labels(labels: Map<Seq<char>, usize>) -> Map<Seq<char>, usize> {
    Map::new(|k: Seq<char>| labels.contains_key(k), |k: Seq<char>| (labels[k] + 256) as usize)
}

/// The start-up program, assembled.
pub open spec fn init_code(io: bool) -> CodegenV {
    asm_code(initial_state(), text_lines(init_text(io)), 0)
}

/// The binary of a program: a block of the start-up program at address 0
/// and a block of the program at address 256, each an address word, a size
/// word and the words.
pub open spec fn link_spec(code: CodegenV) -> Result<Seq<u8>, LinkErrorV> {
    let labels = shifted_labels(code.labels);
    let io = labels.contains_key("IO_ISR"@);
    let init = init_code(io);
    let init_labels = init.labels.union_prefer_right(labels);
    if init.commands.len() > 63 {
        Err(LinkErrorV::InitialProgramTooBig)
    } else if code.commands.len() + 256 > 0xFFFF - 256 {
        Err(LinkErrorV::MainProgramTooBig)
    } else {
        match resolve(init.commands, 0, init_labels) {
            Err(l) => Err(LinkErrorV::LabelNotFound(l)),
            Ok(init_bytes) => match resolve(code.commands, 0, labels) {
                Err(l) => Err(LinkErrorV::LabelNotFound(l)),
                Ok(main_bytes) => Ok(
                    le_bytes(0) + le_bytes(init.commands.len() as u16) + init_bytes + le_bytes(256)
                        + le_bytes(code.commands.len() as u16) + main_bytes,
                ),
            },
        }
    }
}

/// Appends the two little-endian bytes of a word.
fn push_word(mem: &mut Vec<u8>, w: u16)
    ensures
        final(mem)@ == old(mem)@ + le_bytes(w),
{
    mem.push((w % 256) as u8);
    mem.push((w / 256) as u8);
    assert(final(mem)@ =~= old(mem)@ + le_bytes(w));
}

/// A result with bytes put before its bytes.
pub open spec fn prepend(p: Seq<u8>, r: Result<Seq<u8>, Seq<char>>) -> Result<Seq<u8>, Seq<char>> {
    match r {
        Ok(b) => Ok(p + b),
        Err(l) => Err(l),
    }
}

proof fn lemma_prepend_step(p: Seq<u8>, cs: Seq<CommandV>, i: int, labels: Map<Seq<char>, usize>, h: Seq<u8>)
    requires
        0 <= i < cs.len(),
        match cs[i] {
            CommandV::Word(w) => h == le_bytes(w),
            CommandV::Label(l) => labels.contains_key(l) && h == le_bytes(labels[l] as u16),
        },
    ensures
        prepend(p, resolve(cs, i, labels)) == prepend(p + h, resolve(cs, i + 1, labels)),
{
    match resolve(cs, i + 1, labels) {
        Ok(rest) => {
            assert(p + (h + rest) =~= (p + h) + rest);
        },
        Err(_) => {},
    }
}

/// Appends the bytes of the commands, every label replaced by its address.
fn add_commands(mem: &mut Vec<u8>, cs: &Vec<Command>, labels: &NameMap<usize>) -> (r: Result<(), LinkError>)
    requires
        labels.wf(),
    ensures
        match resolve(crate::compiler::codegen::commands_view(cs@), 0, labels@) {
            Ok(b) => r is Ok && final(mem)@ == old(mem)@ + b,
            Err(l) => r matches Err(e) && e@ == LinkErrorV::LabelNotFound(l),
        },
{
    let ghost cv = crate::compiler::codegen::commands_view(cs@);
    let ghost m0 = mem@;
    let mut i: usize = 0;
    assert(mem@.subrange(m0.len() as int, mem@.len() as int) =~= seq![]);
    assert(prepend(seq![], resolve(cv, 0, labels@)) == resolve(cv, 0, labels@)) by {
        match resolve(cv, 0, labels@) {
            Ok(b) => {
                assert(seq![] + b =~= b);
            },
            Err(_) => {},
        }
    }
    while i < cs.len()
        invariant
            i <= cs@.len(),
            cv == crate::compiler::codegen::commands_view(cs@),
            labels.wf(),
            m0.len() <= mem@.len(),
            mem@.subrange(0, m0.len() as int) == m0,
            resolve(cv, 0, labels@) == prepend(
                mem@.subrange(m0.len() as int, mem@.len() as int),
                resolve(cv, i as int, labels@),
            ),
        decreases cs@.len() - i,
    {
        assert(cv[i as int] == cs@[i as int]@);
        let ghost p = mem@.subrange(m0.len() as int, mem@.len() as int);
        let ghost before = mem@;
        match &cs[i] {
            Command::Word(w) => {
                push_word(mem, *w);
                proof {
                    lemma_prepend_step(p, cv, i as int, labels@, le_bytes(*w));
                    assert(mem@.subrange(m0.len() as int, mem@.len() as int) =~= p + le_bytes(*w));
                }
            },
            Command::Label(l) => {
                match labels.get(l.as_str()) {
                    Some(a) => {
                        push_word(mem, a as u16);
                        proof {
                            lemma_prepend_step(p, cv, i as int, labels@, le_bytes(a as u16));
                            assert(mem@.subrange(m0.len() as int, mem@.len() as int) =~= p + le_bytes(
                                a as u16,
                            ));
                        }
                    },
                    None => {
                        return Err(LinkError::LabelNotFound(l.clone()));
                    },
                }
            },
        }
        assert(mem@.subrange(0, m0.len() as int) =~= m0);
        i += 1;
    }
    assert(mem@ =~= m0 + mem@.subrange(m0.len() as int, mem@.len() as int));
    Ok(())
}

/// The start-up program chosen for a program cannot be assembled.
pub open spec fn init_fault(code: CodegenV) -> bool {
    !crate::compiler::codegen::asm_ok(init_text(shifted_labels(code.labels).contains_key("IO_ISR"@)))
}

/// Links a program: moves its labels to address 256, assembles the
/// start-up program (which binds the interrupt handler when the program
/// has `IO_ISR`), and writes the binary.
pub fn link(code: Codegen) -> (r: Result<Vec<u8>, LinkError>)
    requires
        code.wf(),
        forall|k: Seq<char>| #[trigger]
            code@.labels.contains_key(k) ==> code@.labels[k] + 256 <= usize::MAX,
    ensures
        match r {
            Ok(b) => !(init_fault(code@)) && link_spec(code@) == Ok::<Seq<u8>, LinkErrorV>(b@),
            Err(e) => init_fault(code@) && e@ == LinkErrorV::BadInitialProgram || !init_fault(code@)
                && link_spec(code@) == Err::<Seq<u8>, LinkErrorV>(e@),
        },
{
    let mut code = code;
    let ghost c0 = code@;
    code.add_labels_offset(MAIN_PROG_START as i32);
    assert(code@.labels =~= shifted_labels(c0.labels));
    let io = code.get_labels().contains_key("IO_ISR");
    let text = init_asm(io);
    if asm_fault(text).is_some() {
        return Err(LinkError::BadInitialProgram);
    }
    let mut init_code = Codegen::new_from_asm(text.to_string());
    init_code.extend_labels(code.get_labels());
    let init_commands = init_code.get_commands();
    let main_commands = code.get_commands();
    if init_commands.len() > 63 {
        return Err(LinkError::InitialProgramTooBig);
    }
    if main_commands.len() > 0xFFFF - 512 {
        return Err(LinkError::MainProgramTooBig);
    }
    let mut result: Vec<u8> = Vec::new();
    push_word(&mut result, 0);
    push_word(&mut result, init_commands.len() as u16);
    match add_commands(&mut result, init_commands, init_code.get_labels()) {
        Ok(()) => {},
        Err(e) => {
            return Err(e);
        },
    }
    push_word(&mut result, MAIN_PROG_START);
    push_word(&mut result, main_commands.len() as u16);
    match add_commands(&mut result, main_commands, code.get_labels()) {
        Ok(()) => {},
        Err(e) => {
            return Err(e);
        },
    }
    Ok(result)
}

} // verus!
