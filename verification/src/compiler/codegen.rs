//! The code generator: turns the syntax tree into machine words and label
//! references, and assembles hand-written assembly.
use vstd::prelude::*;

use crate::compiler::chars::{str_eq, to_uppercase, uppercase};
use crate::compiler::names::NameMap;
use crate::compiler::numbers::{decimal, decimal_chars, parse_signed, parse_i32};
use crate::compiler::parser::{
    expr_view, node_view, nodes_view, ASTNode, ExprV, Expression, NodeV, Operator, VarType,
    VariableUse,
};
use crate::isa::{
    encode_instruction, mode_named, opcode_named, register_named, spec_encode, Mode, Opcode, Register,
};
use crate::compiler::protolexer::{split_whitespace_of, text_lines, text_lines_of, ws_words};
use vstd::string::StringExecFns;

verus! {

/// An item of generated code: a machine word, or the address of a label.
#[derive(Clone, Debug)]
pub enum Command {
    Word(u16),
    Label(String),
}

/// An item of generated code as plain values.
pub enum CommandV {
    Word(u16),
    Label(Seq<char>),
}

impl View for Command {
    type V = CommandV;

    open spec fn view(&self) -> CommandV {
        match self {
            Command::Word(w) => CommandV::Word(*w),
            Command::Label(l) => CommandV::Label(l@),
        }
    }
}

/// The state of the code generator as plain values.
#[verifier::ext_equal]
pub struct CodegenV {
    pub commands: Seq<CommandV>,
    pub labels: Map<Seq<char>, usize>,
    pub label_counter: usize,
    pub loops: Seq<usize>,
    pub procedure: Option<(Seq<char>, Seq<Seq<char>>)>,
}

/// The code generator: the code so far, the position of each label, and
/// the state of the procedure being generated.
#[derive(Debug)]
pub struct Codegen {
    pub commands: Vec<Command>,
    pub labels: NameMap<usize>,
    label_counter: usize,
    current_loop_id_stack: Vec<usize>,
    current_procedure: Option<(String, Vec<String>)>,
}

/// The plain values of a list of commands.
pub open spec fn commands_view(s: Seq<Command>) -> Seq<CommandV> {
    s.map_values(|c: Command| c@)
}

impl View for Codegen {
    type V = CodegenV;

    closed spec fn view(&self) -> CodegenV {
        CodegenV {
            commands: commands_view(self.commands@),
            labels: self.labels@,
            label_counter: self.label_counter,
            loops: self.current_loop_id_stack@,
            procedure: match self.current_procedure {
                Some((name, args)) => Some((name@, args@.map_values(|a: String| a@))),
                None => None,
            },
        }
    }
}

impl Codegen {
    /// The label map has distinct names.
    pub closed spec fn wf(&self) -> bool {
        self.labels.wf()
    }
}

impl Codegen {
    /// The code so far.
    pub fn get_commands(&self) -> (r: &Vec<Command>)
        ensures
            commands_view(r@) == self@.commands,
    {
        &self.commands
    }

    /// The position of each label.
    pub fn get_labels(&self) -> (r: &NameMap<usize>)
        requires
            self.wf(),
        ensures
            r.wf(),
            r@ == self@.labels,
    {
        &self.labels
    }

    /// Adds the labels of a map, replacing those it shares.
    pub fn extend_labels(&mut self, other: &NameMap<usize>)
        requires
            old(self).wf(),
            other.wf(),
        ensures
            final(self).wf(),
            final(self)@ == (CodegenV { labels: old(self)@.labels.union_prefer_right(other@), ..old(self)@ }),
    {
        self.labels.extend(other);
    }
}

// ===========================> Emission <===========================

/// The state after appending commands.
pub open spec fn emit(st: CodegenV, cs: Seq<CommandV>) -> CodegenV {
    CodegenV { commands: st.commands + cs, ..st }
}

/// The word of an instruction.
pub open spec fn ins(op: Opcode, mode: Mode, rd: Register, rs: Register) -> CommandV {
    CommandV::Word(spec_encode(op, mode, rd, rs))
}

/// The state after a label is set at the current position.
pub open spec fn set_label(st: CodegenV, l: Seq<char>) -> CodegenV {
    CodegenV { labels: st.labels.insert(l, st.commands.len() as usize), ..st }
}

/// The state after a label number is taken.
pub open spec fn bump(st: CodegenV) -> CodegenV {
    CodegenV { label_counter: (st.label_counter + 1) as usize, ..st }
}

/// A label made of a prefix, a number and a suffix.
pub open spec fn numbered(prefix: Seq<char>, n: usize, suffix: Seq<char>) -> Seq<char> {
    prefix + decimal(n as nat) + suffix
}

/// Builds a label made of a prefix, a number and a suffix.
fn numbered_label(prefix: &str, n: usize, suffix: &str) -> (r: String)
    ensures
        r@ == numbered(prefix@, n, suffix@),
{
    let mut s = String::from_str(prefix);
    let digits = decimal_chars(n);
    let mut i: usize = 0;
    while i < digits.len()
        invariant
            i <= digits@.len(),
            s@ == prefix@ + digits@.take(i as int),
        decreases digits@.len() - i,
    {
        s.push(digits[i]);
        i += 1;
        assert(s@ =~= prefix@ + digits@.take(i as int));
    }
    assert(digits@.take(digits@.len() as int) =~= digits@);
    s.append(suffix);
    s
}

impl Codegen {
    /// A generator with no code.
    fn empty() -> (r: Codegen)
        ensures
            r.wf(),
            r@ == (CodegenV {
                commands: seq![],
                labels: Map::empty(),
                label_counter: 0,
                loops: seq![],
                procedure: None,
            }),
    {
        let r = Codegen {
            commands: Vec::new(),
            labels: NameMap::new(),
            label_counter: 0,
            current_loop_id_stack: Vec::new(),
            current_procedure: None,
        };
        assert(commands_view(r.commands@) =~= seq![]);
        r
    }

    fn emit_word(&mut self, word: u16)
        requires
            old(self).wf(),
        ensures
            final(self).wf(),
            final(self)@ == emit(old(self)@, seq![CommandV::Word(word)]),
    {
        let ghost before = self.commands@;
        self.commands.push(Command::Word(word));
        assert(commands_view(self.commands@) =~= commands_view(before) + seq![CommandV::Word(word)]);
    }

    fn emit_instr(&mut self, opcode: Opcode, mode: Mode, rd: Register, rs: Register)
        requires
            old(self).wf(),
        ensures
            final(self).wf(),
            final(self)@ == emit(old(self)@, seq![ins(opcode, mode, rd, rs)]),
    {
        let w = encode_instruction(opcode, mode, rd, rs);
        self.emit_word(w);
    }

    fn emit_label(&mut self, label: &str)
        requires
            old(self).wf(),
        ensures
            final(self).wf(),
            final(self)@ == emit(old(self)@, seq![CommandV::Label(label@)]),
    {
        let ghost before = self.commands@;
        self.commands.push(Command::Label(String::from_str(label)));
        assert(commands_view(self.commands@) =~= commands_view(before) + seq![
            CommandV::Label(label@),
        ]);
    }

    fn set_label(&mut self, label: &str)
        requires
            old(self).wf(),
        ensures
            final(self).wf(),
            final(self)@ == set_label(old(self)@, label@),
    {
        let n = self.commands.len();
        self.labels.insert(String::from_str(label), n);
    }

    fn next_label_id(&mut self) -> (r: usize)
        requires
            old(self).wf(),
            old(self)@.label_counter < usize::MAX,
        ensures
            final(self).wf(),
            r == old(self)@.label_counter,
            final(self)@ == bump(old(self)@),
    {
        let id = self.label_counter;
        self.label_counter += 1;
        id
    }

    /// The number of the innermost loop being generated.
    fn get_current_loop(&self) -> (r: Option<usize>)
        ensures
            r == (if self@.loops.len() > 0 {
                Some(self@.loops.last())
            } else {
                None::<usize>
            }),
    {
        let n = self.current_loop_id_stack.len();
        if n > 0 {
            Some(self.current_loop_id_stack[n - 1])
        } else {
            None
        }
    }
}


// ===========================> Variables <===========================

/// Where a variable lives: on the stack at an offset below the frame, as
/// an argument of the procedure, or at a global label.
pub enum Place {
    Local(u16),
    Arg(int),
    Global,
}

/// The index of the first argument with the name, from `i` on.
pub open spec fn arg_index(args: Seq<Seq<char>>, name: Seq<char>, i: int) -> Option<int>
    decreases args.len() - i,
{
    if i < 0 || i >= args.len() {
        None
    } else if args[i] == name {
        Some(i)
    } else {
        arg_index(args, name, i + 1)
    }
}

/// Where a name refers to: a local variable first, then an argument, then
/// a global.
pub open spec fn place_of(name: Seq<char>, vars: Map<Seq<char>, u16>, args: Seq<Seq<char>>) -> Place {
    if vars.contains_key(name) {
        Place::Local(vars[name])
    } else {
        match arg_index(args, name, 0) {
            Some(i) => Place::Arg(i),
            None => Place::Global,
        }
    }
}

/// `0 - x` in 16 bits.
pub open spec fn neg_word(x: int) -> u16 {
    if x == 0 {
        0
    } else {
        (0x10000 - x) as u16
    }
}

/// The offset of argument `i` above the frame pointer.
pub open spec fn arg_word(args: Seq<Seq<char>>, i: int) -> u16 {
    (args.len() - i + 1) as u16
}

/// Loads the value of a variable into AL.
pub open spec fn read_code(name: Seq<char>, place: Place, args: Seq<Seq<char>>) -> Seq<CommandV> {
    match place {
        Place::Local(o) => seq![
            ins(Opcode::Mov, Mode::MemraToReg, Register::AL, Register::BP),
            CommandV::Word(neg_word(o + 1)),
        ],
        Place::Arg(i) => seq![
            ins(Opcode::Mov, Mode::MemraToReg, Register::AL, Register::BP),
            CommandV::Word(arg_word(args, i)),
        ],
        Place::Global => seq![
            ins(Opcode::Mov, Mode::MemaToReg, Register::AL, Register::AL),
            CommandV::Label(name),
        ],
    }
}

/// Stores AL into a variable.
pub open spec fn write_code(name: Seq<char>, place: Place, args: Seq<Seq<char>>) -> Seq<CommandV> {
    match place {
        Place::Local(o) => seq![
            ins(Opcode::Mov, Mode::RegToMemra, Register::BP, Register::AL),
            CommandV::Word(neg_word(o + 1)),
        ],
        Place::Arg(i) => seq![
            ins(Opcode::Mov, Mode::RegToMemra, Register::BP, Register::AL),
            CommandV::Word(arg_word(args, i)),
        ],
        Place::Global => seq![
            ins(Opcode::Mov, Mode::RegToMema, Register::AL, Register::AL),
            CommandV::Label(name),
        ],
    }
}

/// Loads the address of a variable into AL.
pub open spec fn addr_code(name: Seq<char>, place: Place, args: Seq<Seq<char>>) -> Seq<CommandV> {
    match place {
        Place::Local(o) => seq![
            ins(Opcode::Mov, Mode::RegToReg, Register::AL, Register::BP),
            ins(Opcode::Sub, Mode::ImmToReg, Register::AL, Register::AL),
            CommandV::Word((o + 1) as u16),
        ],
        Place::Arg(i) => seq![
            ins(Opcode::Mov, Mode::RegToReg, Register::AL, Register::BP),
            ins(Opcode::Add, Mode::ImmToReg, Register::AL, Register::AL),
            CommandV::Word(arg_word(args, i)),
        ],
        Place::Global => seq![
            ins(Opcode::Mov, Mode::ImmToReg, Register::AL, Register::AL),
            CommandV::Label(name),
        ],
    }
}

/// The arguments of the procedure being generated.
pub open spec fn proc_args(st: CodegenV) -> Seq<Seq<char>> {
    match st.procedure {
        Some((_, args)) => args,
        None => seq![],
    }
}

/// Every local variable lies below the top of a 16-bit offset.
pub open spec fn vars_wf(vars: Map<Seq<char>, u16>) -> bool {
    forall|k: Seq<char>| #[trigger] vars.contains_key(k) ==> vars[k] < 0xffff
}

/// The place of a name, as the generator finds it.
fn find_place(name: &String, vars: &NameMap<u16>, args: &Vec<String>) -> (r: (Option<u16>, Option<usize>))
    requires
        vars.wf(),
    ensures
        match place_of(name@, vars@, args@.map_values(|a: String| a@)) {
            Place::Local(o) => r.0 == Some(o),
            Place::Arg(i) => r.0 is None && r.1 == Some(i as usize) && 0 <= i < args@.len(),
            Place::Global => r.0 is None && r.1 is None,
        },
{
    let ghost av = args@.map_values(|a: String| a@);
    match vars.get(name.as_str()) {
        Some(o) => (Some(o), None),
        None => {
            let mut i: usize = 0;
            while i < args.len()
                invariant
                    i <= args@.len(),
                    !vars@.contains_key(name@),
                    av == args@.map_values(|a: String| a@),
                    arg_index(av, name@, 0) == arg_index(av, name@, i as int),
                decreases args@.len() - i,
            {
                assert(av[i as int] == args@[i as int]@);
                if str_eq(args[i].as_str(), name.as_str()) {
                    return (None, Some(i));
                }
                i += 1;
            }
            (None, None)
        },
    }
}

// ===========================> Expressions <===========================

/// Whether an operator compares, giving 0 or 1.
pub open spec fn is_comparison(op: Operator) -> bool {
    op == Operator::Eq || op == Operator::NotEq || op == Operator::Lt || op == Operator::Gt
        || op == Operator::LtEq || op == Operator::GtEq
}

/// Whether an operator takes a label number.
pub open spec fn takes_label(op: Operator) -> bool {
    is_comparison(op) || op == Operator::And || op == Operator::Or
}

/// The number of label numbers an expression takes.
pub open spec fn expr_labels(e: ExprV) -> nat
    decreases e,
{
    match e {
        ExprV::Variable(_, Some(o)) => expr_labels(*o),
        ExprV::Expr(inner) => expr_labels(*inner),
        ExprV::BinaryOp(op, l, r) => expr_labels(*l) + expr_labels(*r) + if takes_label(op) {
            1nat
        } else {
            0nat
        },
        _ => 0,
    }
}

/// The jump that a comparison takes when it holds.
pub open spec fn comparison_jump(op: Operator) -> Opcode {
    match op {
        Operator::Eq => Opcode::Je,
        Operator::NotEq => Opcode::Jne,
        Operator::Lt => Opcode::Jl,
        Operator::Gt => Opcode::Jg,
        Operator::LtEq => Opcode::Jle,
        _ => Opcode::Jge,
    }
}

/// The code of a binary operator on AL (left) and BL (right), result in AL.
pub open spec fn op_code(st: CodegenV, op: Operator) -> CodegenV {
    let id = st.label_counter;
    match op {
        Operator::Add => emit(st, seq![ins(Opcode::Add, Mode::RegToReg, Register::AL, Register::BL)]),
        Operator::Sub => emit(st, seq![ins(Opcode::Sub, Mode::RegToReg, Register::AL, Register::BL)]),
        Operator::Mul => emit(st, seq![ins(Opcode::Mul, Mode::RegToReg, Register::AL, Register::BL)]),
        Operator::Div => emit(st, seq![ins(Opcode::Div, Mode::RegToReg, Register::AL, Register::BL)]),
        Operator::Mod => emit(
            st,
            seq![
                ins(Opcode::Div, Mode::RegToReg, Register::AL, Register::BL),
                ins(Opcode::Mov, Mode::RegToReg, Register::AL, Register::AH),
            ],
        ),
        Operator::And => {
            let f = numbered(".and false "@, id, seq![]);
            let e = numbered(".and end "@, id, seq![]);
            let s1 = emit(
                bump(st),
                seq![
                    ins(Opcode::Cmp, Mode::ImmToReg, Register::AL, Register::AL),
                    CommandV::Word(0),
                    ins(Opcode::Je, Mode::ImmToReg, Register::AL, Register::AL),
                    CommandV::Label(f),
                    ins(Opcode::Cmp, Mode::ImmToReg, Register::BL, Register::BL),
                    CommandV::Word(0),
                    ins(Opcode::Je, Mode::ImmToReg, Register::AL, Register::AL),
                    CommandV::Label(f),
                    ins(Opcode::Mov, Mode::ImmToReg, Register::AL, Register::AL),
                    CommandV::Word(1),
                    ins(Opcode::Jmp, Mode::ImmToReg, Register::AL, Register::AL),
                    CommandV::Label(e),
                ],
            );
            let s2 = emit(
                set_label(s1, f),
                seq![ins(Opcode::Mov, Mode::ImmToReg, Register::AL, Register::AL), CommandV::Word(0)],
            );
            set_label(s2, e)
        },
        Operator::Or => {
            let t = numbered("_or_true_"@, id, seq![]);
            let e = numbered("_or_end_"@, id, seq![]);
            let s1 = emit(
                bump(st),
                seq![
                    ins(Opcode::Cmp, Mode::ImmToReg, Register::AL, Register::AL),
                    CommandV::Word(0),
                    ins(Opcode::Jne, Mode::ImmToReg, Register::AL, Register::AL),
                    CommandV::Label(t),
                    ins(Opcode::Cmp, Mode::ImmToReg, Register::BL, Register::BL),
                    CommandV::Word(0),
                    ins(Opcode::Jne, Mode::ImmToReg, Register::AL, Register::AL),
                    CommandV::Label(t),
                    ins(Opcode::Mov, Mode::ImmToReg, Register::AL, Register::AL),
                    CommandV::Word(0),
                    ins(Opcode::Jmp, Mode::ImmToReg, Register::AL, Register::AL),
                    CommandV::Label(e),
                ],
            );
            let s2 = emit(
                set_label(s1, t),
                seq![ins(Opcode::Mov, Mode::ImmToReg, Register::AL, Register::AL), CommandV::Word(1)],
            );
            set_label(s2, e)
        },
        _ => {
            let t = numbered(".cmp true "@, id, seq![]);
            let e = numbered(".cmp end "@, id, seq![]);
            let s1 = emit(
                bump(st),
                seq![
                    ins(Opcode::Cmp, Mode::RegToReg, Register::AL, Register::BL),
                    ins(comparison_jump(op), Mode::ImmToReg, Register::AL, Register::AL),
                    CommandV::Label(t),
                    ins(Opcode::Mov, Mode::ImmToReg, Register::AL, Register::AL),
                    CommandV::Word(0),
                    ins(Opcode::Jmp, Mode::ImmToReg, Register::AL, Register::AL),
                    CommandV::Label(e),
                ],
            );
            let s2 = emit(
                set_label(s1, t),
                seq![ins(Opcode::Mov, Mode::ImmToReg, Register::AL, Register::AL), CommandV::Word(1)],
            );
            set_label(s2, e)
        },
    }
}

/// The code of an expression, leaving its value in AL.
pub open spec fn expr_code(st: CodegenV, e: ExprV, vars: Map<Seq<char>, u16>) -> CodegenV
    decreases e,
{
    let args = proc_args(st);
    match e {
        ExprV::Number(n) => emit(
            st,
            seq![ins(Opcode::Mov, Mode::ImmToReg, Register::AL, Register::AL), CommandV::Word(n as u16)],
        ),
        ExprV::CString(c) => emit(
            st,
            seq![
                ins(Opcode::Mov, Mode::ImmToReg, Register::AL, Register::AL),
                CommandV::Label(numbered(".str "@, c, seq![])),
            ],
        ),
        ExprV::Variable(name, offset) => {
            let s1 = emit(st, read_code(name, place_of(name, vars, args), args));
            match offset {
                None => s1,
                Some(o) => {
                    let s2 = expr_code(
                        emit(s1, seq![ins(Opcode::Push, Mode::RegToReg, Register::AL, Register::AL)]),
                        *o,
                        vars,
                    );
                    emit(
                        s2,
                        seq![
                            ins(Opcode::Pop, Mode::RegToReg, Register::BL, Register::AL),
                            ins(Opcode::Add, Mode::RegToReg, Register::AL, Register::BL),
                            ins(Opcode::Mov, Mode::MemrToReg, Register::AL, Register::AL),
                        ],
                    )
                },
            }
        },
        ExprV::VariableAddr(name) => emit(st, addr_code(name, place_of(name, vars, args), args)),
        ExprV::Expr(inner) => expr_code(st, *inner, vars),
        ExprV::BinaryOp(op, l, r) => {
            let s1 = expr_code(st, *r, vars);
            let s2 = expr_code(
                emit(s1, seq![ins(Opcode::Push, Mode::RegToReg, Register::AL, Register::AL)]),
                *l,
                vars,
            );
            op_code(emit(s2, seq![ins(Opcode::Pop, Mode::RegToReg, Register::BL, Register::AL)]), op)
        },
    }
}

/// Only the code, the labels and the label counter change, and the code
/// only grows.
pub open spec fn same_frame(a: CodegenV, b: CodegenV) -> bool {
    a.loops == b.loops && a.procedure == b.procedure && a.commands.len() >= b.commands.len()
}

impl Codegen {
    fn emit_read(&mut self, name: &String, vars: &NameMap<u16>, args: &Vec<String>)
        requires
            old(self).wf(),
            args@.len() < usize::MAX,
            vars.wf(),
            vars_wf(vars@),
        ensures
            final(self).wf(),
            final(self)@ == emit(
                old(self)@,
                read_code(
                    name@,
                    place_of(name@, vars@, args@.map_values(|a: String| a@)),
                    args@.map_values(|a: String| a@),
                ),
            ),
    {
        let (local, arg) = find_place(name, vars, args);
        match local {
            Some(o) => {
                self.emit_instr(Opcode::Mov, Mode::MemraToReg, Register::AL, Register::BP);
                self.emit_word(0u16.wrapping_sub(o + 1));
            },
            None => match arg {
                Some(i) => {
                    self.emit_instr(Opcode::Mov, Mode::MemraToReg, Register::AL, Register::BP);
                    self.emit_word((args.len() - i + 1) as u16);
                },
                None => {
                    self.emit_instr(Opcode::Mov, Mode::MemaToReg, Register::AL, Register::AL);
                    self.emit_label(name.as_str());
                },
            },
        }
        assert(self@ =~= emit(
            old(self)@,
            read_code(
                name@,
                place_of(name@, vars@, args@.map_values(|a: String| a@)),
                args@.map_values(|a: String| a@),
            ),
        ));
    }
}


impl Codegen {
    fn emit_write(&mut self, name: &String, vars: &NameMap<u16>, args: &Vec<String>)
        requires
            old(self).wf(),
            args@.len() < usize::MAX,
            vars.wf(),
            vars_wf(vars@),
        ensures
            final(self).wf(),
            final(self)@ == emit(
                old(self)@,
                write_code(
                    name@,
                    place_of(name@, vars@, args@.map_values(|a: String| a@)),
                    args@.map_values(|a: String| a@),
                ),
            ),
    {
        let (local, arg) = find_place(name, vars, args);
        match local {
            Some(o) => {
                self.emit_instr(Opcode::Mov, Mode::RegToMemra, Register::BP, Register::AL);
                self.emit_word(0u16.wrapping_sub(o + 1));
            },
            None => match arg {
                Some(i) => {
                    self.emit_instr(Opcode::Mov, Mode::RegToMemra, Register::BP, Register::AL);
                    self.emit_word((args.len() - i + 1) as u16);
                },
                None => {
                    self.emit_instr(Opcode::Mov, Mode::RegToMema, Register::AL, Register::AL);
                    self.emit_label(name.as_str());
                },
            },
        }
        assert(self@ =~= emit(
            old(self)@,
            write_code(
                name@,
                place_of(name@, vars@, args@.map_values(|a: String| a@)),
                args@.map_values(|a: String| a@),
            ),
        ));
    }

    fn emit_addr(&mut self, name: &String, vars: &NameMap<u16>, args: &Vec<String>)
        requires
            old(self).wf(),
            args@.len() < usize::MAX,
            vars.wf(),
            vars_wf(vars@),
        ensures
            final(self).wf(),
            final(self)@ == emit(
                old(self)@,
                addr_code(
                    name@,
                    place_of(name@, vars@, args@.map_values(|a: String| a@)),
                    args@.map_values(|a: String| a@),
                ),
            ),
    {
        let (local, arg) = find_place(name, vars, args);
        match local {
            Some(o) => {
                self.emit_instr(Opcode::Mov, Mode::RegToReg, Register::AL, Register::BP);
                self.emit_instr(Opcode::Sub, Mode::ImmToReg, Register::AL, Register::AL);
                self.emit_word(o + 1);
            },
            None => match arg {
                Some(i) => {
                    self.emit_instr(Opcode::Mov, Mode::RegToReg, Register::AL, Register::BP);
                    self.emit_instr(Opcode::Add, Mode::ImmToReg, Register::AL, Register::AL);
                    self.emit_word((args.len() - i + 1) as u16);
                },
                None => {
                    self.emit_instr(Opcode::Mov, Mode::ImmToReg, Register::AL, Register::AL);
                    self.emit_label(name.as_str());
                },
            },
        }
        assert(self@ =~= emit(
            old(self)@,
            addr_code(
                name@,
                place_of(name@, vars@, args@.map_values(|a: String| a@)),
                args@.map_values(|a: String| a@),
            ),
        ));
    }

    /// Emits a conditional jump to a label and the code that sets AL to 0 or
    /// 1, the two labels given.
    fn emit_flag_tail(&mut self, first: &str, end: &str, first_value: u16, end_value: u16)
        requires
            old(self).wf(),
        ensures
            final(self).wf(),
            final(self)@ == set_label(
                emit(
                    set_label(
                        emit(
                            old(self)@,
                            seq![
                                ins(Opcode::Mov, Mode::ImmToReg, Register::AL, Register::AL),
                                CommandV::Word(end_value),
                                ins(Opcode::Jmp, Mode::ImmToReg, Register::AL, Register::AL),
                                CommandV::Label(end@),
                            ],
                        ),
                        first@,
                    ),
                    seq![
                        ins(Opcode::Mov, Mode::ImmToReg, Register::AL, Register::AL),
                        CommandV::Word(first_value),
                    ],
                ),
                end@,
            ),
    {
        let ghost s0 = self@;
        self.emit_instr(Opcode::Mov, Mode::ImmToReg, Register::AL, Register::AL);
        self.emit_word(end_value);
        self.emit_instr(Opcode::Jmp, Mode::ImmToReg, Register::AL, Register::AL);
        self.emit_label(end);
        let ghost s1 = self@;
        assert(s1 =~= emit(
            s0,
            seq![
                ins(Opcode::Mov, Mode::ImmToReg, Register::AL, Register::AL),
                CommandV::Word(end_value),
                ins(Opcode::Jmp, Mode::ImmToReg, Register::AL, Register::AL),
                CommandV::Label(end@),
            ],
        ));
        self.set_label(first);
        let ghost s2 = self@;
        self.emit_instr(Opcode::Mov, Mode::ImmToReg, Register::AL, Register::AL);
        self.emit_word(first_value);
        assert(self@ =~= emit(
            s2,
            seq![
                ins(Opcode::Mov, Mode::ImmToReg, Register::AL, Register::AL),
                CommandV::Word(first_value),
            ],
        ));
        self.set_label(end);
    }

    /// Emits the code of a binary operator on AL and BL.
    fn gen_op(&mut self, op: Operator)
        requires
            old(self).wf(),
            takes_label(op) ==> old(self)@.label_counter < usize::MAX,
        ensures
            final(self).wf(),
            final(self)@ == op_code(old(self)@, op),
    {
        let ghost s0 = self@;
        match op {
            Operator::Add => self.emit_instr(Opcode::Add, Mode::RegToReg, Register::AL, Register::BL),
            Operator::Sub => self.emit_instr(Opcode::Sub, Mode::RegToReg, Register::AL, Register::BL),
            Operator::Mul => self.emit_instr(Opcode::Mul, Mode::RegToReg, Register::AL, Register::BL),
            Operator::Div => self.emit_instr(Opcode::Div, Mode::RegToReg, Register::AL, Register::BL),
            Operator::Mod => {
                self.emit_instr(Opcode::Div, Mode::RegToReg, Register::AL, Register::BL);
                self.emit_instr(Opcode::Mov, Mode::RegToReg, Register::AL, Register::AH);
                assert(self@ =~= op_code(s0, op));
            },
            Operator::And => {
                let id = self.next_label_id();
                let f = numbered_label(".and false ", id, "");
                let e = numbered_label(".and end ", id, "");
                let ghost s1 = self@;
                self.emit_instr(Opcode::Cmp, Mode::ImmToReg, Register::AL, Register::AL);
                self.emit_word(0);
                self.emit_instr(Opcode::Je, Mode::ImmToReg, Register::AL, Register::AL);
                self.emit_label(f.as_str());
                self.emit_instr(Opcode::Cmp, Mode::ImmToReg, Register::BL, Register::BL);
                self.emit_word(0);
                self.emit_instr(Opcode::Je, Mode::ImmToReg, Register::AL, Register::AL);
                self.emit_label(f.as_str());
                proof {
                    reveal_strlit("");
                }
                self.emit_flag_tail(f.as_str(), e.as_str(), 0, 1);
                assert(self@ =~= op_code(s0, op));
            },
            Operator::Or => {
                let id = self.next_label_id();
                let t = numbered_label("_or_true_", id, "");
                let e = numbered_label("_or_end_", id, "");
                self.emit_instr(Opcode::Cmp, Mode::ImmToReg, Register::AL, Register::AL);
                self.emit_word(0);
                self.emit_instr(Opcode::Jne, Mode::ImmToReg, Register::AL, Register::AL);
                self.emit_label(t.as_str());
                self.emit_instr(Opcode::Cmp, Mode::ImmToReg, Register::BL, Register::BL);
                self.emit_word(0);
                self.emit_instr(Opcode::Jne, Mode::ImmToReg, Register::AL, Register::AL);
                self.emit_label(t.as_str());
                proof {
                    reveal_strlit("");
                }
                self.emit_flag_tail(t.as_str(), e.as_str(), 1, 0);
                assert(self@ =~= op_code(s0, op));
            },
            _ => {
                let id = self.next_label_id();
                let t = numbered_label(".cmp true ", id, "");
                let e = numbered_label(".cmp end ", id, "");
                self.emit_instr(Opcode::Cmp, Mode::RegToReg, Register::AL, Register::BL);
                let jump = match op {
                    Operator::Eq => Opcode::Je,
                    Operator::NotEq => Opcode::Jne,
                    Operator::Lt => Opcode::Jl,
                    Operator::Gt => Opcode::Jg,
                    Operator::LtEq => Opcode::Jle,
                    _ => Opcode::Jge,
                };
                self.emit_instr(jump, Mode::ImmToReg, Register::AL, Register::AL);
                self.emit_label(t.as_str());
                proof {
                    reveal_strlit("");
                }
                self.emit_flag_tail(t.as_str(), e.as_str(), 1, 0);
                assert(self@ =~= op_code(s0, op));
            },
        }
    }
}


/// The arguments of a procedure as plain values.
pub open spec fn args_view(args: Seq<String>) -> Seq<Seq<char>> {
    args.map_values(|a: String| a@)
}

impl Codegen {
    /// Emits the code of an expression, which leaves its value in AL.
    #[verifier::spinoff_prover]
    #[verifier::rlimit(50)]
    fn gen_expr(&mut self, expr: &Expression, vars: &NameMap<u16>, args: &Vec<String>)
        requires
            old(self).wf(),
            old(self)@.procedure is Some,
            args_view(args@) == proc_args(old(self)@),
            args@.len() < usize::MAX,
            vars.wf(),
            vars_wf(vars@),
            old(self)@.label_counter + expr_labels(expr_view(*expr)) <= usize::MAX,
        ensures
            final(self).wf(),
            final(self)@ == expr_code(old(self)@, expr_view(*expr), vars@),
            final(self)@.label_counter == old(self)@.label_counter + expr_labels(expr_view(*expr)),
            same_frame(final(self)@, old(self)@),
        decreases expr,
    {
        let ghost s0 = self@;
        match expr {
            Expression::Number(n) => {
                self.emit_instr(Opcode::Mov, Mode::ImmToReg, Register::AL, Register::AL);
                self.emit_word(*n as u16);
                assert(self@ =~= expr_code(s0, expr_view(*expr), vars@));
            },
            Expression::CString(c) => {
                self.emit_instr(Opcode::Mov, Mode::ImmToReg, Register::AL, Register::AL);
                let l = numbered_label(".str ", *c, "");
                proof {
                    reveal_strlit("");
                }
                self.emit_label(l.as_str());
                assert(self@ =~= expr_code(s0, expr_view(*expr), vars@));
            },
            Expression::Variable(vu) => {
                self.emit_read(&vu.name, vars, args);
                match &vu.deref_offset {
                    None => {},
                    Some(off) => {
                        let ghost s1 = self@;
                        self.emit_instr(Opcode::Push, Mode::RegToReg, Register::AL, Register::AL);
                        self.gen_expr(off, vars, args);
                        let ghost s2 = self@;
                        self.emit_instr(Opcode::Pop, Mode::RegToReg, Register::BL, Register::AL);
                        self.emit_instr(Opcode::Add, Mode::RegToReg, Register::AL, Register::BL);
                        self.emit_instr(Opcode::Mov, Mode::MemrToReg, Register::AL, Register::AL);
                        assert(self@ =~= emit(
                            s2,
                            seq![
                                ins(Opcode::Pop, Mode::RegToReg, Register::BL, Register::AL),
                                ins(Opcode::Add, Mode::RegToReg, Register::AL, Register::BL),
                                ins(Opcode::Mov, Mode::MemrToReg, Register::AL, Register::AL),
                            ],
                        ));
                    },
                }
            },
            Expression::VariableAddr(name) => {
                self.emit_addr(name, vars, args);
            },
            Expression::Expr(inner) => {
                self.gen_expr(inner, vars, args);
            },
            Expression::BinaryOp { op, left, right } => {
                self.gen_expr(right, vars, args);
                self.emit_instr(Opcode::Push, Mode::RegToReg, Register::AL, Register::AL);
                self.gen_expr(left, vars, args);
                self.emit_instr(Opcode::Pop, Mode::RegToReg, Register::BL, Register::AL);
                self.gen_op(*op);
            },
        }
    }
}


// ===========================> Statements <===========================

/// The number of words a variable takes on the stack: an array takes a
/// pointer word besides its data.
pub open spec fn var_size(t: VarType) -> nat {
    match t {
        VarType::Word => 1,
        VarType::Array(s) => (1 + s) as nat,
    }
}

impl VarType {
    /// The number of words a variable of this type takes on the stack.
    pub fn get_size_in_words(&self) -> (r: u16)
        requires
            var_size(*self) <= 0xffff,
        ensures
            r == var_size(*self),
    {
        match self {
            VarType::Word => 1,
            VarType::Array(size) => 1 + *size,
        }
    }
}

/// The labels of the calls' arguments from `i` on.
pub open spec fn exprs_labels(args: Seq<ExprV>, i: int) -> nat
    decreases args.len() - i,
{
    if i < 0 || i >= args.len() {
        0
    } else {
        expr_labels(args[i]) + exprs_labels(args, i + 1)
    }
}

/// The number of label numbers a statement takes.
pub open spec fn stmt_labels(n: NodeV) -> nat
    decreases n, 0int,
{
    match n {
        NodeV::If(cond, b, eb) => 1 + expr_labels(cond) + block_labels(*b) + match eb {
            Some(e) => block_labels(*e),
            None => 0,
        },
        NodeV::Loop(b) => 1 + block_labels(*b),
        NodeV::FnCall(_, args) => exprs_labels(args, 0),
        NodeV::VariableSet(_, off, e) => expr_labels(e) + match off {
            Some(o) => expr_labels(o),
            None => 0,
        },
        _ => 0,
    }
}

/// The number of label numbers a block takes.
pub open spec fn block_labels(b: NodeV) -> nat
    decreases b, 1int,
{
    match b {
        NodeV::Block(ch) => stmts_labels(ch, 0),
        _ => 0,
    }
}

/// The number of label numbers the statements from `i` on take.
pub open spec fn stmts_labels(ch: Seq<NodeV>, i: int) -> nat
    decreases ch, ch.len() - i,
{
    if i < 0 || i >= ch.len() {
        0
    } else {
        stmt_labels(ch[i]) + stmts_labels(ch, i + 1)
    }
}

/// The number of stack words the variables of a statement take.
pub open spec fn stmt_stack(n: NodeV) -> nat
    decreases n, 0int,
{
    match n {
        NodeV::If(_, b, eb) => block_stack(*b) + match eb {
            Some(e) => block_stack(*e),
            None => 0,
        },
        NodeV::Loop(b) => block_stack(*b),
        NodeV::Variable(_, t) => var_size(t),
        _ => 0,
    }
}

/// The number of stack words the variables of a block take.
pub open spec fn block_stack(b: NodeV) -> nat
    decreases b, 1int,
{
    match b {
        NodeV::Block(ch) => stmts_stack(ch, 0),
        _ => 0,
    }
}

/// The number of stack words the variables of the statements from `i` on
/// take.
pub open spec fn stmts_stack(ch: Seq<NodeV>, i: int) -> nat
    decreases ch, ch.len() - i,
{
    if i < 0 || i >= ch.len() {
        0
    } else {
        stmt_stack(ch[i]) + stmts_stack(ch, i + 1)
    }
}

/// A statement the generator accepts: not a block or a procedure, with
/// blocks where blocks belong, and `STOP` only inside a loop.
pub open spec fn stmt_ok(n: NodeV, in_loop: bool) -> bool
    decreases n, 0int,
{
    match n {
        NodeV::Block(_) => false,
        NodeV::Procedure(_, _, _) => false,
        NodeV::If(_, b, eb) => block_ok(*b, in_loop) && match eb {
            Some(e) => block_ok(*e, in_loop),
            None => true,
        },
        NodeV::Loop(b) => block_ok(*b, true),
        NodeV::Stop => in_loop,
        _ => true,
    }
}

/// A block the generator accepts.
pub open spec fn block_ok(b: NodeV, in_loop: bool) -> bool
    decreases b, 1int,
{
    match b {
        NodeV::Block(ch) => stmts_ok(ch, 0, in_loop),
        _ => false,
    }
}

/// The statements from `i` on are accepted.
pub open spec fn stmts_ok(ch: Seq<NodeV>, i: int, in_loop: bool) -> bool
    decreases ch, ch.len() - i,
{
    if i < 0 || i >= ch.len() {
        true
    } else {
        stmt_ok(ch[i], in_loop) && stmts_ok(ch, i + 1, in_loop)
    }
}

/// The code of the arguments of a call from `i` on: each is computed and
/// pushed.
pub open spec fn args_code(st: CodegenV, args: Seq<ExprV>, i: int, vars: Map<Seq<char>, u16>) -> CodegenV
    decreases args.len() - i,
{
    if i < 0 || i >= args.len() {
        st
    } else {
        args_code(
            emit(
                expr_code(st, args[i], vars),
                seq![ins(Opcode::Push, Mode::RegToReg, Register::AL, Register::AL)],
            ),
            args,
            i + 1,
            vars,
        )
    }
}

/// The code that declares a variable on the stack, the stack holding
/// `stack` words.
pub open spec fn declare_code(t: VarType, stack: u16) -> Seq<CommandV> {
    match t {
        VarType::Word => seq![
            ins(Opcode::Mov, Mode::ImmToMemra, Register::BP, Register::BP),
            CommandV::Word(neg_word(stack + 1)),
            CommandV::Word(0),
        ],
        VarType::Array(s) => seq![
            ins(Opcode::Mov, Mode::RegToMemra, Register::BP, Register::BP),
            CommandV::Word(neg_word(stack + s + 1)),
            ins(Opcode::Sub, Mode::ImmToMemra, Register::BP, Register::BP),
            CommandV::Word(neg_word(stack + s + 1)),
            CommandV::Word(neg_word(stack + s)),
        ],
    }
}

/// The offset of a newly declared variable.
pub open spec fn declare_offset(t: VarType, stack: u16) -> u16 {
    match t {
        VarType::Word => stack,
        VarType::Array(s) => (stack + s) as u16,
    }
}

/// The name of the procedure being generated.
pub open spec fn proc_name(st: CodegenV) -> Seq<char> {
    match st.procedure {
        Some((name, _)) => name,
        None => seq![],
    }
}

/// The code of a statement, with the variables and the stack size before
/// it; gives the state, the variables and the stack size after it.
pub open spec fn stmt_code(st: CodegenV, n: NodeV, vars: Map<Seq<char>, u16>, stack: u16) -> (
    CodegenV,
    Map<Seq<char>, u16>,
    u16,
)
    decreases n, 0int,
{
    let args = proc_args(st);
    match n {
        NodeV::If(cond, b, eb) => {
            let id = st.label_counter;
            let else_l = numbered(".if else "@, id, seq![]);
            let end_l = numbered(".if end "@, id, seq![]);
            let s1 = expr_code(bump(st), cond, vars);
            let s2 = emit(
                s1,
                seq![
                    ins(Opcode::Cmp, Mode::ImmToReg, Register::AL, Register::AL),
                    CommandV::Word(0),
                    ins(Opcode::Je, Mode::ImmToReg, Register::AL, Register::AL),
                    CommandV::Label(
                        if eb is Some {
                            else_l
                        } else {
                            end_l
                        },
                    ),
                ],
            );
            let (s3, k3) = block_code(s2, *b, vars, stack);
            match eb {
                Some(e) => {
                    let s4 = set_label(
                        emit(
                            s3,
                            seq![
                                ins(Opcode::Jmp, Mode::ImmToReg, Register::AL, Register::AL),
                                CommandV::Label(end_l),
                            ],
                        ),
                        else_l,
                    );
                    let (s5, k5) = block_code(s4, *e, vars, k3);
                    (set_label(s5, end_l), vars, k5)
                },
                None => (set_label(s3, end_l), vars, k3),
            }
        },
        NodeV::Loop(b) => {
            let id = st.label_counter;
            let start = numbered(".loop "@, id, seq![]);
            let s1 = set_label(bump(st), start);
            let (s2, k2) = block_code(CodegenV { loops: s1.loops.push(id), ..s1 }, *b, vars, stack);
            let s3 = emit(
                CodegenV { loops: s2.loops.drop_last(), ..s2 },
                seq![
                    ins(Opcode::Jmp, Mode::ImmToReg, Register::AL, Register::AL),
                    CommandV::Label(start),
                ],
            );
            (set_label(s3, numbered(".loop "@, id, " out"@)), vars, k2)
        },
        NodeV::FnCall(name, call_args) => (
            emit(
                args_code(st, call_args, 0, vars),
                seq![
                    ins(Opcode::Call, Mode::ImmToReg, Register::AL, Register::AL),
                    CommandV::Label(name),
                ],
            ),
            vars,
            stack,
        ),
        NodeV::Variable(name, t) => (
            emit(st, declare_code(t, stack)),
            vars.insert(name, declare_offset(t, stack)),
            (stack + var_size(t)) as u16,
        ),
        NodeV::VariableSet(name, off, e) => {
            let place = place_of(name, vars, args);
            match off {
                Some(o) => {
                    let s1 = emit(
                        expr_code(st, o, vars),
                        seq![ins(Opcode::Push, Mode::RegToReg, Register::AL, Register::AL)],
                    );
                    let s2 = emit(
                        emit(s1, read_code(name, place, args)),
                        seq![
                            ins(Opcode::Pop, Mode::RegToReg, Register::BL, Register::AL),
                            ins(Opcode::Add, Mode::RegToReg, Register::AL, Register::BL),
                            ins(Opcode::Push, Mode::RegToReg, Register::AL, Register::AL),
                        ],
                    );
                    (
                        emit(
                            expr_code(s2, e, vars),
                            seq![
                                ins(Opcode::Pop, Mode::RegToReg, Register::BL, Register::AL),
                                ins(Opcode::Mov, Mode::RegToMemr, Register::BL, Register::AL),
                            ],
                        ),
                        vars,
                        stack,
                    )
                },
                None => (emit(expr_code(st, e, vars), write_code(name, place, args)), vars, stack),
            }
        },
        NodeV::Return => (
            emit(
                st,
                seq![
                    ins(Opcode::Jmp, Mode::ImmToReg, Register::AL, Register::AL),
                    CommandV::Label(proc_name(st) + " .out"@),
                ],
            ),
            vars,
            stack,
        ),
        NodeV::Stop => (
            emit(
                st,
                seq![
                    ins(Opcode::Jmp, Mode::ImmToReg, Register::AL, Register::AL),
                    CommandV::Label(numbered(".loop "@, st.loops.last(), " out"@)),
                ],
            ),
            vars,
            stack,
        ),
        _ => (st, vars, stack),
    }
}

/// The code of a block; its variables end with it.
pub open spec fn block_code(st: CodegenV, b: NodeV, vars: Map<Seq<char>, u16>, stack: u16) -> (
    CodegenV,
    u16,
)
    decreases b, 1int,
{
    match b {
        NodeV::Block(ch) => stmts_code(st, ch, 0, vars, stack),
        _ => (st, stack),
    }
}

/// The code of the statements of a block from `i` on.
pub open spec fn stmts_code(
    st: CodegenV,
    ch: Seq<NodeV>,
    i: int,
    vars: Map<Seq<char>, u16>,
    stack: u16,
) -> (CodegenV, u16)
    decreases ch, ch.len() - i,
{
    if i < 0 || i >= ch.len() {
        (st, stack)
    } else {
        let (s1, v1, k1) = stmt_code(st, ch[i], vars, stack);
        stmts_code(s1, ch, i + 1, v1, k1)
    }
}


/// What the generation of a statement keeps: the frame, and how many label
/// numbers it takes.
pub open spec fn stmt_done(a: CodegenV, b: CodegenV, n: NodeV) -> bool {
    same_frame(b, a) && b.label_counter == a.label_counter + stmt_labels(n)
}

impl Codegen {
    /// Emits the pushes of the arguments of a call.
    fn gen_call_args(&mut self, call_args: &Vec<Expression>, vars: &NameMap<u16>, args: &Vec<String>)
        requires
            old(self).wf(),
            old(self)@.procedure is Some,
            args_view(args@) == proc_args(old(self)@),
            args@.len() < usize::MAX,
            vars.wf(),
            vars_wf(vars@),
            old(self)@.label_counter + exprs_labels(crate::compiler::parser::exprs_view(call_args@), 0)
                <= usize::MAX,
        ensures
            final(self).wf(),
            final(self)@ == args_code(old(self)@, crate::compiler::parser::exprs_view(call_args@), 0, vars@),
            final(self)@.label_counter == old(self)@.label_counter + exprs_labels(
                crate::compiler::parser::exprs_view(call_args@),
                0,
            ),
            same_frame(final(self)@, old(self)@),
    {
        let ghost es = crate::compiler::parser::exprs_view(call_args@);
        let ghost s0 = self@;
        let mut i: usize = 0;
        while i < call_args.len()
            invariant
                es == crate::compiler::parser::exprs_view(call_args@),
                i <= call_args@.len(),
                self.wf(),
                self@.procedure is Some,
                args_view(args@) == proc_args(self@),
                args@.len() < usize::MAX,
                vars.wf(),
                vars_wf(vars@),
                same_frame(self@, s0),
                args_code(s0, es, 0, vars@) == args_code(self@, es, i as int, vars@),
                self@.label_counter == s0.label_counter + (exprs_labels(es, 0) - exprs_labels(
                    es,
                    i as int,
                )),
                s0.label_counter + exprs_labels(es, 0) <= usize::MAX,
                exprs_labels(es, i as int) <= exprs_labels(es, 0),
            decreases call_args@.len() - i,
        {
            assert(es[i as int] == expr_view(call_args@[i as int]));
            self.gen_expr(&call_args[i], vars, args);
            self.emit_instr(Opcode::Push, Mode::RegToReg, Register::AL, Register::AL);
            i += 1;
        }
    }

    /// Emits a call.
    fn gen_fncall(&mut self, name: &String, call_args: &Vec<Expression>, vars: &NameMap<u16>, args: &Vec<String>)
        requires
            old(self).wf(),
            old(self)@.procedure is Some,
            args_view(args@) == proc_args(old(self)@),
            args@.len() < usize::MAX,
            vars.wf(),
            vars_wf(vars@),
            old(self)@.label_counter + exprs_labels(crate::compiler::parser::exprs_view(call_args@), 0)
                <= usize::MAX,
        ensures
            final(self).wf(),
            final(self)@ == emit(
                args_code(old(self)@, crate::compiler::parser::exprs_view(call_args@), 0, vars@),
                seq![
                    ins(Opcode::Call, Mode::ImmToReg, Register::AL, Register::AL),
                    CommandV::Label(name@),
                ],
            ),
            final(self)@.label_counter == old(self)@.label_counter + exprs_labels(
                crate::compiler::parser::exprs_view(call_args@),
                0,
            ),
            same_frame(final(self)@, old(self)@),
    {
        self.gen_call_args(call_args, vars, args);
        let ghost s1 = self@;
        self.emit_instr(Opcode::Call, Mode::ImmToReg, Register::AL, Register::AL);
        self.emit_label(name.as_str());
        assert(self@ =~= emit(
            s1,
            seq![
                ins(Opcode::Call, Mode::ImmToReg, Register::AL, Register::AL),
                CommandV::Label(name@),
            ],
        ));
    }

    /// Emits the declaration of a local variable.
    fn gen_declare(&mut self, name: &String, vtype: VarType, vars: &mut NameMap<u16>, stack_size: &mut u16)
        requires
            old(self).wf(),
            old(vars).wf(),
            vars_wf(old(vars)@),
            *old(stack_size) + var_size(vtype) <= 0xffff,
        ensures
            final(self).wf(),
            final(vars).wf(),
            vars_wf(final(vars)@),
            final(self)@ == emit(old(self)@, declare_code(vtype, *old(stack_size))),
            final(vars)@ == old(vars)@.insert(name@, declare_offset(vtype, *old(stack_size))),
            *final(stack_size) == *old(stack_size) + var_size(vtype),
    {
        let ghost s0 = self@;
        let stack = *stack_size;
        let off = match vtype {
            VarType::Word => {
                self.emit_instr(Opcode::Mov, Mode::ImmToMemra, Register::BP, Register::BP);
                self.emit_word(0u16.wrapping_sub(stack + 1));
                self.emit_word(0);
                stack
            },
            VarType::Array(s) => {
                let bp_off = 0u16.wrapping_sub(stack + s + 1);
                self.emit_instr(Opcode::Mov, Mode::RegToMemra, Register::BP, Register::BP);
                self.emit_word(bp_off);
                let bp_data_off = 0u16.wrapping_sub(stack + s);
                self.emit_instr(Opcode::Sub, Mode::ImmToMemra, Register::BP, Register::BP);
                self.emit_word(bp_off);
                self.emit_word(bp_data_off);
                stack + s
            },
        };
        assert(self@ =~= emit(s0, declare_code(vtype, stack)));
        vars.insert(name.clone(), off);
        *stack_size = stack + vtype.get_size_in_words();
    }

    /// Emits an assignment.
    fn gen_variable_set(&mut self, var: &VariableUse, expr: &Expression, vars: &NameMap<u16>, args: &Vec<String>)
        requires
            old(self).wf(),
            old(self)@.procedure is Some,
            args_view(args@) == proc_args(old(self)@),
            args@.len() < usize::MAX,
            vars.wf(),
            vars_wf(vars@),
            old(self)@.label_counter + stmt_labels(
                node_view(ASTNode::VariableSet { var: *var, expr: *expr }),
            ) <= usize::MAX,
        ensures
            final(self).wf(),
            (final(self)@, vars@, 0u16) == stmt_code(
                old(self)@,
                node_view(ASTNode::VariableSet { var: *var, expr: *expr }),
                vars@,
                0,
            ),
            stmt_done(old(self)@, final(self)@, node_view(ASTNode::VariableSet { var: *var, expr: *expr })),
    {
        let ghost s0 = self@;
        match &var.deref_offset {
            Some(off) => {
                self.gen_expr(off, vars, args);
                self.emit_instr(Opcode::Push, Mode::RegToReg, Register::AL, Register::AL);
                let ghost s1 = self@;
                self.emit_read(&var.name, vars, args);
                let ghost s2 = self@;
                self.emit_instr(Opcode::Pop, Mode::RegToReg, Register::BL, Register::AL);
                self.emit_instr(Opcode::Add, Mode::RegToReg, Register::AL, Register::BL);
                self.emit_instr(Opcode::Push, Mode::RegToReg, Register::AL, Register::AL);
                assert(self@ =~= emit(
                    s2,
                    seq![
                        ins(Opcode::Pop, Mode::RegToReg, Register::BL, Register::AL),
                        ins(Opcode::Add, Mode::RegToReg, Register::AL, Register::BL),
                        ins(Opcode::Push, Mode::RegToReg, Register::AL, Register::AL),
                    ],
                ));
                self.gen_expr(expr, vars, args);
                let ghost s3 = self@;
                self.emit_instr(Opcode::Pop, Mode::RegToReg, Register::BL, Register::AL);
                self.emit_instr(Opcode::Mov, Mode::RegToMemr, Register::BL, Register::AL);
                assert(self@ =~= emit(
                    s3,
                    seq![
                        ins(Opcode::Pop, Mode::RegToReg, Register::BL, Register::AL),
                        ins(Opcode::Mov, Mode::RegToMemr, Register::BL, Register::AL),
                    ],
                ));
            },
            None => {
                self.gen_expr(expr, vars, args);
                self.emit_write(&var.name, vars, args);
            },
        }
    }
}


/// The common requirements of the generation of a part of a procedure.
pub open spec fn gen_ready(st: CodegenV, args: Seq<String>, vars: Map<Seq<char>, u16>) -> bool {
    &&& st.procedure is Some
    &&& args_view(args) == proc_args(st)
    &&& args.len() < usize::MAX
    &&& vars_wf(vars)
}

impl Codegen {
    /// Emits the code of a block, with the variables and stack size before
    /// it.
    #[verifier::spinoff_prover]
    #[verifier::rlimit(50)]
    fn gen_block(&mut self, block: &ASTNode, vars: &NameMap<u16>, stack_size: &mut u16, args: &Vec<String>)
        requires
            old(self).wf(),
            vars.wf(),
            gen_ready(old(self)@, args@, vars@),
            block_ok(node_view(*block), old(self)@.loops.len() > 0),
            old(self)@.label_counter + block_labels(node_view(*block)) <= usize::MAX,
            *old(stack_size) + block_stack(node_view(*block)) <= 0xffff,
        ensures
            final(self).wf(),
            (final(self)@, *final(stack_size)) == block_code(
                old(self)@,
                node_view(*block),
                vars@,
                *old(stack_size),
            ),
            same_frame(final(self)@, old(self)@),
            final(self)@.label_counter == old(self)@.label_counter + block_labels(node_view(*block)),
            *final(stack_size) == *old(stack_size) + block_stack(node_view(*block)),
        decreases block, 2int,
    {
        let ghost s0 = self@;
        let ghost k0 = *stack_size;
        let ghost in_loop = self@.loops.len() > 0;
        match block {
            ASTNode::Block { children } => {
                let ghost ch = nodes_view(children@);
                assert(node_view(*block) == NodeV::Block(ch)) by {
                    if let NodeV::Block(c) = node_view(*block) {
                        assert(c =~= ch);
                    }
                }
                let mut local = vars.copy();
                let mut i: usize = 0;
                while i < children.len()
                    invariant
                        ch == nodes_view(children@),
                        node_view(*block) == NodeV::Block(ch),
                        block->children == *children,
                        i <= children@.len(),
                        self.wf(),
                        local.wf(),
                        gen_ready(self@, args@, local@),
                        in_loop == (self@.loops.len() > 0),
                        same_frame(self@, s0),
                        stmts_ok(ch, i as int, in_loop),
                        stmts_code(s0, ch, 0, vars@, k0) == stmts_code(
                            self@,
                            ch,
                            i as int,
                            local@,
                            *stack_size,
                        ),
                        self@.label_counter + stmts_labels(ch, i as int) == s0.label_counter
                            + stmts_labels(ch, 0),
                        s0.label_counter + stmts_labels(ch, 0) <= usize::MAX,
                        *stack_size + stmts_stack(ch, i as int) == k0 + stmts_stack(ch, 0),
                        k0 + stmts_stack(ch, 0) <= 0xffff,
                    decreases children@.len() - i,
                {
                    assert(ch[i as int] == node_view(children@[i as int]));
                    assert(decreases_to!(*block => children@[i as int])) by {
                        assert(decreases_to!(*block => *children));
                        assert(decreases_to!(*children => children@));
                        assert(decreases_to!(children@ => children@[i as int]));
                    }
                    self.gen_statement(&children[i], &mut local, stack_size, args);
                    i += 1;
                }
            },
            _ => {},
        }
    }

    /// Emits the code of a statement.
    #[verifier::spinoff_prover]
    #[verifier::rlimit(50)]
    fn gen_statement(&mut self, node: &ASTNode, vars: &mut NameMap<u16>, stack_size: &mut u16, args: &Vec<String>)
        requires
            old(self).wf(),
            old(vars).wf(),
            gen_ready(old(self)@, args@, old(vars)@),
            stmt_ok(node_view(*node), old(self)@.loops.len() > 0),
            old(self)@.label_counter + stmt_labels(node_view(*node)) <= usize::MAX,
            *old(stack_size) + stmt_stack(node_view(*node)) <= 0xffff,
        ensures
            final(self).wf(),
            final(vars).wf(),
            vars_wf(final(vars)@),
            (final(self)@, final(vars)@, *final(stack_size)) == stmt_code(
                old(self)@,
                node_view(*node),
                old(vars)@,
                *old(stack_size),
            ),
            stmt_done(old(self)@, final(self)@, node_view(*node)),
            *final(stack_size) == *old(stack_size) + stmt_stack(node_view(*node)),
        decreases node, 1int,
    {
        let ghost s0 = self@;
        match node {
            ASTNode::If { .. } => {
                self.gen_if(node, vars, stack_size, args);
            },
            ASTNode::Loop { .. } => {
                self.gen_loop(node, vars, stack_size, args);
            },
            ASTNode::FnCall { name, args: call_args } => {
                self.gen_fncall(name, call_args, vars, args);
            },
            ASTNode::Variable { name, vtype } => {
                self.gen_declare(name, *vtype, vars, stack_size);
            },
            ASTNode::VariableSet { var, expr } => {
                self.gen_variable_set(var, expr, vars, args);
            },
            ASTNode::Return => {
                let label = match &self.current_procedure {
                    Some((name, _)) => {
                        let mut l = name.clone();
                        l.append(" .out");
                        l
                    },
                    None => String::new(),
                };
                self.emit_instr(Opcode::Jmp, Mode::ImmToReg, Register::AL, Register::AL);
                self.emit_label(label.as_str());
                assert(self@ =~= emit(
                    s0,
                    seq![
                        ins(Opcode::Jmp, Mode::ImmToReg, Register::AL, Register::AL),
                        CommandV::Label(proc_name(s0) + " .out"@),
                    ],
                ));
            },
            ASTNode::Stop => {
                let id = match self.get_current_loop() {
                    Some(id) => id,
                    None => 0,
                };
                let label = numbered_label(".loop ", id, " out");
                self.emit_instr(Opcode::Jmp, Mode::ImmToReg, Register::AL, Register::AL);
                self.emit_label(label.as_str());
                assert(self@ =~= emit(
                    s0,
                    seq![
                        ins(Opcode::Jmp, Mode::ImmToReg, Register::AL, Register::AL),
                        CommandV::Label(numbered(".loop "@, s0.loops.last(), " out"@)),
                    ],
                ));
            },
            _ => {},
        }
    }

    /// Emits `IF`: the condition, a jump over the block when it is zero, the
    /// block, and the `ELSE` block.
    #[verifier::spinoff_prover]
    #[verifier::rlimit(50)]
    fn gen_if(&mut self, node: &ASTNode, vars: &NameMap<u16>, stack_size: &mut u16, args: &Vec<String>)
        requires
            node is If,
            old(self).wf(),
            vars.wf(),
            gen_ready(old(self)@, args@, vars@),
            stmt_ok(node_view(*node), old(self)@.loops.len() > 0),
            old(self)@.label_counter + stmt_labels(node_view(*node)) <= usize::MAX,
            *old(stack_size) + stmt_stack(node_view(*node)) <= 0xffff,
        ensures
            final(self).wf(),
            (final(self)@, vars@, *final(stack_size)) == stmt_code(
                old(self)@,
                node_view(*node),
                vars@,
                *old(stack_size),
            ),
            stmt_done(old(self)@, final(self)@, node_view(*node)),
            *final(stack_size) == *old(stack_size) + stmt_stack(node_view(*node)),
        decreases node, 0int,
    {
        let ghost s0 = self@;
        match node {
            ASTNode::If { expr, block, else_block } => {
                let l_id = self.next_label_id();
                let else_lbl = numbered_label(".if else ", l_id, "");
                let end_lbl = numbered_label(".if end ", l_id, "");
                proof {
                    reveal_strlit("");
                }
                self.gen_expr(expr, vars, args);
                let ghost s1 = self@;
                self.emit_instr(Opcode::Cmp, Mode::ImmToReg, Register::AL, Register::AL);
                self.emit_word(0);
                self.emit_instr(Opcode::Je, Mode::ImmToReg, Register::AL, Register::AL);
                match else_block {
                    Some(_) => self.emit_label(else_lbl.as_str()),
                    None => self.emit_label(end_lbl.as_str()),
                }
                assert(self@ =~= emit(
                    s1,
                    seq![
                        ins(Opcode::Cmp, Mode::ImmToReg, Register::AL, Register::AL),
                        CommandV::Word(0),
                        ins(Opcode::Je, Mode::ImmToReg, Register::AL, Register::AL),
                        CommandV::Label(
                            if else_block is Some {
                                else_lbl@
                            } else {
                                end_lbl@
                            },
                        ),
                    ],
                ));
                self.gen_block(block, vars, stack_size, args);
                match else_block {
                    Some(e) => {
                        let ghost s3 = self@;
                        self.emit_instr(Opcode::Jmp, Mode::ImmToReg, Register::AL, Register::AL);
                        self.emit_label(end_lbl.as_str());
                        assert(self@ =~= emit(
                            s3,
                            seq![
                                ins(Opcode::Jmp, Mode::ImmToReg, Register::AL, Register::AL),
                                CommandV::Label(end_lbl@),
                            ],
                        ));
                        self.set_label(else_lbl.as_str());
                        self.gen_block(e, vars, stack_size, args);
                    },
                    None => {},
                }
                self.set_label(end_lbl.as_str());
            },
            _ => {},
        }
    }

    /// Emits `LOOP`: a label, the block, and a jump back.
    #[verifier::spinoff_prover]
    #[verifier::rlimit(50)]
    fn gen_loop(&mut self, node: &ASTNode, vars: &NameMap<u16>, stack_size: &mut u16, args: &Vec<String>)
        requires
            node is Loop,
            old(self).wf(),
            vars.wf(),
            gen_ready(old(self)@, args@, vars@),
            stmt_ok(node_view(*node), old(self)@.loops.len() > 0),
            old(self)@.label_counter + stmt_labels(node_view(*node)) <= usize::MAX,
            *old(stack_size) + stmt_stack(node_view(*node)) <= 0xffff,
        ensures
            final(self).wf(),
            (final(self)@, vars@, *final(stack_size)) == stmt_code(
                old(self)@,
                node_view(*node),
                vars@,
                *old(stack_size),
            ),
            stmt_done(old(self)@, final(self)@, node_view(*node)),
            *final(stack_size) == *old(stack_size) + stmt_stack(node_view(*node)),
        decreases node, 0int,
    {
        let ghost s0 = self@;
        match node {
            ASTNode::Loop { block } => {
                let l_id = self.next_label_id();
                let lbl_start = numbered_label(".loop ", l_id, "");
                proof {
                    reveal_strlit("");
                }
                self.set_label(lbl_start.as_str());
                self.current_loop_id_stack.push(l_id);
                self.gen_block(block, vars, stack_size, args);
                let ghost s2 = self@;
                self.current_loop_id_stack.pop();
                assert(self@ =~= (CodegenV { loops: s2.loops.drop_last(), ..s2 }));
                assert(self@.loops =~= s0.loops);
                let ghost s3 = self@;
                self.emit_instr(Opcode::Jmp, Mode::ImmToReg, Register::AL, Register::AL);
                self.emit_label(lbl_start.as_str());
                assert(self@ =~= emit(
                    s3,
                    seq![
                        ins(Opcode::Jmp, Mode::ImmToReg, Register::AL, Register::AL),
                        CommandV::Label(lbl_start@),
                    ],
                ));
                let out = numbered_label(".loop ", l_id, " out");
                self.set_label(out.as_str());
            },
            _ => {},
        }
    }
}


// ===========================> Procedures <===========================

/// The words that save the callee-saved registers.
pub open spec fn save_registers() -> Seq<CommandV> {
    seq![
        ins(Opcode::Push, Mode::RegToReg, Register::AL, Register::AL),
        ins(Opcode::Push, Mode::RegToReg, Register::AL, Register::AH),
        ins(Opcode::Push, Mode::RegToReg, Register::AL, Register::BL),
        ins(Opcode::Push, Mode::RegToReg, Register::AL, Register::BH),
        ins(Opcode::Push, Mode::RegToReg, Register::AL, Register::CL),
        ins(Opcode::Push, Mode::RegToReg, Register::AL, Register::CH),
    ]
}

/// The words that restore the callee-saved registers and leave the frame.
pub open spec fn restore_registers() -> Seq<CommandV> {
    seq![
        ins(Opcode::Pop, Mode::RegToReg, Register::CH, Register::AL),
        ins(Opcode::Pop, Mode::RegToReg, Register::CL, Register::AL),
        ins(Opcode::Pop, Mode::RegToReg, Register::BH, Register::AL),
        ins(Opcode::Pop, Mode::RegToReg, Register::BL, Register::AL),
        ins(Opcode::Pop, Mode::RegToReg, Register::AH, Register::AL),
        ins(Opcode::Pop, Mode::RegToReg, Register::AL, Register::AL),
        ins(Opcode::Leave, Mode::RegToReg, Register::AL, Register::AL),
    ]
}

/// The return: plain, or dropping the arguments.
pub open spec fn return_code(n_args: nat) -> Seq<CommandV> {
    if n_args == 0 {
        seq![ins(Opcode::Ret, Mode::RegToReg, Register::AL, Register::AL)]
    } else {
        seq![ins(Opcode::Ret, Mode::ImmToReg, Register::AL, Register::AL), CommandV::Word(n_args as u16)]
    }
}

/// The code of a procedure: its label, a frame as large as its variables,
/// the callee-saved registers, its block, the exit label, and the return.
pub open spec fn procedure_code(st: CodegenV, name: Seq<char>, args: Seq<Seq<char>>, b: NodeV) -> CodegenV {
    let s1 = set_label(CodegenV { procedure: Some((name, args)), ..st }, name);
    let s2 = emit(
        s1,
        seq![ins(Opcode::Enter, Mode::ImmToReg, Register::AL, Register::AL), CommandV::Word(0)],
    );
    let frame = s2.commands.len() - 1;
    let (s3, k) = block_code(emit(s2, save_registers()), b, Map::empty(), 0);
    let s4 = CodegenV { commands: s3.commands.update(frame, CommandV::Word(k)), ..s3 };
    emit(set_label(s4, name + " .out"@), restore_registers() + return_code(args.len()))
}

/// A procedure the generator accepts.
pub open spec fn procedure_ok(args: Seq<Seq<char>>, b: NodeV) -> bool {
    &&& args.len() < usize::MAX
    &&& block_ok(b, false)
    &&& block_stack(b) <= 0xffff
}

/// A copy of a list of strings.
fn copy_strings(v: &Vec<String>) -> (r: Vec<String>)
    ensures
        args_view(r@) == args_view(v@),
{
    let mut r: Vec<String> = Vec::new();
    let mut i: usize = 0;
    while i < v.len()
        invariant
            i <= v@.len(),
            args_view(r@) == args_view(v@).take(i as int),
        decreases v@.len() - i,
    {
        let ghost before = r@;
        r.push(v[i].clone());
        assert(args_view(r@) =~= args_view(before).push(v@[i as int]@));
        assert(args_view(v@).take(i + 1) =~= args_view(v@).take(i as int).push(args_view(v@)[i as int]));
        i += 1;
    }
    assert(args_view(v@).take(v@.len() as int) =~= args_view(v@));
    r
}

impl Codegen {
    /// Emits a procedure.
    #[verifier::spinoff_prover]
    #[verifier::rlimit(50)]
    fn gen_procedure(&mut self, name: &String, args: &Vec<String>, block: &ASTNode)
        requires
            old(self).wf(),
            old(self)@.loops.len() == 0,
            procedure_ok(args_view(args@), node_view(*block)),
            old(self)@.label_counter + block_labels(node_view(*block)) <= usize::MAX,
        ensures
            final(self).wf(),
            final(self)@ == procedure_code(old(self)@, name@, args_view(args@), node_view(*block)),
            final(self)@.loops.len() == 0,
            final(self)@.label_counter == old(self)@.label_counter + block_labels(node_view(*block)),
    {
        let ghost s0 = self@;
        let own_args = copy_strings(args);
        self.current_procedure = Some((name.clone(), own_args));
        assert(self@ =~= (CodegenV { procedure: Some((name@, args_view(args@))), ..s0 }));
        self.set_label(name.as_str());
        let ghost s1 = self@;
        self.emit_instr(Opcode::Enter, Mode::ImmToReg, Register::AL, Register::AL);
        self.emit_word(0);
        assert(self@ =~= emit(
            s1,
            seq![ins(Opcode::Enter, Mode::ImmToReg, Register::AL, Register::AL), CommandV::Word(0)],
        ));
        let frame_size_addr = self.commands.len() - 1;
        let ghost s2 = self@;
        self.emit_instr(Opcode::Push, Mode::RegToReg, Register::AL, Register::AL);
        self.emit_instr(Opcode::Push, Mode::RegToReg, Register::AL, Register::AH);
        self.emit_instr(Opcode::Push, Mode::RegToReg, Register::AL, Register::BL);
        self.emit_instr(Opcode::Push, Mode::RegToReg, Register::AL, Register::BH);
        self.emit_instr(Opcode::Push, Mode::RegToReg, Register::AL, Register::CL);
        self.emit_instr(Opcode::Push, Mode::RegToReg, Register::AL, Register::CH);
        assert(self@ =~= emit(s2, save_registers()));
        let var_map: NameMap<u16> = NameMap::new();
        let mut stack_size: u16 = 0;
        self.gen_block(block, &var_map, &mut stack_size, args);
        let ghost s3 = self@;
        let ghost cmds = self.commands@;
        self.commands.set(frame_size_addr, Command::Word(stack_size));
        assert(commands_view(self.commands@) =~= s3.commands.update(
            frame_size_addr as int,
            CommandV::Word(stack_size),
        ));
        let mut out = name.clone();
        out.append(" .out");
        self.set_label(out.as_str());
        let ghost s4 = self@;
        self.emit_instr(Opcode::Pop, Mode::RegToReg, Register::CH, Register::AL);
        self.emit_instr(Opcode::Pop, Mode::RegToReg, Register::CL, Register::AL);
        self.emit_instr(Opcode::Pop, Mode::RegToReg, Register::BH, Register::AL);
        self.emit_instr(Opcode::Pop, Mode::RegToReg, Register::BL, Register::AL);
        self.emit_instr(Opcode::Pop, Mode::RegToReg, Register::AH, Register::AL);
        self.emit_instr(Opcode::Pop, Mode::RegToReg, Register::AL, Register::AL);
        self.emit_instr(Opcode::Leave, Mode::RegToReg, Register::AL, Register::AL);
        if args.len() == 0 {
            self.emit_instr(Opcode::Ret, Mode::RegToReg, Register::AL, Register::AL);
        } else {
            self.emit_instr(Opcode::Ret, Mode::ImmToReg, Register::AL, Register::AL);
            self.emit_word(args.len() as u16);
        }
        assert(self@ =~= emit(s4, restore_registers() + return_code(args@.len())));
    }
}


// ===========================> Programs <===========================

/// The UTF-16 code units of a character.
pub open spec fn utf16_of_char(c: char) -> Seq<u16> {
    let v = c as u32;
    if v < 0x10000 {
        seq![v as u16]
    } else {
        seq![(0xD800 + (v - 0x10000) / 0x400) as u16, (0xDC00 + (v - 0x10000) % 0x400) as u16]
    }
}

/// The UTF-16 code units of a text, as `str::encode_utf16` gives them.
pub open spec fn utf16_of(s: Seq<char>) -> Seq<u16>
    decreases s.len(),
{
    if s.len() == 0 {
        seq![]
    } else {
        utf16_of(s.drop_last()) + utf16_of_char(s.last())
    }
}

/// The UTF-16 code units of a text.
fn utf16_units(s: &str) -> (r: Vec<u16>)
    ensures
        r@ == utf16_of(s@),
{
    let chars = crate::compiler::chars::chars_of(s);
    let mut r: Vec<u16> = Vec::new();
    let mut i: usize = 0;
    while i < chars.len()
        invariant
            i <= chars@.len(),
            chars@ == s@,
            r@ == utf16_of(chars@.take(i as int)),
        decreases chars@.len() - i,
    {
        let c = chars[i];
        let v = c as u32;
        let ghost before = r@;
        if v < 0x10000 {
            r.push(v as u16);
        } else {
            let w = v - 0x10000;
            let hi: u32 = 0xD800 + w / 0x400;
            let lo: u32 = 0xDC00 + w % 0x400;
            r.push(hi as u16);
            r.push(lo as u16);
        }
        assert(chars@.take(i + 1).drop_last() =~= chars@.take(i as int));
        assert(r@ =~= before + utf16_of_char(c));
        i += 1;
    }
    assert(chars@.take(chars@.len() as int) =~= chars@);
    r
}

/// `n` zero words.
pub open spec fn zeros(n: nat) -> Seq<CommandV> {
    Seq::new(n, |i: int| CommandV::Word(0))
}

/// The words a global variable takes.
pub open spec fn global_size(t: VarType) -> nat {
    match t {
        VarType::Word => 1,
        VarType::Array(s) => s as nat,
    }
}

/// The code of the procedures of the program from `i` on.
pub open spec fn procs_code(st: CodegenV, ast: Seq<NodeV>, i: int) -> CodegenV
    decreases ast.len() - i,
{
    if i < 0 || i >= ast.len() {
        st
    } else {
        match ast[i] {
            NodeV::Procedure(name, args, b) => procs_code(procedure_code(st, name, args, *b), ast, i + 1),
            _ => procs_code(st, ast, i + 1),
        }
    }
}

/// The global variables of the program from `i` on: a label and zero words
/// for each.
pub open spec fn globals_code(st: CodegenV, ast: Seq<NodeV>, i: int) -> CodegenV
    decreases ast.len() - i,
{
    if i < 0 || i >= ast.len() {
        st
    } else {
        match ast[i] {
            NodeV::Variable(name, t) => globals_code(emit(set_label(st, name), zeros(global_size(t))), ast, i + 1),
            _ => globals_code(st, ast, i + 1),
        }
    }
}

/// The words of a text: its UTF-16 code units.
pub open spec fn text_words(s: Seq<char>) -> Seq<CommandV> {
    utf16_of(s).map_values(|u: u16| CommandV::Word(u))
}

/// The string register from `i` on: a label `.str i` and the
/// zero-terminated UTF-16 units of each string.
pub open spec fn strings_code(st: CodegenV, strs: Seq<Seq<char>>, i: int) -> CodegenV
    decreases strs.len() - i,
{
    if i < 0 || i >= strs.len() {
        st
    } else {
        strings_code(
            emit(set_label(st, numbered(".str "@, i as usize, seq![])), text_words(strs[i]).push(CommandV::Word(0))),
            strs,
            i + 1,
        )
    }
}

/// The code of a program: its procedures, its global variables, and its
/// string register.
pub open spec fn ast_code(st: CodegenV, ast: Seq<NodeV>, strs: Seq<Seq<char>>) -> CodegenV {
    strings_code(globals_code(procs_code(st, ast, 0), ast, 0), strs, 0)
}

/// A program the generator accepts: procedures and variables only, each
/// procedure accepted.
pub open spec fn ast_ok(ast: Seq<NodeV>) -> bool {
    forall|i: int|
        0 <= i < ast.len() ==> match #[trigger] ast[i] {
            NodeV::Procedure(_, args, b) => procedure_ok(args, *b),
            NodeV::Variable(_, _) => true,
            _ => false,
        }
}

/// The number of label numbers the procedures from `i` on take.
pub open spec fn ast_labels(ast: Seq<NodeV>, i: int) -> nat
    decreases ast.len() - i,
{
    if i < 0 || i >= ast.len() {
        0
    } else {
        match ast[i] {
            NodeV::Procedure(_, _, b) => block_labels(*b) + ast_labels(ast, i + 1),
            _ => ast_labels(ast, i + 1),
        }
    }
}

/// The state of a new generator.
pub open spec fn initial_state() -> CodegenV {
    CodegenV { commands: seq![], labels: Map::empty(), label_counter: 0, loops: seq![], procedure: None }
}

impl Codegen {
    /// Emits the procedures of the program.
    fn gen_procedures(&mut self, ast: &Vec<ASTNode>)
        requires
            old(self).wf(),
            old(self)@.loops.len() == 0,
            ast_ok(nodes_view(ast@)),
            old(self)@.label_counter + ast_labels(nodes_view(ast@), 0) <= usize::MAX,
        ensures
            final(self).wf(),
            final(self)@ == procs_code(old(self)@, nodes_view(ast@), 0),
    {
        let ghost av = nodes_view(ast@);
        let ghost s0 = self@;
        let mut i: usize = 0;
        while i < ast.len()
            invariant
                av == nodes_view(ast@),
                ast_ok(av),
                i <= ast@.len(),
                self.wf(),
                self@.loops.len() == 0,
                procs_code(s0, av, 0) == procs_code(self@, av, i as int),
                self@.label_counter + ast_labels(av, i as int) <= usize::MAX,
            decreases ast@.len() - i,
        {
            assert(av[i as int] == node_view(ast@[i as int]));
            match &ast[i] {
                ASTNode::Procedure { name, args, block } => {
                    assert(procedure_ok(args_view(args@), node_view(**block)));
                    self.gen_procedure(name, args, block);
                },
                _ => {},
            }
            i += 1;
        }
    }

    /// Emits the global variables of the program.
    fn gen_globals(&mut self, ast: &Vec<ASTNode>)
        requires
            old(self).wf(),
        ensures
            final(self).wf(),
            final(self)@ == globals_code(old(self)@, nodes_view(ast@), 0),
    {
        let ghost av = nodes_view(ast@);
        let ghost s0 = self@;
        let mut i: usize = 0;
        while i < ast.len()
            invariant
                av == nodes_view(ast@),
                i <= ast@.len(),
                self.wf(),
                globals_code(s0, av, 0) == globals_code(self@, av, i as int),
            decreases ast@.len() - i,
        {
            assert(av[i as int] == node_view(ast@[i as int]));
            match &ast[i] {
                ASTNode::Variable { name, vtype } => {
                    self.set_label(name.as_str());
                    let ghost s1 = self@;
                    let n: u16 = match vtype {
                        VarType::Word => 1,
                        VarType::Array(size) => *size,
                    };
                    let mut j: u16 = 0;
                    while j < n
                        invariant
                            self.wf(),
                            j <= n,
                            n == global_size(*vtype),
                            self@ == emit(s1, zeros(j as nat)),
                        decreases n - j,
                    {
                        self.emit_word(0);
                        j += 1;
                        assert(self@ =~= emit(s1, zeros(j as nat)));
                    }
                },
                _ => {},
            }
            i += 1;
        }
    }

    /// Emits the string register.
    fn gen_strings(&mut self, strings: &Vec<String>)
        requires
            old(self).wf(),
        ensures
            final(self).wf(),
            final(self)@ == strings_code(old(self)@, args_view(strings@), 0),
    {
        let ghost sv = args_view(strings@);
        let ghost s0 = self@;
        let mut i: usize = 0;
        while i < strings.len()
            invariant
                sv == args_view(strings@),
                i <= strings@.len(),
                self.wf(),
                strings_code(s0, sv, 0) == strings_code(self@, sv, i as int),
            decreases strings@.len() - i,
        {
            let label = numbered_label(".str ", i, "");
            proof {
                reveal_strlit("");
            }
            self.set_label(label.as_str());
            let ghost s1 = self@;
            let units = utf16_units(strings[i].as_str());
            let mut j: usize = 0;
            while j < units.len()
                invariant
                    self.wf(),
                    j <= units@.len(),
                    self@ == emit(s1, units@.take(j as int).map_values(|u: u16| CommandV::Word(u))),
                decreases units@.len() - j,
            {
                self.emit_word(units[j]);
                assert(units@.take(j + 1).map_values(|u: u16| CommandV::Word(u)) =~= units@.take(
                    j as int,
                ).map_values(|u: u16| CommandV::Word(u)).push(CommandV::Word(units@[j as int])));
                j += 1;
                assert(self@ =~= emit(s1, units@.take(j as int).map_values(|u: u16| CommandV::Word(u))));
            }
            self.emit_word(0);
            assert(units@.take(units@.len() as int) =~= units@);
            assert(sv[i as int] == strings@[i as int]@);
            assert(self@ =~= emit(s1, text_words(sv[i as int]).push(CommandV::Word(0))));
            i += 1;
        }
    }

    /// Generates the code of a program with its string register.
    pub fn new(ast: Vec<ASTNode>, string_register: Vec<String>) -> (r: Codegen)
        requires
            ast_ok(nodes_view(ast@)),
            ast_labels(nodes_view(ast@), 0) <= usize::MAX,
        ensures
            r.wf(),
            r@ == ast_code(initial_state(), nodes_view(ast@), args_view(string_register@)),
    {
        Codegen::from_ast(&ast, &string_register)
    }

    /// Generates the code of a program with its string register, leaving
    /// them to the caller.
    pub fn from_ast(ast: &Vec<ASTNode>, string_register: &Vec<String>) -> (r: Codegen)
        requires
            ast_ok(nodes_view(ast@)),
            ast_labels(nodes_view(ast@), 0) <= usize::MAX,
        ensures
            r.wf(),
            r@ == ast_code(initial_state(), nodes_view(ast@), args_view(string_register@)),
    {
        let mut code = Codegen::empty();
        code.add_ast(ast, string_register);
        code
    }

    /// A copy of the generator.
    pub fn copy(&self) -> (r: Codegen)
        requires
            self.wf(),
        ensures
            r.wf(),
            r@ == self@,
    {
        let mut commands: Vec<Command> = Vec::new();
        let mut i: usize = 0;
        while i < self.commands.len()
            invariant
                i <= self.commands@.len(),
                commands_view(commands@) == commands_view(self.commands@).take(i as int),
            decreases self.commands@.len() - i,
        {
            let c = match &self.commands[i] {
                Command::Word(w) => Command::Word(*w),
                Command::Label(l) => Command::Label(l.clone()),
            };
            let ghost before = commands@;
            assert(c@ == self.commands@[i as int]@);
            commands.push(c);
            assert(commands_view(commands@) =~= commands_view(before).push(c@));
            assert(commands_view(self.commands@).take(i + 1) =~= commands_view(self.commands@).take(
                i as int,
            ).push(self.commands@[i as int]@));
            i += 1;
        }
        assert(commands_view(self.commands@).take(self.commands@.len() as int) =~= commands_view(
            self.commands@,
        ));
        let mut loops: Vec<usize> = Vec::new();
        let mut j: usize = 0;
        while j < self.current_loop_id_stack.len()
            invariant
                j <= self.current_loop_id_stack@.len(),
                loops@ == self.current_loop_id_stack@.take(j as int),
            decreases self.current_loop_id_stack@.len() - j,
        {
            loops.push(self.current_loop_id_stack[j]);
            assert(loops@ =~= self.current_loop_id_stack@.take(j + 1));
            j += 1;
        }
        assert(self.current_loop_id_stack@.take(self.current_loop_id_stack@.len() as int)
            =~= self.current_loop_id_stack@);
        let procedure = match &self.current_procedure {
            Some((name, args)) => Some((name.clone(), copy_strings(args))),
            None => None,
        };
        let r = Codegen {
            commands,
            labels: self.labels.copy(),
            label_counter: self.label_counter,
            current_loop_id_stack: loops,
            current_procedure: procedure,
        };
        assert(r@ =~= self@);
        r
    }

    /// Appends the code of a program: its procedures, then its global
    /// variables, then its string register.
    fn add_ast(&mut self, ast: &Vec<ASTNode>, string_register: &Vec<String>)
        requires
            old(self).wf(),
            old(self)@.loops.len() == 0,
            ast_ok(nodes_view(ast@)),
            old(self)@.label_counter + ast_labels(nodes_view(ast@), 0) <= usize::MAX,
        ensures
            final(self).wf(),
            final(self)@ == ast_code(old(self)@, nodes_view(ast@), args_view(string_register@)),
    {
        self.gen_procedures(ast);
        self.gen_globals(ast);
        self.gen_strings(string_register);
    }
}


// ===========================> Assembly <===========================

/// What makes an assembly line unreadable.
#[derive(Clone, Copy, Debug, PartialEq, Eq, Structural)]
pub enum AsmFault {
    /// The word after `#` is not an `i32`.
    Number,
    /// The first word names no operation.
    Opcode,
    /// The second word names no addressing mode.
    Mode,
    /// The third word names no register.
    RegisterRd,
    /// The fourth word names no register.
    RegisterRs,
}

/// What an assembly line says.
pub enum AsmLine {
    /// Nothing: an empty line, a comment, or too few words.
    Skip,
    /// `: name` sets a label here.
    SetLabel(Seq<char>),
    /// `# number` is a word.
    Word(u16),
    /// `@ name` is the address of a label.
    Label(Seq<char>),
    /// `opcode mode rd rs` is an instruction.
    Instr(Opcode, Mode, Register, Register),
    /// A line that cannot be read.
    Bad(AsmFault),
}

/// What an assembly line with the given words says.
pub open spec fn asm_line(w: Seq<Seq<char>>) -> AsmLine {
    if w.len() == 0 || w[0] == ";"@ {
        AsmLine::Skip
    } else if w.len() >= 2 && w[0] == ":"@ {
        AsmLine::SetLabel(uppercase(w[1]))
    } else if w.len() >= 2 && w[0] == "#"@ {
        match parse_signed(w[1], 0x7fff_ffff) {
            Ok(n) => AsmLine::Word((n as i32) as u16),
            Err(_) => AsmLine::Bad(AsmFault::Number),
        }
    } else if w.len() >= 2 && w[0] == "@"@ {
        AsmLine::Label(uppercase(w[1]))
    } else if w.len() >= 4 {
        match opcode_named(uppercase(w[0])) {
            None => AsmLine::Bad(AsmFault::Opcode),
            Some(op) => match mode_named(uppercase(w[1])) {
                None => AsmLine::Bad(AsmFault::Mode),
                Some(m) => match register_named(uppercase(w[2])) {
                    None => AsmLine::Bad(AsmFault::RegisterRd),
                    Some(rd) => match register_named(uppercase(w[3])) {
                        None => AsmLine::Bad(AsmFault::RegisterRs),
                        Some(rs) => AsmLine::Instr(op, m, rd, rs),
                    },
                },
            },
        }
    } else {
        AsmLine::Skip
    }
}

/// The state after the assembly lines from `i` on.
pub open spec fn asm_code(st: CodegenV, lines: Seq<Seq<char>>, i: int) -> CodegenV
    decreases lines.len() - i,
{
    if i < 0 || i >= lines.len() {
        st
    } else {
        let next = match asm_line(ws_words(lines[i])) {
            AsmLine::SetLabel(l) => set_label(st, l),
            AsmLine::Word(w) => emit(st, seq![CommandV::Word(w)]),
            AsmLine::Label(l) => emit(st, seq![CommandV::Label(l)]),
            AsmLine::Instr(op, m, rd, rs) => emit(st, seq![ins(op, m, rd, rs)]),
            _ => st,
        };
        asm_code(next, lines, i + 1)
    }
}

/// Every line of an assembly text can be read.
pub open spec fn asm_ok(src: Seq<char>) -> bool {
    forall|i: int| 0 <= i < text_lines(src).len() ==> !(asm_line(ws_words(#[trigger] text_lines(src)[i])) is Bad)
}

/// The words of a line as plain values.
pub open spec fn word_views(v: Vec<Vec<char>>) -> Seq<Seq<char>> {
    v@.map_values(|w: Vec<char>| w@)
}

/// What an assembly line says, as read.
enum AsmItem {
    Skip,
    SetLabel(String),
    Word(u16),
    Label(String),
    Instr(Opcode, Mode, Register, Register),
    Bad(AsmFault),
}

spec fn item_view(i: AsmItem) -> AsmLine {
    match i {
        AsmItem::Skip => AsmLine::Skip,
        AsmItem::SetLabel(l) => AsmLine::SetLabel(l@),
        AsmItem::Word(w) => AsmLine::Word(w),
        AsmItem::Label(l) => AsmLine::Label(l@),
        AsmItem::Instr(op, m, rd, rs) => AsmLine::Instr(op, m, rd, rs),
        AsmItem::Bad(f) => AsmLine::Bad(f),
    }
}

/// What the words of a line say.
fn read_asm_line(words: &Vec<Vec<char>>) -> (r: AsmItem)
    ensures
        item_view(r) == asm_line(word_views(*words)),
{
    let ghost w = words@.map_values(|v: Vec<char>| v@);
    let n = words.len();
    if n == 0 {
        return AsmItem::Skip;
    }
    let w0 = crate::compiler::chars::string_of(words[0].as_slice());
    assert(w[0] == w0@);
    if str_eq(w0.as_str(), ";") {
        return AsmItem::Skip;
    }
    if n >= 2 {
        let w1 = crate::compiler::chars::string_of(words[1].as_slice());
        assert(w[1] == w1@);
        if str_eq(w0.as_str(), ":") {
            return AsmItem::SetLabel(to_uppercase(w1.as_str()));
        }
        if str_eq(w0.as_str(), "#") {
            return match parse_i32(w1.as_str()) {
                Ok(v) => AsmItem::Word(v as u16),
                Err(_) => AsmItem::Bad(AsmFault::Number),
            };
        }
        if str_eq(w0.as_str(), "@") {
            return AsmItem::Label(to_uppercase(w1.as_str()));
        }
        if n >= 4 {
            let w2 = crate::compiler::chars::string_of(words[2].as_slice());
            let w3 = crate::compiler::chars::string_of(words[3].as_slice());
            assert(w[2] == w2@);
            assert(w[3] == w3@);
            let op = match Opcode::from_raw_str(w0.as_str()) {
                Some(op) => op,
                None => {
                    return AsmItem::Bad(AsmFault::Opcode);
                },
            };
            let m = match Mode::from_raw_str(w1.as_str()) {
                Some(m) => m,
                None => {
                    return AsmItem::Bad(AsmFault::Mode);
                },
            };
            let rd = match Register::from_raw_str(w2.as_str()) {
                Some(r) => r,
                None => {
                    return AsmItem::Bad(AsmFault::RegisterRd);
                },
            };
            let rs = match Register::from_raw_str(w3.as_str()) {
                Some(r) => r,
                None => {
                    return AsmItem::Bad(AsmFault::RegisterRs);
                },
            };
            return AsmItem::Instr(op, m, rd, rs);
        }
    }
    AsmItem::Skip
}

/// The lines of an assembly text, each as its words.
fn asm_words(src: &str) -> (r: Vec<Vec<Vec<char>>>)
    ensures
        r@.len() == text_lines(src@).len(),
        forall|i: int| 0 <= i < r@.len() ==> #[trigger] word_views(r@[i]) == ws_words(
            text_lines(src@)[i],
        ),
{
    let chars = crate::compiler::chars::chars_of(src);
    let lines = text_lines_of(&chars);
    let mut r: Vec<Vec<Vec<char>>> = Vec::new();
    let mut i: usize = 0;
    while i < lines.len()
        invariant
            i <= lines@.len(),
            chars@ == src@,
            lines@.map_values(|l: Vec<char>| l@) == text_lines(src@),
            r@.len() == i,
            forall|j: int| 0 <= j < i ==> #[trigger] word_views(r@[j]) == ws_words(
                text_lines(src@)[j],
            ),
        decreases lines@.len() - i,
    {
        let line = crate::compiler::chars::string_of(lines[i].as_slice());
        assert(text_lines(src@)[i as int] == lines@[i as int]@);
        let words = split_whitespace_of(&line);
        r.push(words);
        i += 1;
    }
    r
}

/// The first line of an assembly text that cannot be read, with what is
/// wrong with it, or `None` when every line can be read.
pub fn asm_fault(src: &str) -> (r: Option<(usize, AsmFault)>)
    ensures
        match r {
            None => asm_ok(src@),
            Some((i, f)) => i < text_lines(src@).len() && asm_line(ws_words(text_lines(src@)[i as int]))
                == AsmLine::Bad(f) && forall|j: int|
                0 <= j < i ==> !(asm_line(ws_words(#[trigger] text_lines(src@)[j])) is Bad),
        },
{
    let lines = asm_words(src);
    let mut i: usize = 0;
    while i < lines.len()
        invariant
            i <= lines@.len(),
            lines@.len() == text_lines(src@).len(),
            forall|k: int| 0 <= k < lines@.len() ==> #[trigger] word_views(lines@[k]) == ws_words(
                text_lines(src@)[k],
            ),
            forall|j: int| 0 <= j < i ==> !(asm_line(ws_words(#[trigger] text_lines(src@)[j])) is Bad),
        decreases lines@.len() - i,
    {
        let line = read_asm_line(&lines[i]);
        assert(word_views(lines@[i as int]) == ws_words(text_lines(src@)[i as int]));
        match line {
            AsmItem::Bad(f) => {
                return Some((i, f));
            },
            _ => {},
        }
        i += 1;
    }
    None
}

impl Codegen {
    /// Assembles a text: `; comment`, `: label`, `# number`, `@ label`, and
    /// `opcode mode rd rs`, names in any case.
    pub fn add_asm_src(&mut self, src: String)
        requires
            old(self).wf(),
            asm_ok(src@),
        ensures
            final(self).wf(),
            final(self)@ == asm_code(old(self)@, text_lines(src@), 0),
    {
        let lines = asm_words(src.as_str());
        let ghost tl = text_lines(src@);
        let ghost s0 = self@;
        let mut i: usize = 0;
        while i < lines.len()
            invariant
                i <= lines@.len(),
                lines@.len() == tl.len(),
                tl == text_lines(src@),
                asm_ok(src@),
                forall|k: int| 0 <= k < lines@.len() ==> #[trigger] word_views(lines@[k]) == ws_words(
                    tl[k],
                ),
                self.wf(),
                asm_code(s0, tl, 0) == asm_code(self@, tl, i as int),
            decreases lines@.len() - i,
        {
            let line = read_asm_line(&lines[i]);
            assert(word_views(lines@[i as int]) == ws_words(tl[i as int]));
            assert(!(asm_line(ws_words(tl[i as int])) is Bad));
            match line {
                AsmItem::SetLabel(label) => {
                    self.set_label(label.as_str());
                },
                AsmItem::Word(word) => {
                    self.emit_word(word);
                },
                AsmItem::Label(label) => {
                    self.emit_label(label.as_str());
                },
                AsmItem::Instr(op, m, rd, rs) => {
                    self.emit_instr(op, m, rd, rs);
                },
                _ => {},
            }
            i += 1;
        }
    }

    /// The code of an assembly text.
    pub fn new_from_asm(src: String) -> (r: Codegen)
        requires
            asm_ok(src@),
        ensures
            r.wf(),
            r@ == asm_code(initial_state(), text_lines(src@), 0),
    {
        let mut code = Codegen::empty();
        code.add_asm_src(src);
        code
    }

    /// Moves every label by `offset` words.
    pub fn add_labels_offset(&mut self, offset: i32)
        requires
            old(self).wf(),
            forall|k: Seq<char>| #[trigger]
                old(self)@.labels.contains_key(k) ==> old(self)@.labels[k] + (offset as usize)
                    <= usize::MAX,
        ensures
            final(self).wf(),
            final(self)@.commands == old(self)@.commands,
            final(self)@.label_counter == old(self)@.label_counter,
            final(self)@.labels.dom() == old(self)@.labels.dom(),
            forall|k: Seq<char>| #[trigger]
                old(self)@.labels.contains_key(k) ==> final(self)@.labels[k] == old(self)@.labels[k]
                    + (offset as usize),
    {
        assert(self@.labels == self.labels@);
        self.labels.add_offset(offset as usize);
    }
}


// ===========================> Acceptance <===========================

/// Why the generator does not accept a program.
#[derive(Clone, Copy, Debug, PartialEq, Eq, Structural)]
pub enum ProgramFault {
    /// A zero-level node that is neither a procedure nor a variable, or a
    /// block or procedure where a statement belongs.
    Misplaced,
    /// `STOP` outside a loop.
    StopOutsideLoop,
    /// The variables of a procedure take more than 65535 stack words.
    StackOverflow,
    /// A procedure with `usize::MAX` arguments.
    TooManyArguments,
    /// More label numbers than `usize` holds.
    TooManyLabels,
}

proof fn lemma_exprs_labels_mono(es: Seq<ExprV>, j: int, i: int)
    requires
        0 <= j <= i <= es.len(),
    ensures
        exprs_labels(es, j) >= exprs_labels(es, i),
    decreases i - j,
{
    if j < i {
        lemma_exprs_labels_mono(es, j + 1, i);
    }
}

proof fn lemma_stmts_mono(ch: Seq<NodeV>, j: int, i: int, b: bool)
    requires
        0 <= j <= i <= ch.len(),
    ensures
        stmts_labels(ch, j) >= stmts_labels(ch, i),
        stmts_stack(ch, j) >= stmts_stack(ch, i),
        stmts_ok(ch, j, b) ==> stmts_ok(ch, i, b),
    decreases i - j,
{
    if j < i {
        lemma_stmts_mono(ch, j + 1, i, b);
    }
}

proof fn lemma_ast_labels_mono(ast: Seq<NodeV>, j: int, i: int)
    requires
        0 <= j <= i <= ast.len(),
    ensures
        ast_labels(ast, j) >= ast_labels(ast, i),
    decreases i - j,
{
    if j < i {
        lemma_ast_labels_mono(ast, j + 1, i);
    }
}

/// The number of label numbers an expression takes, if it fits.
fn expr_label_count(e: &Expression) -> (r: Option<usize>)
    ensures
        match r {
            Some(n) => n == expr_labels(expr_view(*e)),
            None => expr_labels(expr_view(*e)) > usize::MAX,
        },
    decreases e,
{
    match e {
        Expression::Variable(v) => match &v.deref_offset {
            Some(o) => expr_label_count(o),
            None => Some(0),
        },
        Expression::Expr(inner) => expr_label_count(inner),
        Expression::BinaryOp { op, left, right } => {
            let l = match expr_label_count(left) {
                Some(n) => n,
                None => {
                    return None;
                },
            };
            let r = match expr_label_count(right) {
                Some(n) => n,
                None => {
                    return None;
                },
            };
            let own: usize = match op {
                Operator::Add | Operator::Sub | Operator::Mul | Operator::Div | Operator::Mod => 0,
                _ => 1,
            };
            match l.checked_add(r) {
                Some(lr) => lr.checked_add(own),
                None => None,
            }
        },
        _ => Some(0),
    }
}

/// What a count of a statement or block finds: the label numbers and stack
/// words it takes, or a fault.
pub open spec fn check_matches(r: Result<(usize, usize), ProgramFault>, ok: bool, labels: nat, stack: nat) -> bool {
    match r {
        Ok((l, k)) => ok && l == labels && k == stack && stack <= 0xffff,
        Err(_) => !ok || labels > usize::MAX || stack > 0xffff,
    }
}

/// Checks a statement: accepted, and the label numbers and stack words it
/// takes.
fn check_stmt(node: &ASTNode, in_loop: bool) -> (r: Result<(usize, usize), ProgramFault>)
    ensures
        check_matches(
            r,
            stmt_ok(node_view(*node), in_loop),
            stmt_labels(node_view(*node)),
            stmt_stack(node_view(*node)),
        ),
    decreases node, 0int,
{
    let ghost nv = node_view(*node);
    match node {
        ASTNode::Block { .. } => Err(ProgramFault::Misplaced),
        ASTNode::Procedure { .. } => Err(ProgramFault::Misplaced),
        ASTNode::If { expr, block, else_block } => {
            let (bl, bk) = match check_block(block, in_loop) {
                Ok(x) => x,
                Err(f) => {
                    return Err(f);
                },
            };
            let (el, ek): (usize, usize) = match else_block {
                Some(e) => match check_block(e, in_loop) {
                    Ok(x) => x,
                    Err(f) => {
                        return Err(f);
                    },
                },
                None => (0, 0),
            };
            let cl = match expr_label_count(expr) {
                Some(n) => n,
                None => {
                    return Err(ProgramFault::TooManyLabels);
                },
            };
            let labels = match cl.checked_add(bl) {
                Some(x) => match x.checked_add(el) {
                    Some(y) => y.checked_add(1),
                    None => None,
                },
                None => None,
            };
            let labels = match labels {
                Some(n) => n,
                None => {
                    return Err(ProgramFault::TooManyLabels);
                },
            };
            if bk + ek > 0xffff {
                return Err(ProgramFault::StackOverflow);
            }
            Ok((labels, bk + ek))
        },
        ASTNode::Loop { block } => {
            let (bl, bk) = match check_block(block, true) {
                Ok(x) => x,
                Err(f) => {
                    return Err(f);
                },
            };
            match bl.checked_add(1) {
                Some(n) => Ok((n, bk)),
                None => Err(ProgramFault::TooManyLabels),
            }
        },
        ASTNode::FnCall { args, .. } => {
            let ghost es = crate::compiler::parser::exprs_view(args@);
            assert(stmt_labels(nv) == exprs_labels(es, 0));
            let mut total: usize = 0;
            let mut i: usize = args.len();
            while i > 0
                invariant
                    i <= args@.len(),
                    es == crate::compiler::parser::exprs_view(args@),
                    nv == node_view(*node),
                    stmt_labels(nv) == exprs_labels(es, 0),
                    total == exprs_labels(es, i as int),
                decreases i,
            {
                i -= 1;
                assert(es[i as int] == expr_view(args@[i as int]));
                let n = match expr_label_count(&args[i]) {
                    Some(n) => n,
                    None => {
                        proof {
                            lemma_exprs_labels_mono(es, 0, i as int);
                            assert(exprs_labels(es, i as int) == expr_labels(es[i as int])
                                + exprs_labels(es, i + 1));
                            assert(stmt_labels(nv) == exprs_labels(es, 0));
                        }
                        return Err(ProgramFault::TooManyLabels);
                    },
                };
                total = match total.checked_add(n) {
                    Some(t) => t,
                    None => {
                        proof {
                            lemma_exprs_labels_mono(es, 0, i as int);
                            assert(exprs_labels(es, i as int) == expr_labels(es[i as int])
                                + exprs_labels(es, i + 1));
                            assert(stmt_labels(nv) == exprs_labels(es, 0));
                        }
                        return Err(ProgramFault::TooManyLabels);
                    },
                };
            }
            Ok((total, 0))
        },
        ASTNode::Variable { vtype, .. } => {
            let size: usize = match vtype {
                VarType::Word => 1,
                VarType::Array(s) => 1 + *s as usize,
            };
            if size > 0xffff {
                return Err(ProgramFault::StackOverflow);
            }
            Ok((0, size))
        },
        ASTNode::VariableSet { var, expr } => {
            let a = match expr_label_count(expr) {
                Some(n) => n,
                None => {
                    return Err(ProgramFault::TooManyLabels);
                },
            };
            let b = match &var.deref_offset {
                Some(o) => match expr_label_count(o) {
                    Some(n) => n,
                    None => {
                        return Err(ProgramFault::TooManyLabels);
                    },
                },
                None => 0,
            };
            match a.checked_add(b) {
                Some(n) => Ok((n, 0)),
                None => Err(ProgramFault::TooManyLabels),
            }
        },
        ASTNode::Stop => {
            if in_loop {
                Ok((0, 0))
            } else {
                Err(ProgramFault::StopOutsideLoop)
            }
        },
        ASTNode::Return => Ok((0, 0)),
    }
}

/// Checks a block: accepted, and the label numbers and stack words it
/// takes.
fn check_block(block: &ASTNode, in_loop: bool) -> (r: Result<(usize, usize), ProgramFault>)
    ensures
        check_matches(
            r,
            block_ok(node_view(*block), in_loop),
            block_labels(node_view(*block)),
            block_stack(node_view(*block)),
        ),
    decreases block, 1int,
{
    match block {
        ASTNode::Block { children } => {
            let ghost ch = nodes_view(children@);
            assert(node_view(*block) == NodeV::Block(ch)) by {
                if let NodeV::Block(c) = node_view(*block) {
                    assert(c =~= ch);
                }
            }
            let mut labels: usize = 0;
            let mut stack: usize = 0;
            let mut i: usize = children.len();
            while i > 0
                invariant
                    i <= children@.len(),
                    ch == nodes_view(children@),
                    *block is Block,
                    block->children == *children,
                    stmts_ok(ch, i as int, in_loop),
                    block_ok(node_view(*block), in_loop) == stmts_ok(ch, 0, in_loop),
                    block_labels(node_view(*block)) == stmts_labels(ch, 0),
                    block_stack(node_view(*block)) == stmts_stack(ch, 0),
                    labels == stmts_labels(ch, i as int),
                    stack == stmts_stack(ch, i as int),
                    stack <= 0xffff,
                decreases i,
            {
                i -= 1;
                assert(ch[i as int] == node_view(children@[i as int]));
                assert(decreases_to!(*block => children@[i as int])) by {
                    assert(decreases_to!(*block => *children));
                    assert(decreases_to!(*children => children@));
                    assert(decreases_to!(children@ => children@[i as int]));
                }
                let (l, k) = match check_stmt(&children[i], in_loop) {
                    Ok(x) => x,
                    Err(f) => {
                        proof {
                            lemma_stmts_mono(ch, 0, i as int, in_loop);
                            assert(stmts_labels(ch, i as int) == stmt_labels(ch[i as int])
                                + stmts_labels(ch, i + 1));
                            assert(stmts_stack(ch, i as int) == stmt_stack(ch[i as int])
                                + stmts_stack(ch, i + 1));
                            assert(stmts_ok(ch, i as int, in_loop) == (stmt_ok(ch[i as int], in_loop)
                                && stmts_ok(ch, i + 1, in_loop)));
                        }
                        return Err(f);
                    },
                };
                labels = match labels.checked_add(l) {
                    Some(n) => n,
                    None => {
                        proof {
                            lemma_stmts_mono(ch, 0, i as int, in_loop);
                            assert(stmts_labels(ch, i as int) == stmt_labels(ch[i as int])
                                + stmts_labels(ch, i + 1));
                            assert(stmts_stack(ch, i as int) == stmt_stack(ch[i as int])
                                + stmts_stack(ch, i + 1));
                            assert(stmts_ok(ch, i as int, in_loop) == (stmt_ok(ch[i as int], in_loop)
                                && stmts_ok(ch, i + 1, in_loop)));
                        }
                        return Err(ProgramFault::TooManyLabels);
                    },
                };
                if stack + k > 0xffff {
                    proof {
                        lemma_stmts_mono(ch, 0, i as int, in_loop);
                        assert(stmts_stack(ch, i as int) == stmt_stack(ch[i as int])
                            + stmts_stack(ch, i + 1));
                    }
                    return Err(ProgramFault::StackOverflow);
                }
                stack = stack + k;
            }
            Ok((labels, stack))
        },
        _ => Err(ProgramFault::Misplaced),
    }
}

/// Counts the label numbers of a program: accepted when the program is, and
/// its labels fit.
fn count_program_labels(ast: &Vec<ASTNode>) -> (r: Result<(), ProgramFault>)
    ensures
        r is Ok <==> (ast_ok(nodes_view(ast@)) && ast_labels(nodes_view(ast@), 0) <= usize::MAX),
{
    let ghost av = nodes_view(ast@);
    let mut labels: usize = 0;
    let mut i: usize = ast.len();
    while i > 0
        invariant
            i <= ast@.len(),
            av == nodes_view(ast@),
            forall|j: int|
                i <= j < av.len() ==> match #[trigger] av[j] {
                    NodeV::Procedure(_, args, b) => procedure_ok(args, *b),
                    NodeV::Variable(_, _) => true,
                    _ => false,
                },
            labels == ast_labels(av, i as int),
        decreases i,
    {
        i -= 1;
        assert(av[i as int] == node_view(ast@[i as int]));
        match &ast[i] {
            ASTNode::Procedure { args, block, .. } => {
                if args.len() == usize::MAX {
                    return Err(ProgramFault::TooManyArguments);
                }
                let (l, _) = match check_block(block, false) {
                    Ok(x) => x,
                    Err(f) => {
                        proof {
                            lemma_ast_labels_mono(av, 0, i as int);
                            if ast_ok(av) {
                                assert(match av[i as int] {
                                    NodeV::Procedure(_, args, b) => procedure_ok(args, *b),
                                    NodeV::Variable(_, _) => true,
                                    _ => false,
                                });
                            }
                        }
                        return Err(f);
                    },
                };
                labels = match labels.checked_add(l) {
                    Some(n) => n,
                    None => {
                        proof {
                            lemma_ast_labels_mono(av, 0, i as int);
                        }
                        return Err(ProgramFault::TooManyLabels);
                    },
                };
            },
            ASTNode::Variable { .. } => {},
            _ => {
                return Err(ProgramFault::Misplaced);
            },
        }
    }
    Ok(())
}


/// The first fault of a statement, in the order in which the generator meets
/// it, when `stack` words of the procedure's stack are taken before it.
pub open spec fn stmt_fault(n: NodeV, in_loop: bool, stack: nat) -> Option<ProgramFault>
    decreases n, 0int,
{
    match n {
        NodeV::Block(_) => Some(ProgramFault::Misplaced),
        NodeV::Procedure(_, _, _) => Some(ProgramFault::Misplaced),
        NodeV::If(_, b, eb) => match block_fault(*b, in_loop, stack) {
            Some(f) => Some(f),
            None => match eb {
                Some(e) => block_fault(*e, in_loop, stack + block_stack(*b)),
                None => None,
            },
        },
        NodeV::Loop(b) => block_fault(*b, true, stack),
        NodeV::Stop => if in_loop {
            None
        } else {
            Some(ProgramFault::StopOutsideLoop)
        },
        NodeV::Variable(_, t) => if stack + var_size(t) > 0xffff {
            Some(ProgramFault::StackOverflow)
        } else {
            None
        },
        _ => None,
    }
}

/// The first fault of a block.
pub open spec fn block_fault(b: NodeV, in_loop: bool, stack: nat) -> Option<ProgramFault>
    decreases b, 1int,
{
    match b {
        NodeV::Block(ch) => stmts_fault(ch, 0, in_loop, stack),
        _ => Some(ProgramFault::Misplaced),
    }
}

/// The first fault of the statements from `i` on.
pub open spec fn stmts_fault(ch: Seq<NodeV>, i: int, in_loop: bool, stack: nat) -> Option<
    ProgramFault,
>
    decreases ch, ch.len() - i,
{
    if i < 0 || i >= ch.len() {
        None
    } else {
        match stmt_fault(ch[i], in_loop, stack) {
            Some(f) => Some(f),
            None => stmts_fault(ch, i + 1, in_loop, stack + stmt_stack(ch[i])),
        }
    }
}

/// The first fault of the top-level nodes from `i` on: a node that is
/// neither a procedure nor a variable, a procedure with `usize::MAX`
/// arguments, or the first fault of a procedure's body.
pub open spec fn ast_fault(ast: Seq<NodeV>, i: int) -> Option<ProgramFault>
    decreases ast.len() - i,
{
    if i < 0 || i >= ast.len() {
        None
    } else {
        match ast[i] {
            NodeV::Procedure(_, args, b) => if args.len() >= usize::MAX {
                Some(ProgramFault::TooManyArguments)
            } else {
                match block_fault(*b, false, 0) {
                    Some(f) => Some(f),
                    None => ast_fault(ast, i + 1),
                }
            },
            NodeV::Variable(_, _) => ast_fault(ast, i + 1),
            _ => Some(ProgramFault::Misplaced),
        }
    }
}

/// What checking a program gives: its first fault, or, when it has none,
/// whether its label numbers fit in `usize`.
pub open spec fn program_check(ast: Seq<NodeV>) -> Result<(), ProgramFault> {
    match ast_fault(ast, 0) {
        Some(f) => Err(f),
        None => if ast_labels(ast, 0) <= usize::MAX {
            Ok(())
        } else {
            Err(ProgramFault::TooManyLabels)
        },
    }
}

proof fn lemma_stmt_fault(n: NodeV, in_loop: bool, stack: nat)
    requires
        stack <= 0xffff,
    ensures
        stmt_fault(n, in_loop, stack) is None <==> (stmt_ok(n, in_loop) && stack + stmt_stack(n)
            <= 0xffff),
    decreases n, 0int,
{
    match n {
        NodeV::If(_, b, eb) => {
            lemma_block_fault(*b, in_loop, stack);
            if block_fault(*b, in_loop, stack) is None {
                match eb {
                    Some(e) => lemma_block_fault(*e, in_loop, stack + block_stack(*b)),
                    None => {},
                }
            }
        },
        NodeV::Loop(b) => lemma_block_fault(*b, true, stack),
        _ => {},
    }
}

proof fn lemma_block_fault(b: NodeV, in_loop: bool, stack: nat)
    requires
        stack <= 0xffff,
    ensures
        block_fault(b, in_loop, stack) is None <==> (block_ok(b, in_loop) && stack + block_stack(b)
            <= 0xffff),
    decreases b, 1int,
{
    match b {
        NodeV::Block(ch) => lemma_stmts_fault(ch, 0, in_loop, stack),
        _ => {},
    }
}

proof fn lemma_stmts_fault(ch: Seq<NodeV>, i: int, in_loop: bool, stack: nat)
    requires
        stack <= 0xffff,
    ensures
        stmts_fault(ch, i, in_loop, stack) is None <==> (stmts_ok(ch, i, in_loop) && stack
            + stmts_stack(ch, i) <= 0xffff),
    decreases ch, ch.len() - i,
{
    if 0 <= i < ch.len() {
        lemma_stmt_fault(ch[i], in_loop, stack);
        if stmt_fault(ch[i], in_loop, stack) is None {
            lemma_stmts_fault(ch, i + 1, in_loop, stack + stmt_stack(ch[i]));
        }
    }
}

/// A top-level node that the generator accepts.
spec fn top_ok(n: NodeV) -> bool {
    match n {
        NodeV::Procedure(_, args, b) => procedure_ok(args, *b),
        NodeV::Variable(_, _) => true,
        _ => false,
    }
}

proof fn lemma_ast_fault(ast: Seq<NodeV>, i: int)
    requires
        0 <= i <= ast.len(),
    ensures
        ast_fault(ast, i) is None <==> (forall|j: int| i <= j < ast.len() ==> top_ok(#[trigger] ast[j])),
    decreases ast.len() - i,
{
    if i < ast.len() {
        lemma_ast_fault(ast, i + 1);
        if let NodeV::Procedure(_, _, b) = ast[i] {
            lemma_block_fault(*b, false, 0);
        }
        if ast_fault(ast, i) is None {
            assert forall|j: int| i <= j < ast.len() implies top_ok(#[trigger] ast[j]) by {
                if j > i {
                    assert(i + 1 <= j < ast.len());
                }
            }
        } else {
            if forall|j: int| i <= j < ast.len() ==> top_ok(#[trigger] ast[j]) {
                assert(top_ok(ast[i]));
                assert(forall|j: int| i + 1 <= j < ast.len() ==> top_ok(#[trigger] ast[j]));
            }
        }
    }
}

/// The first fault of a statement, or the stack words taken after it.
fn fault_stmt(node: &ASTNode, in_loop: bool, stack: usize) -> (r: Result<usize, ProgramFault>)
    requires
        stack <= 0xffff,
    ensures
        match r {
            Ok(s) => stmt_fault(node_view(*node), in_loop, stack as nat) is None && s == stack
                + stmt_stack(node_view(*node)) && s <= 0xffff,
            Err(f) => stmt_fault(node_view(*node), in_loop, stack as nat) == Some(f),
        },
    decreases node, 0int,
{
    match node {
        ASTNode::Block { .. } => Err(ProgramFault::Misplaced),
        ASTNode::Procedure { .. } => Err(ProgramFault::Misplaced),
        ASTNode::If { block, else_block, .. } => {
            let s1 = match fault_block(block, in_loop, stack) {
                Ok(s) => s,
                Err(f) => {
                    return Err(f);
                },
            };
            match else_block {
                Some(e) => fault_block(e, in_loop, s1),
                None => Ok(s1),
            }
        },
        ASTNode::Loop { block } => fault_block(block, true, stack),
        ASTNode::Stop => if in_loop {
            Ok(stack)
        } else {
            Err(ProgramFault::StopOutsideLoop)
        },
        ASTNode::Variable { vtype, .. } => {
            let size: usize = match vtype {
                VarType::Word => 1,
                VarType::Array(s) => 1 + *s as usize,
            };
            if stack + size > 0xffff {
                Err(ProgramFault::StackOverflow)
            } else {
                Ok(stack + size)
            }
        },
        _ => Ok(stack),
    }
}

/// The first fault of a block, or the stack words taken after it.
fn fault_block(block: &ASTNode, in_loop: bool, stack: usize) -> (r: Result<usize, ProgramFault>)
    requires
        stack <= 0xffff,
    ensures
        match r {
            Ok(s) => block_fault(node_view(*block), in_loop, stack as nat) is None && s == stack
                + block_stack(node_view(*block)) && s <= 0xffff,
            Err(f) => block_fault(node_view(*block), in_loop, stack as nat) == Some(f),
        },
    decreases block, 1int,
{
    match block {
        ASTNode::Block { children } => {
            let ghost ch = nodes_view(children@);
            assert(node_view(*block) == NodeV::Block(ch)) by {
                if let NodeV::Block(c) = node_view(*block) {
                    assert(c =~= ch);
                }
            }
            let mut cur = stack;
            let mut i: usize = 0;
            while i < children.len()
                invariant
                    i <= children@.len(),
                    ch == nodes_view(children@),
                    *block is Block,
                    block->children == *children,
                    node_view(*block) == NodeV::Block(ch),
                    cur <= 0xffff,
                    stmts_fault(ch, 0, in_loop, stack as nat) == stmts_fault(
                        ch,
                        i as int,
                        in_loop,
                        cur as nat,
                    ),
                    stack + stmts_stack(ch, 0) == cur + stmts_stack(ch, i as int),
                decreases children@.len() - i,
            {
                assert(ch[i as int] == node_view(children@[i as int]));
                assert(decreases_to!(*block => children@[i as int])) by {
                    assert(decreases_to!(*block => *children));
                    assert(decreases_to!(*children => children@));
                    assert(decreases_to!(children@ => children@[i as int]));
                }
                cur = match fault_stmt(&children[i], in_loop, cur) {
                    Ok(s) => s,
                    Err(f) => {
                        return Err(f);
                    },
                };
                i = i + 1;
            }
            Ok(cur)
        },
        _ => Err(ProgramFault::Misplaced),
    }
}

/// The first fault of a program's top-level nodes.
fn first_fault(ast: &Vec<ASTNode>) -> (r: Option<ProgramFault>)
    ensures
        r == ast_fault(nodes_view(ast@), 0),
{
    let ghost av = nodes_view(ast@);
    let mut i: usize = 0;
    while i < ast.len()
        invariant
            i <= ast@.len(),
            av == nodes_view(ast@),
            ast_fault(av, 0) == ast_fault(av, i as int),
        decreases ast@.len() - i,
    {
        assert(av[i as int] == node_view(ast@[i as int]));
        match &ast[i] {
            ASTNode::Procedure { args, block, .. } => {
                if args.len() == usize::MAX {
                    return Some(ProgramFault::TooManyArguments);
                }
                match fault_block(block, false, 0) {
                    Ok(_) => {},
                    Err(f) => {
                        return Some(f);
                    },
                }
            },
            ASTNode::Variable { .. } => {},
            _ => {
                return Some(ProgramFault::Misplaced);
            },
        }
        i = i + 1;
    }
    None
}

/// Checks that the generator accepts a program: the first fault in the order
/// in which the generator meets it, or, when there is none, whether the
/// program's label numbers fit.
pub fn check_program(ast: &Vec<ASTNode>) -> (r: Result<(), ProgramFault>)
    ensures
        r == program_check(nodes_view(ast@)),
        r is Ok <==> (ast_ok(nodes_view(ast@)) && ast_labels(nodes_view(ast@), 0) <= usize::MAX),
{
    let ghost av = nodes_view(ast@);
    proof {
        lemma_ast_fault(av, 0);
        assert(ast_ok(av) <==> (forall|j: int| 0 <= j < av.len() ==> top_ok(#[trigger] av[j])));
    }
    match first_fault(ast) {
        Some(f) => Err(f),
        None => match count_program_labels(ast) {
            Ok(()) => Ok(()),
            Err(_) => Err(ProgramFault::TooManyLabels),
        },
    }
}

} // verus!
