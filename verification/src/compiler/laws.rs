//! What the compiler's parts promise each other, proved.
use vstd::prelude::*;

use crate::compiler::codegen::{block_ok, stmt_ok, stmts_ok};
use crate::compiler::numbers::{decimal, digit_char, digit_value, parse_unsigned, scan_digits, IntError};
use crate::compiler::parser::{
    block_of, if_of, loop_of, parse_of, procedure_of, statement_of, top_of, NodeV,
};
use crate::compiler::protolexer::SourceLineWordsView;
use crate::compiler::codegen::{comparison_jump, emit, expr_code, ins, op_code, CodegenV, CommandV};
use crate::compiler::parser::{operator_of_word, ExprV, Operator};
use crate::cpu::data_path::Flags;
use crate::cpu::data_path::wrap;
use crate::cpu::laws::{
    below, compare_flags, fetching, law_alu_reg_to_reg, law_jumps_after_compare, signed, law_imm_to_reg, law_pop, law_push, lemma_ticks_add, ticks,
};
use crate::cpu::machine::MachineView;
use crate::isa::{spec_encode, Mode, Opcode, Register};
use crate::compiler::linker::{init_code, le_bytes, link_spec, resolve, shifted_labels, LinkErrorV};
use crate::cpu::machine::{image_word, load_blocks, load_image, write_block, zero_memory};

verus! {

// ===========================> Shape of the syntax tree <===========================

/// Every statement of the list is one the generator accepts inside a loop.
pub open spec fn all_stmts_ok(ch: Seq<NodeV>) -> bool {
    forall|i: int| 0 <= i < ch.len() ==> #[trigger] stmt_ok(ch[i], true)
}

proof fn lemma_stmts_ok_all(ch: Seq<NodeV>, i: int)
    requires
        0 <= i <= ch.len(),
        forall|j: int| i <= j < ch.len() ==> #[trigger] stmt_ok(ch[j], true),
    ensures
        stmts_ok(ch, i, true),
    decreases ch.len() - i,
{
    if i < ch.len() {
        assert(stmt_ok(ch[i], true));
        lemma_stmts_ok_all(ch, i + 1);
    }
}

proof fn lemma_block_shape(ls: Seq<SourceLineWordsView>, p: int, depth: usize, acc: Seq<NodeV>)
    requires
        all_stmts_ok(acc),
    ensures
        block_of(ls, p, depth, acc) matches Ok((n, _)) ==> block_ok(n, true),
    decreases ls.len() - p, 2int,
{
    if p < 0 || p >= ls.len() || ls[p].source_line.power <= depth {
        lemma_stmts_ok_all(acc, 0);
    } else {
        lemma_statement_shape(ls, p);
        match statement_of(ls, p) {
            Ok((n, p2)) => {
                if p < p2 <= ls.len() {
                    assert(all_stmts_ok(acc.push(n))) by {
                        assert forall|i: int| 0 <= i < acc.push(n).len() implies #[trigger] stmt_ok(
                            acc.push(n)[i],
                            true,
                        ) by {
                            if i < acc.len() {
                                assert(acc.push(n)[i] == acc[i]);
                            }
                        }
                    }
                    lemma_block_shape(ls, p2, depth, acc.push(n));
                } else {
                    lemma_stmts_ok_all(acc, 0);
                }
            },
            Err(_) => {},
        }
    }
}

proof fn lemma_statement_shape(ls: Seq<SourceLineWordsView>, p: int)
    ensures
        statement_of(ls, p) matches Ok((n, _)) ==> stmt_ok(n, true),
    decreases ls.len() - p, 1int,
{
    if 0 <= p < ls.len() && ls[p].words.len() > 0 {
        lemma_if_shape(ls, p);
        lemma_loop_shape(ls, p);
    }
}

proof fn lemma_if_shape(ls: Seq<SourceLineWordsView>, p: int)
    ensures
        if_of(ls, p) matches Ok((n, _)) ==> stmt_ok(n, true),
    decreases ls.len() - p, 0int,
{
    if 0 <= p < ls.len() {
        lemma_block_shape(ls, p + 1, ls[p].source_line.power, seq![]);
        match block_of(ls, p + 1, ls[p].source_line.power, seq![]) {
            Ok((_, q)) => {
                if p < q < ls.len() {
                    lemma_block_shape(ls, q + 1, ls[q].source_line.power, seq![]);
                }
            },
            Err(_) => {},
        }
    }
}

proof fn lemma_loop_shape(ls: Seq<SourceLineWordsView>, p: int)
    ensures
        loop_of(ls, p) matches Ok((n, _)) ==> stmt_ok(n, true),
    decreases ls.len() - p, 0int,
{
    if 0 <= p < ls.len() {
        lemma_block_shape(ls, p + 1, ls[p].source_line.power, seq![]);
    }
}

/// A zero-level node of the kind the generator expects: a variable, or a
/// procedure whose block holds only statements (with blocks where blocks
/// belong).
pub open spec fn top_shape(n: NodeV) -> bool {
    match n {
        NodeV::Variable(_, _) => true,
        NodeV::Procedure(_, _, b) => block_ok(*b, true),
        _ => false,
    }
}

proof fn lemma_top_shape(ls: Seq<SourceLineWordsView>, p: int, root: Seq<NodeV>)
    requires
        forall|i: int| 0 <= i < root.len() ==> #[trigger] top_shape(root[i]),
    ensures
        top_of(ls, p, root) matches Ok(nodes) ==> forall|i: int|
            0 <= i < nodes.len() ==> #[trigger] top_shape(nodes[i]),
    decreases ls.len() - p,
{
    if 0 <= p < ls.len() && ls[p].words.len() > 0 {
        let w0 = ls[p].words[0];
        if w0 == "PROCEDURE"@ || w0 == "VARIABLE"@ || w0 == "ARRAY"@ {
            let part = if w0 == "PROCEDURE"@ {
                procedure_of(ls, p)
            } else if w0 == "VARIABLE"@ {
                crate::compiler::parser::variable_of(ls, p)
            } else {
                crate::compiler::parser::array_of(ls, p)
            };
            if w0 == "PROCEDURE"@ && ls[p].words.len() >= 2 {
                lemma_block_shape(ls, p + 1, ls[p].source_line.power, seq![]);
            }
            match part {
                Ok((n, p2)) => {
                    if p < p2 <= ls.len() {
                        assert forall|i: int| 0 <= i < root.push(n).len() implies #[trigger] top_shape(
                            root.push(n)[i],
                        ) by {
                            if i < root.len() {
                                assert(root.push(n)[i] == root[i]);
                            }
                        }
                        lemma_top_shape(ls, p2, root.push(n));
                    }
                },
                Err(_) => {},
            }
        }
    }
}

/// What the parser gives is what the code generator is built for: every
/// zero-level node is a variable or a procedure, and every block holds
/// statements only, with blocks in `IF`, `ELSE` and `LOOP`. (Where `STOP`
/// may stand, and how large the stack grows, the parser does not check.)
pub proof fn law_parse_gives_generator_shape(ls: Seq<SourceLineWordsView>)
    ensures
        parse_of(ls) matches Ok(nodes) ==> forall|i: int|
            0 <= i < nodes.len() ==> #[trigger] top_shape(nodes[i]),
{
    lemma_top_shape(ls, 0, seq![]);
}

// ===========================> Numerals <===========================

/// One more digit after the value `v`.
pub open spec fn scan_step(v: nat, c: char, max: nat, neg: bool) -> Result<nat, IntError> {
    match digit_value(c) {
        None => Err(IntError::InvalidDigit),
        Some(d) => if v * 10 + d > max {
            Err(
                if neg {
                    IntError::NegOverflow
                } else {
                    IntError::PosOverflow
                },
            )
        } else {
            Ok(v * 10 + d)
        },
    }
}

proof fn lemma_scan_push(s: Seq<char>, c: char, i: int, acc: nat, max: nat, neg: bool)
    requires
        0 <= i <= s.len(),
    ensures
        scan_digits(s.push(c), i, acc, max, neg) == match scan_digits(s, i, acc, max, neg) {
            Ok(v) => scan_step(v, c, max, neg),
            Err(e) => Err(e),
        },
    decreases s.len() - i,
{
    if i < s.len() {
        assert(s.push(c)[i] == s[i]);
        match digit_value(s[i]) {
            Some(d) => {
                if acc * 10 + d <= max {
                    lemma_scan_push(s, c, i + 1, acc * 10 + d, max, neg);
                }
            },
            None => {},
        }
    } else {
        assert(s.push(c)[i] == c);
        match digit_value(c) {
            Some(d) => {
                assert(scan_digits(s.push(c), i + 1, acc * 10 + d, max, neg) == Ok::<nat, IntError>(
                    acc * 10 + d,
                ));
            },
            None => {},
        }
    }
}

proof fn lemma_digit(d: nat)
    requires
        d < 10,
    ensures
        digit_value(digit_char(d)) == Some(d),
{
    reveal_with_fuel(digit_char, 1);
}

proof fn lemma_decimal_scan(n: nat, max: nat)
    requires
        n <= max,
    ensures
        scan_digits(decimal(n), 0, 0, max, false) == Ok::<nat, IntError>(n),
        decimal(n).len() >= 1,
        digit_value(decimal(n)[0]) is Some,
    decreases n,
{
    if n < 10 {
        lemma_digit(n);
        assert(decimal(n) == seq![digit_char(n)]);
        assert(scan_digits(seq![digit_char(n)], 1, n, max, false) == Ok::<nat, IntError>(n));
    } else {
        lemma_decimal_scan(n / 10, max);
        lemma_digit(n % 10);
        lemma_scan_push(decimal(n / 10), digit_char(n % 10), 0, 0, max, false);
        assert(decimal(n)[0] == decimal(n / 10)[0]);
    }
}

/// A numeral written by the compiler (the number of a string in the
/// register, `"n`) reads back as the same number.
pub proof fn law_decimal_reads_back(n: nat, max: nat)
    requires
        n <= max,
    ensures
        parse_unsigned(decimal(n), max) == Ok::<nat, IntError>(n),
{
    lemma_decimal_scan(n, max);
    let s = decimal(n);
    assert(s[0] != '+' && s[0] != '-');
}


// ===========================> Linking and loading <===========================

/// The word a command becomes, its label replaced by its address.
pub open spec fn resolved_word(c: CommandV, labels: Map<Seq<char>, usize>) -> u16 {
    match c {
        CommandV::Word(w) => w,
        CommandV::Label(l) => labels[l] as u16,
    }
}

/// The memory a linked program loads as: the start-up program from
/// address 0, the program from address 256, zeros elsewhere.
pub open spec fn linked_memory(code: CodegenV) -> Seq<u16> {
    let labels = shifted_labels(code.labels);
    let init = init_code(labels.contains_key("IO_ISR"@));
    let init_labels = init.labels.union_prefer_right(labels);
    Seq::new(
        65536,
        |a: int|
            if 0 <= a < init.commands.len() {
                resolved_word(init.commands[a], init_labels)
            } else if 256 <= a < 256 + code.commands.len() {
                resolved_word(code.commands[a - 256], labels)
            } else {
                0u16
            },
    )
}

proof fn lemma_le_word(w: u16)
    ensures
        image_word(le_bytes(w), 0) == w,
{
    let b = le_bytes(w);
    assert(b[0] == (w % 256) as u8 && b[1] == (w / 256) as u8);
    assert(((w % 256) as u8) as int == w % 256);
    assert(((w / 256) as u8) as int == w / 256);
    assert(w % 256 + 256 * (w / 256) == w);
}

proof fn lemma_image_concat(x: Seq<u8>, y: Seq<u8>, k: int)
    requires
        x.len() % 2 == 0,
        0 <= k,
        2 * k + 1 < x.len() + y.len(),
    ensures
        image_word(x + y, k) == if k < x.len() / 2 {
            image_word(x, k)
        } else {
            image_word(y, k - x.len() / 2)
        },
{
    let z = x + y;
    if k < x.len() / 2 {
        assert(z[2 * k] == x[2 * k] && z[2 * k + 1] == x[2 * k + 1]);
    } else {
        let j = k - x.len() / 2;
        assert(z[2 * k] == y[2 * j] && z[2 * k + 1] == y[2 * j + 1]);
    }
}

proof fn lemma_resolve(cs: Seq<CommandV>, i: int, labels: Map<Seq<char>, usize>)
    requires
        0 <= i <= cs.len(),
    ensures
        resolve(cs, i, labels) matches Ok(b) ==> b.len() == 2 * (cs.len() - i) && forall|k: int|
            0 <= k < cs.len() - i ==> #[trigger] image_word(b, k) == resolved_word(
                cs[i + k],
                labels,
            ),
    decreases cs.len() - i,
{
    if i < cs.len() {
        lemma_resolve(cs, i + 1, labels);
        match resolve(cs, i, labels) {
            Ok(b) => {
                let h = match cs[i] {
                    CommandV::Word(w) => le_bytes(w),
                    CommandV::Label(l) => le_bytes(labels[l] as u16),
                };
                let rest = resolve(cs, i + 1, labels)->Ok_0;
                assert(b == h + rest);
                assert forall|k: int| 0 <= k < cs.len() - i implies #[trigger] image_word(b, k)
                    == resolved_word(cs[i + k], labels) by {
                    lemma_image_concat(h, rest, k);
                    if k == 0 {
                        lemma_le_word(resolved_word(cs[i], labels));
                    } else {
                        assert(cs[i + 1 + (k - 1)] == cs[i + k]);
                    }
                }
            },
            Err(_) => {},
        }
    }
}

/// The binary the linker writes loads as the linked memory: the start-up
/// program at address 0 and the program at address 256, each label
/// replaced by its address.
#[verifier::spinoff_prover]
#[verifier::rlimit(100)]
pub proof fn law_linked_binary_loads(code: CodegenV, b: Seq<u8>)
    requires
        link_spec(code) == Ok::<Seq<u8>, LinkErrorV>(b),
    ensures
        load_image(b) == Some(linked_memory(code)),
{
    let labels = shifted_labels(code.labels);
    let init = init_code(labels.contains_key("IO_ISR"@));
    let init_labels = init.labels.union_prefer_right(labels);
    let n1: int = init.commands.len() as int;
    let n2: int = code.commands.len() as int;
    let ib = resolve(init.commands, 0, init_labels)->Ok_0;
    let mb = resolve(code.commands, 0, labels)->Ok_0;
    lemma_resolve(init.commands, 0, init_labels);
    lemma_resolve(code.commands, 0, labels);
    let a0 = le_bytes(0);
    let a1 = a0 + le_bytes(n1 as u16);
    let a2 = a1 + ib;
    let a3 = a2 + le_bytes(256);
    let a4 = a3 + le_bytes(n2 as u16);
    assert(b == a4 + mb);
    let n: int = 4 + n1 + n2;
    assert(b.len() == 2 * n);
    // The header words.
    assert(image_word(b, 0) == 0) by {
        lemma_image_concat(a4, mb, 0);
        lemma_image_concat(a3, le_bytes(n2 as u16), 0);
        lemma_image_concat(a2, le_bytes(256), 0);
        lemma_image_concat(a1, ib, 0);
        lemma_image_concat(a0, le_bytes(n1 as u16), 0);
        lemma_le_word(0);
    }
    assert(image_word(b, 1) == n1) by {
        lemma_image_concat(a4, mb, 1);
        lemma_image_concat(a3, le_bytes(n2 as u16), 1);
        lemma_image_concat(a2, le_bytes(256), 1);
        lemma_image_concat(a1, ib, 1);
        lemma_image_concat(a0, le_bytes(n1 as u16), 1);
        lemma_le_word(n1 as u16);
    }
    assert(image_word(b, 2 + n1) == 256) by {
        lemma_image_concat(a4, mb, 2 + n1);
        lemma_image_concat(a3, le_bytes(n2 as u16), 2 + n1);
        lemma_image_concat(a2, le_bytes(256), 2 + n1);
        lemma_le_word(256);
    }
    assert(image_word(b, 3 + n1) == n2) by {
        lemma_image_concat(a4, mb, 3 + n1);
        lemma_image_concat(a3, le_bytes(n2 as u16), 3 + n1);
        lemma_le_word(n2 as u16);
    }
    assert forall|a: int| 0 <= a < n1 implies #[trigger] image_word(b, 2 + a) == resolved_word(
        init.commands[a],
        init_labels,
    ) by {
        lemma_image_concat(a4, mb, 2 + a);
        lemma_image_concat(a3, le_bytes(n2 as u16), 2 + a);
        lemma_image_concat(a2, le_bytes(256), 2 + a);
        lemma_image_concat(a1, ib, 2 + a);
        assert(image_word(ib, a) == resolved_word(init.commands[0 + a], init_labels));
    }
    assert forall|j: int| 0 <= j < n2 implies #[trigger] image_word(b, 4 + n1 + j) == resolved_word(
        code.commands[j],
        labels,
    ) by {
        lemma_image_concat(a4, mb, 4 + n1 + j);
        assert(image_word(mb, j) == resolved_word(code.commands[0 + j], labels));
    }
    // The two blocks.
    let mem1 = write_block(zero_memory(), b, 0, 2, n1);
    let mem2 = write_block(mem1, b, 256, 4 + n1, n2);
    assert(load_blocks(b, (2 + n1) as nat, mem1) == load_blocks(b, n as nat, mem2));
    assert(load_blocks(b, 0, zero_memory()) == load_blocks(b, (2 + n1) as nat, mem1));
    assert(n1 <= 63);
    assert forall|a: int| 0 <= a < 65536 implies #[trigger] mem2[a] == linked_memory(code)[a] by {
        if 256 <= a < 256 + n2 {
            assert(mem2[a] == image_word(b, 4 + n1 + a - 256));
            assert(image_word(b, 4 + n1 + (a - 256)) == resolved_word(code.commands[a - 256], labels));
        } else if 0 <= a < n1 {
            assert(mem1[a] == image_word(b, 2 + a - 0));
            assert(image_word(b, 2 + a) == resolved_word(init.commands[a], init_labels));
        } else {
            assert(mem1[a] == zero_memory()[a]);
        }
    }
    assert(mem2 =~= linked_memory(code));
}



// ===========================> What expressions compute <===========================

/// Expressions of numbers joined by `add` and `sub`.
pub open spec fn additive(e: ExprV) -> bool
    decreases e,
{
    match e {
        ExprV::Number(_) => true,
        ExprV::Expr(i) => additive(*i),
        ExprV::BinaryOp(op, l, r) => (op == Operator::Add || op == Operator::Sub) && additive(*l)
            && additive(*r),
        _ => false,
    }
}

/// The value of such an expression in 16-bit wrapping arithmetic.
pub open spec fn eval(e: ExprV) -> u16
    decreases e,
{
    match e {
        ExprV::Number(n) => n as u16,
        ExprV::Expr(i) => eval(*i),
        ExprV::BinaryOp(op, l, r) => if op == Operator::Add {
            wrap(eval(*l) + eval(*r))
        } else {
            wrap(eval(*l) - eval(*r))
        },
        _ => 0,
    }
}

/// The instruction of `add` or `sub`.
pub open spec fn additive_opcode(op: Operator) -> Opcode {
    if op == Operator::Add {
        Opcode::Add
    } else {
        Opcode::Sub
    }
}

/// The words the generator emits for such an expression: a number is moved
/// into AL; for `l op r`, r is computed and pushed, l is computed, r is
/// popped into BL, and AL gets `AL op BL`.
pub open spec fn code_of(e: ExprV) -> Seq<u16>
    decreases e,
{
    match e {
        ExprV::Number(n) => seq![spec_encode(Opcode::Mov, Mode::ImmToReg, Register::AL, Register::AL), n as u16],
        ExprV::Expr(i) => code_of(*i),
        ExprV::BinaryOp(op, l, r) => code_of(*r) + seq![
            spec_encode(Opcode::Push, Mode::RegToReg, Register::AL, Register::AL),
        ] + code_of(*l) + seq![
            spec_encode(Opcode::Pop, Mode::RegToReg, Register::BL, Register::AL),
            spec_encode(additive_opcode(op), Mode::RegToReg, Register::AL, Register::BL),
        ],
        _ => seq![],
    }
}

/// The stack words such an expression's code uses below SP.
pub open spec fn depth(e: ExprV) -> nat
    decreases e,
{
    match e {
        ExprV::Expr(i) => depth(*i),
        ExprV::BinaryOp(_, l, r) => if depth(*r) > 1 + depth(*l) {
            depth(*r)
        } else {
            1 + depth(*l)
        },
        _ => 0,
    }
}

/// The ticks such an expression's code takes.
pub open spec fn time(e: ExprV) -> nat
    decreases e,
{
    match e {
        ExprV::Number(_) => 5,
        ExprV::Expr(i) => time(*i),
        ExprV::BinaryOp(_, l, r) => time(*r) + 6 + time(*l) + 7 + 4,
        _ => 0,
    }
}

/// Commands that are the given words.
pub open spec fn words(ws: Seq<u16>) -> Seq<CommandV> {
    ws.map_values(|w: u16| CommandV::Word(w))
}

/// Memory holds the given words from `ip` on.
pub open spec fn code_at(mem: Seq<u16>, ip: int, code: Seq<u16>) -> bool {
    forall|k: int| 0 <= k < code.len() ==> mem[ip + k] == #[trigger] code[k]
}

/// Two memories that agree outside `[lo, hi)`.
pub open spec fn same_outside(a: Seq<u16>, b: Seq<u16>, lo: int, hi: int) -> bool {
    &&& a.len() == b.len()
    &&& forall|x: int| 0 <= x < a.len() && !(lo <= x < hi) ==> #[trigger] a[x] == b[x]
}

proof fn lemma_code_of(st: CodegenV, e: ExprV, vars: Map<Seq<char>, u16>)
    requires
        additive(e),
    ensures
        expr_code(st, e, vars) == emit(st, words(code_of(e))),
    decreases e,
{
    match e {
        ExprV::Number(n) => {
            assert(words(code_of(e)) =~= seq![
                crate::compiler::codegen::ins(Opcode::Mov, Mode::ImmToReg, Register::AL, Register::AL),
                CommandV::Word(n as u16),
            ]);
        },
        ExprV::Expr(i) => {
            lemma_code_of(st, *i, vars);
        },
        ExprV::BinaryOp(op, l, r) => {
            lemma_code_of(st, *r, vars);
            let s1 = emit(st, words(code_of(*r)));
            let s1p = emit(s1, seq![crate::compiler::codegen::ins(Opcode::Push, Mode::RegToReg, Register::AL, Register::AL)]);
            lemma_code_of(s1p, *l, vars);
            let s2 = emit(s1p, words(code_of(*l)));
            let s3 = emit(s2, seq![crate::compiler::codegen::ins(Opcode::Pop, Mode::RegToReg, Register::BL, Register::AL)]);
            let fin = emit(s3, seq![crate::compiler::codegen::ins(additive_opcode(op), Mode::RegToReg, Register::AL, Register::BL)]);
            assert(crate::compiler::codegen::op_code(s3, op) == fin);
            assert(fin.commands =~= st.commands + words(code_of(e)));
            assert(fin == emit(st, words(code_of(e))));
        },
        _ => {},
    }
}

#[verifier::spinoff_prover]
#[verifier::rlimit(100)]
proof fn lemma_runs(m: MachineView, e: ExprV)
    requires
        additive(e),
        fetching(m),
        m.dp.ip >= 0x100,
        m.dp.ip + code_of(e).len() < 0xFFFE,
        code_at(m.dp.memory, m.dp.ip as int, code_of(e)),
        m.dp.regs[6] >= 0x100 + depth(e),
        m.dp.regs[6] <= m.dp.ip || m.dp.ip + code_of(e).len() <= m.dp.regs[6] - depth(e),
    ensures
        ticks(m, time(e)) matches Ok(m2) && {
            &&& m2.dp.regs[0] == eval(e)
            &&& m2.dp.regs[6] == m.dp.regs[6]
            &&& m2.dp.regs.len() == 8
            &&& m2.dp.ip == m.dp.ip + code_of(e).len()
            &&& same_outside(
                m2.dp.memory,
                m.dp.memory,
                m.dp.regs[6] - depth(e),
                m.dp.regs[6] as int,
            )
            &&& m2.dp.io_write_data == m.dp.io_write_data
            &&& m2.dp.io_irq == m.dp.io_irq
            &&& m2.cu.state == crate::cpu::control_unit::CUState::InstructionFetch
            &&& m2.cu.step == 0
            &&& !m2.cu.halted
        },
    decreases e,
{
    let ip = m.dp.ip as int;
    let sp = m.dp.regs[6];
    match e {
        ExprV::Number(n) => {
            assert(code_of(e)[0] == spec_encode(Opcode::Mov, Mode::ImmToReg, Register::AL, Register::AL));
            assert(code_of(e)[1] == n as u16);
            law_imm_to_reg(m, Opcode::Mov, Register::AL, Register::AL);
            let m2 = ticks(m, 5)->Ok_0;
            assert(m2.dp.regs[0] == n as u16) by {
                reveal(crate::cpu::data_path::alu);
            }
        },
        ExprV::Expr(i) => {
            lemma_runs(m, *i);
        },
        ExprV::BinaryOp(op, l, r) => {
            let cr = code_of(*r);
            let cl = code_of(*l);
            let c = code_of(e);
            assert(c =~= cr + seq![spec_encode(Opcode::Push, Mode::RegToReg, Register::AL, Register::AL)]
                + cl + seq![
                spec_encode(Opcode::Pop, Mode::RegToReg, Register::BL, Register::AL),
                spec_encode(additive_opcode(op), Mode::RegToReg, Register::AL, Register::BL),
            ]);
            let ip1 = ip + cr.len();
            let ip2 = ip1 + 1;
            let ip3 = ip2 + cl.len();
            // r
            assert(code_at(m.dp.memory, ip, cr)) by {
                assert forall|k: int| 0 <= k < cr.len() implies m.dp.memory[ip + k] == #[trigger] cr[k] by {
                    assert(c[k] == cr[k]);
                }
            }
            lemma_runs(m, *r);
            let m1 = ticks(m, time(*r))->Ok_0;
            // push AL
            assert(m1.dp.memory[ip1] == spec_encode(Opcode::Push, Mode::RegToReg, Register::AL, Register::AL)) by {
                assert(c[cr.len() as int] == spec_encode(Opcode::Push, Mode::RegToReg, Register::AL, Register::AL));
            }
            assert(fetching(m1));
            law_push(m1, Register::AL, Register::AL);
            let m2 = ticks(m1, 6)->Ok_0;
            let s1 = below(sp);
            assert(s1 == sp - 1);
            assert(m2.dp.memory[s1 as int] == eval(*r));
            // l
            assert(code_at(m2.dp.memory, ip2, cl)) by {
                assert forall|k: int| 0 <= k < cl.len() implies m2.dp.memory[ip2 + k] == #[trigger] cl[k] by {
                    assert(c[cr.len() + 1 + k] == cl[k]);
                }
            }
            assert(fetching(m2));
            lemma_runs(m2, *l);
            let m3 = ticks(m2, time(*l))->Ok_0;
            assert(m3.dp.memory[s1 as int] == eval(*r));
            // pop BL
            assert(m3.dp.memory[ip3] == spec_encode(Opcode::Pop, Mode::RegToReg, Register::BL, Register::AL)) by {
                assert(c[ip3 - ip] == spec_encode(Opcode::Pop, Mode::RegToReg, Register::BL, Register::AL));
            }
            assert(fetching(m3));
            law_pop(m3, Register::BL, Register::AL);
            let m4 = ticks(m3, 7)->Ok_0;
            assert(wrap(s1 + 1) == sp);
            assert(m4.dp.regs[0] == eval(*l));
            assert(m4.dp.regs[2] == eval(*r));
            assert(m4.dp.regs[6] == sp);
            // op AL, BL
            assert(m4.dp.memory[ip3 + 1] == spec_encode(additive_opcode(op), Mode::RegToReg, Register::AL, Register::BL)) by {
                assert(c[ip3 - ip + 1] == spec_encode(additive_opcode(op), Mode::RegToReg, Register::AL, Register::BL));
            }
            assert(fetching(m4));
            law_alu_reg_to_reg(m4, additive_opcode(op), Register::AL, Register::BL);
            let m5 = ticks(m4, 4)->Ok_0;
            assert(m5.dp.regs[0] == eval(e)) by {
                reveal(crate::cpu::data_path::alu);
            }
            lemma_ticks_add(m, time(*r), 6);
            lemma_ticks_add(m, time(*r) + 6, time(*l));
            lemma_ticks_add(m, time(*r) + 6 + time(*l), 7);
            lemma_ticks_add(m, time(*r) + 6 + time(*l) + 7, 4);
            assert(same_outside(m5.dp.memory, m.dp.memory, sp - depth(e), sp as int));
        },
        _ => {},
    }
}

/// What the code of an expression computes: for an expression of numbers
/// joined by `add` and `sub`, the generator emits `code_of(e)`, and that
/// code, placed in memory away from the I/O ports and the stack, leaves the
/// expression's value (in 16-bit wrapping arithmetic) in AL and SP as it
/// was, touching memory only below SP.
pub proof fn law_expression_computes(st: CodegenV, e: ExprV, vars: Map<Seq<char>, u16>, m: MachineView)
    requires
        additive(e),
        fetching(m),
        m.dp.ip >= 0x100,
        m.dp.ip + code_of(e).len() < 0xFFFE,
        code_at(m.dp.memory, m.dp.ip as int, code_of(e)),
        m.dp.regs[6] >= 0x100 + depth(e),
        m.dp.regs[6] <= m.dp.ip || m.dp.ip + code_of(e).len() <= m.dp.regs[6] - depth(e),
    ensures
        expr_code(st, e, vars) == emit(st, words(code_of(e))),
        ticks(m, time(e)) matches Ok(m2) && {
            &&& m2.dp.regs[0] == eval(e)
            &&& m2.dp.regs[6] == m.dp.regs[6]
            &&& m2.dp.ip == m.dp.ip + code_of(e).len()
            &&& same_outside(
                m2.dp.memory,
                m.dp.memory,
                m.dp.regs[6] - depth(e),
                m.dp.regs[6] as int,
            )
            &&& m2.dp.io_write_data == m.dp.io_write_data
            &&& m2.cu.state == crate::cpu::control_unit::CUState::InstructionFetch
        },
{
    lemma_code_of(st, e, vars);
    lemma_runs(m, e);
}

// ===========================> Operators <===========================

/// The word of an operator in the source.
pub open spec fn operator_word(op: Operator) -> Seq<char> {
    match op {
        Operator::Add => "ADD"@,
        Operator::Sub => "SUB"@,
        Operator::Mul => "MUL"@,
        Operator::Div => "DIV"@,
        Operator::Mod => "MOD"@,
        Operator::Eq => "EQ"@,
        Operator::NotEq => "NEQ"@,
        Operator::Lt => "LT"@,
        Operator::Gt => "GT"@,
        Operator::LtEq => "LTEQ"@,
        Operator::GtEq => "GTEQ"@,
        Operator::And => "AND"@,
        Operator::Or => "OR"@,
    }
}

/// How tightly a kind of operator binds: products, then sums, then
/// orderings, then equalities, then `and`, then `or`.
pub open spec fn tier(op: Operator) -> int {
    match op {
        Operator::Mul | Operator::Div | Operator::Mod => 5,
        Operator::Add | Operator::Sub => 4,
        Operator::Lt | Operator::Gt | Operator::LtEq | Operator::GtEq => 3,
        Operator::Eq | Operator::NotEq => 2,
        Operator::And => 1,
        Operator::Or => 0,
    }
}

/// An operator word reads as the operator of that name (so no two words
/// read as one operator), and of two operators the one of the tighter kind
/// binds more tightly.
pub proof fn law_operator_words(w: Seq<char>, v: Seq<char>)
    ensures
        operator_of_word(w) matches Some((op, _)) ==> w == operator_word(op),
        (operator_of_word(w) is Some && operator_of_word(v) is Some) ==> ({
            let (o1, p1) = operator_of_word(w)->Some_0;
            let (o2, p2) = operator_of_word(v)->Some_0;
            &&& (p1 > p2) == (tier(o1) > tier(o2))
            &&& (p1 == p2) == (tier(o1) == tier(o2))
        }),
{
}

// ===========================> Comparisons <===========================

/// Whether a comparison holds of two words read as signed numbers.
pub open spec fn comparison_holds(op: Operator, a: u16, b: u16) -> bool {
    match op {
        Operator::Eq => a == b,
        Operator::NotEq => a != b,
        Operator::Lt => signed(a) < signed(b),
        Operator::Gt => signed(a) > signed(b),
        Operator::LtEq => signed(a) <= signed(b),
        Operator::GtEq => signed(a) >= signed(b),
        _ => false,
    }
}

/// The comparison operators.
pub open spec fn is_comparison(op: Operator) -> bool {
    ||| op == Operator::Eq
    ||| op == Operator::NotEq
    ||| op == Operator::Lt
    ||| op == Operator::Gt
    ||| op == Operator::LtEq
    ||| op == Operator::GtEq
}

/// The code of a comparison `l op r` (l in AL, r in BL): it compares AL with
/// BL, jumps to a label where AL gets 1, and otherwise gives AL 0; and the
/// jump is taken exactly when the comparison holds of l and r as signed
/// words. So the code leaves 1 in AL when `l op r` holds and 0 when not.
pub proof fn law_comparison_code(st: CodegenV, op: Operator, a: u16, b: u16, f: Flags)
    requires
        is_comparison(op),
    ensures
        ({
            let c = op_code(st, op);
            let n = st.commands.len() as int;
            let t = crate::compiler::codegen::numbered(".cmp true "@, st.label_counter, seq![]);
            &&& c.commands.len() == n + 9
            &&& c.commands[n] == ins(Opcode::Cmp, Mode::RegToReg, Register::AL, Register::BL)
            &&& c.commands[n + 1] == ins(comparison_jump(op), Mode::ImmToReg, Register::AL, Register::AL)
            &&& c.commands[n + 2] == CommandV::Label(t)
            &&& c.commands[n + 3] == ins(Opcode::Mov, Mode::ImmToReg, Register::AL, Register::AL)
            &&& c.commands[n + 4] == CommandV::Word(0)
            &&& c.labels[t] == (n + 7) as usize
            &&& c.commands[n + 7] == ins(Opcode::Mov, Mode::ImmToReg, Register::AL, Register::AL)
            &&& c.commands[n + 8] == CommandV::Word(1)
        }),
        crate::cpu::control_unit::jump_taken(comparison_jump(op), compare_flags(a, b, f))
            == comparison_holds(op, a, b),
{
    law_jumps_after_compare(a, b, f);
    let t = crate::compiler::codegen::numbered(".cmp true "@, st.label_counter, seq![]);
    let e = crate::compiler::codegen::numbered(".cmp end "@, st.label_counter, seq![]);
    assert(e != t) by {
        reveal_strlit(".cmp true ");
        reveal_strlit(".cmp end ");
        if e == t {
            assert(e[2] == t[2]);
        }
    }
    let cs = seq![
        ins(Opcode::Cmp, Mode::RegToReg, Register::AL, Register::BL),
        ins(comparison_jump(op), Mode::ImmToReg, Register::AL, Register::AL),
        CommandV::Label(t),
        ins(Opcode::Mov, Mode::ImmToReg, Register::AL, Register::AL),
        CommandV::Word(0),
        ins(Opcode::Jmp, Mode::ImmToReg, Register::AL, Register::AL),
        CommandV::Label(e),
    ];
    let s1 = emit(crate::compiler::codegen::bump(st), cs);
    let s2 = emit(
        crate::compiler::codegen::set_label(s1, t),
        seq![ins(Opcode::Mov, Mode::ImmToReg, Register::AL, Register::AL), CommandV::Word(1)],
    );
    let c = crate::compiler::codegen::set_label(s2, e);
    assert(op_code(st, op) == c);
    let n = st.commands.len() as int;
    assert(c.commands =~= st.commands + cs + seq![
        ins(Opcode::Mov, Mode::ImmToReg, Register::AL, Register::AL),
        CommandV::Word(1),
    ]);
    assert(c.commands[n + 7] == ins(Opcode::Mov, Mode::ImmToReg, Register::AL, Register::AL));
    assert(c.labels[t] == (n + 7) as usize);
}
} // verus!
