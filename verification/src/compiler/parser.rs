//! The parser: turns the lines of words of the line lexer into the syntax
//! tree of procedures and global variables.
use vstd::prelude::*;

use crate::compiler::chars::str_eq;
use crate::compiler::numbers::{
    decimal, decimal_chars, i32_chars, int_error_text, parse_i32, parse_signed, parse_u16,
    parse_unsigned, parse_usize,
    signed_decimal,
};
use crate::compiler::protolexer::{CompileError, SourceLineWords, SourceLineWordsView};
use vstd::string::{StrSliceExecFns, StringExecFns};
use crate::compiler::trees::{
    add_leaf, leaf, leaves_of, preorder, root_of, tree_leaf, tree_nodes, TreeV,
};
use termtree::Tree;

verus! {

/// A node of the syntax tree.
#[derive(Debug)]
pub enum ASTNode {
    Block { children: Vec<ASTNode> },
    Procedure { name: String, args: Vec<String>, block: Box<ASTNode> },
    If { expr: Expression, block: Box<ASTNode>, else_block: Option<Box<ASTNode>> },
    Loop { block: Box<ASTNode> },
    FnCall { name: String, args: Vec<Expression> },
    Variable { name: String, vtype: VarType },
    VariableSet { var: VariableUse, expr: Expression },
    Return,
    Stop,
}

/// The type of a variable: one word, or an array of the given size.
#[derive(Clone, Copy, Debug, PartialEq, Eq, Structural)]
pub enum VarType {
    Word,
    Array(u16),
}

/// A binary operator of expressions.
#[derive(Clone, Copy, Debug, PartialEq, Eq, Structural)]
pub enum Operator {
    Add,
    Sub,
    Mul,
    Div,
    Mod,
    Eq,
    NotEq,
    Lt,
    Gt,
    LtEq,
    GtEq,
    And,
    Or,
}

/// An expression.
#[derive(Debug)]
pub enum Expression {
    Number(i32),
    CString(usize),
    Variable(VariableUse),
    VariableAddr(String),
    Expr(Box<Expression>),
    BinaryOp { op: Operator, left: Box<Expression>, right: Box<Expression> },
}

/// A use of a variable, possibly indexed: `[offset] name`.
#[derive(Debug)]
pub struct VariableUse {
    pub name: String,
    pub deref_offset: Option<Box<Expression>>,
}

/// An expression as plain values.
pub enum ExprV {
    Number(i32),
    CString(usize),
    Variable(Seq<char>, Option<Box<ExprV>>),
    VariableAddr(Seq<char>),
    Expr(Box<ExprV>),
    BinaryOp(Operator, Box<ExprV>, Box<ExprV>),
}

/// A syntax tree node as plain values.
pub enum NodeV {
    Block(Seq<NodeV>),
    Procedure(Seq<char>, Seq<Seq<char>>, Box<NodeV>),
    If(ExprV, Box<NodeV>, Option<Box<NodeV>>),
    Loop(Box<NodeV>),
    FnCall(Seq<char>, Seq<ExprV>),
    Variable(Seq<char>, VarType),
    VariableSet(Seq<char>, Option<ExprV>, ExprV),
    Return,
    Stop,
}

/// The plain value of an expression.
pub open spec fn expr_view(e: Expression) -> ExprV
    decreases e,
{
    match e {
        Expression::Number(n) => ExprV::Number(n),
        Expression::CString(c) => ExprV::CString(c),
        Expression::Variable(v) => ExprV::Variable(
            v.name@,
            match v.deref_offset {
                Some(o) => Some(Box::new(expr_view(*o))),
                None => None,
            },
        ),
        Expression::VariableAddr(n) => ExprV::VariableAddr(n@),
        Expression::Expr(inner) => ExprV::Expr(Box::new(expr_view(*inner))),
        Expression::BinaryOp { op, left, right } => ExprV::BinaryOp(
            op,
            Box::new(expr_view(*left)),
            Box::new(expr_view(*right)),
        ),
    }
}

/// The plain values of a list of expressions.
pub open spec fn exprs_view(s: Seq<Expression>) -> Seq<ExprV>
    decreases s,
{
    Seq::new(s.len(), |i: int| if 0 <= i < s.len() { expr_view(s[i]) } else { ExprV::Number(0) })
}

/// The plain value of a syntax tree node.
pub open spec fn node_view(n: ASTNode) -> NodeV
    decreases n,
{
    match n {
        ASTNode::Block { children } => NodeV::Block(
            Seq::new(
                children@.len(),
                |i: int| if 0 <= i < children@.len() { node_view(children@[i]) } else { NodeV::Return },
            ),
        ),
        ASTNode::Procedure { name, args, block } => NodeV::Procedure(
            name@,
            args@.map_values(|a: String| a@),
            Box::new(node_view(*block)),
        ),
        ASTNode::If { expr, block, else_block } => NodeV::If(
            expr_view(expr),
            Box::new(node_view(*block)),
            match else_block {
                Some(b) => Some(Box::new(node_view(*b))),
                None => None,
            },
        ),
        ASTNode::Loop { block } => NodeV::Loop(Box::new(node_view(*block))),
        ASTNode::FnCall { name, args } => NodeV::FnCall(name@, exprs_view(args@)),
        ASTNode::Variable { name, vtype } => NodeV::Variable(name@, vtype),
        ASTNode::VariableSet { var, expr } => NodeV::VariableSet(
            var.name@,
            match var.deref_offset {
                Some(o) => Some(expr_view(*o)),
                None => None,
            },
            expr_view(expr),
        ),
        ASTNode::Return => NodeV::Return,
        ASTNode::Stop => NodeV::Stop,
    }
}


// ===========================> Errors <===========================

/// Why a part of the source could not be parsed.
#[derive(Debug)]
pub enum ParseError {
    /// A syntax error, with its message.
    Syntax(String),
    /// A line without words.
    EmptyLine,
    /// `REF` as the last word of a line.
    RefNameMissing,
    /// A word that starts with `"` and is not followed by a number.
    BadStringMarker,
}

/// A parse error as plain values.
pub enum PErr {
    Syntax(Seq<char>),
    EmptyLine,
    RefNameMissing,
    BadStringMarker,
}

impl View for ParseError {
    type V = PErr;

    open spec fn view(&self) -> PErr {
        match self {
            ParseError::Syntax(m) => PErr::Syntax(m@),
            ParseError::EmptyLine => PErr::EmptyLine,
            ParseError::RefNameMissing => PErr::RefNameMissing,
            ParseError::BadStringMarker => PErr::BadStringMarker,
        }
    }
}

/// A syntax error with the given message.
fn syntax_error(message: &str) -> (r: ParseError)
    ensures
        r@ == PErr::Syntax(message@),
{
    ParseError::Syntax(String::from_str(message))
}

// ===========================> Operators <===========================

/// The operator a word names, with its binding power.
pub open spec fn operator_of_word(w: Seq<char>) -> Option<(Operator, u8)> {
    if w == "MUL"@ {
        Some((Operator::Mul, 50))
    } else if w == "DIV"@ {
        Some((Operator::Div, 50))
    } else if w == "MOD"@ {
        Some((Operator::Mod, 50))
    } else if w == "ADD"@ {
        Some((Operator::Add, 40))
    } else if w == "SUB"@ {
        Some((Operator::Sub, 40))
    } else if w == "LT"@ {
        Some((Operator::Lt, 30))
    } else if w == "GT"@ {
        Some((Operator::Gt, 30))
    } else if w == "LTEQ"@ {
        Some((Operator::LtEq, 30))
    } else if w == "GTEQ"@ {
        Some((Operator::GtEq, 30))
    } else if w == "EQ"@ {
        Some((Operator::Eq, 20))
    } else if w == "NEQ"@ {
        Some((Operator::NotEq, 20))
    } else if w == "AND"@ {
        Some((Operator::And, 10))
    } else if w == "OR"@ {
        Some((Operator::Or, 0))
    } else {
        None
    }
}

impl Operator {
    /// The operator a word names, with its binding power.
    pub fn from_raw_with_power(raw: &str) -> (r: Option<(Operator, u8)>)
        ensures
            r == operator_of_word(raw@),
    {
        if str_eq(raw, "MUL") {
            Some((Operator::Mul, 50))
        } else if str_eq(raw, "DIV") {
            Some((Operator::Div, 50))
        } else if str_eq(raw, "MOD") {
            Some((Operator::Mod, 50))
        } else if str_eq(raw, "ADD") {
            Some((Operator::Add, 40))
        } else if str_eq(raw, "SUB") {
            Some((Operator::Sub, 40))
        } else if str_eq(raw, "LT") {
            Some((Operator::Lt, 30))
        } else if str_eq(raw, "GT") {
            Some((Operator::Gt, 30))
        } else if str_eq(raw, "LTEQ") {
            Some((Operator::LtEq, 30))
        } else if str_eq(raw, "GTEQ") {
            Some((Operator::GtEq, 30))
        } else if str_eq(raw, "EQ") {
            Some((Operator::Eq, 20))
        } else if str_eq(raw, "NEQ") {
            Some((Operator::NotEq, 20))
        } else if str_eq(raw, "AND") {
            Some((Operator::And, 10))
        } else if str_eq(raw, "OR") {
            Some((Operator::Or, 0))
        } else {
            None
        }
    }
}

/// The name of an operator, as `Debug` writes it.
pub open spec fn operator_name(op: Operator) -> Seq<char> {
    match op {
        Operator::Add => "Add"@,
        Operator::Sub => "Sub"@,
        Operator::Mul => "Mul"@,
        Operator::Div => "Div"@,
        Operator::Mod => "Mod"@,
        Operator::Eq => "Eq"@,
        Operator::NotEq => "NotEq"@,
        Operator::Lt => "Lt"@,
        Operator::Gt => "Gt"@,
        Operator::LtEq => "LtEq"@,
        Operator::GtEq => "GtEq"@,
        Operator::And => "And"@,
        Operator::Or => "Or"@,
    }
}

/// Appends the name of an operator.
fn push_operator_name(out: &mut String, op: Operator)
    ensures
        final(out)@ == old(out)@ + operator_name(op),
{
    match op {
        Operator::Add => out.append("Add"),
        Operator::Sub => out.append("Sub"),
        Operator::Mul => out.append("Mul"),
        Operator::Div => out.append("Div"),
        Operator::Mod => out.append("Mod"),
        Operator::Eq => out.append("Eq"),
        Operator::NotEq => out.append("NotEq"),
        Operator::Lt => out.append("Lt"),
        Operator::Gt => out.append("Gt"),
        Operator::LtEq => out.append("LtEq"),
        Operator::GtEq => out.append("GtEq"),
        Operator::And => out.append("And"),
        Operator::Or => out.append("Or"),
    }
}

// ===========================> Debug text <===========================

/// What `format!("{:?}", s)` gives for a string: the string in double
/// quotes, its special characters escaped.
pub uninterp spec fn debug_quoted(s: Seq<char>) -> Seq<char>;

/// Writes a string as `Debug` does: `format!("{:?}", s)` on a `&str`.
/// Trusted: the result is `debug_quoted` of the string, a function of the
/// string alone.
#[verifier::external_body]
fn debug_str(s: &str) -> (r: String)
    ensures
        r@ == debug_quoted(s@),
{
    format!("{:?}", s)
}

/// An expression as `Debug` writes it.
pub open spec fn expr_debug(e: ExprV) -> Seq<char>
    decreases e,
{
    match e {
        ExprV::Number(n) => "Number("@ + signed_decimal(n as int) + ")"@,
        ExprV::CString(c) => "CString("@ + decimal(c as nat) + ")"@,
        ExprV::Variable(name, offset) => "Variable(VariableUse { name: "@ + debug_quoted(name)
            + ", deref_offset: "@ + match offset {
            Some(o) => "Some("@ + expr_debug(*o) + ")"@,
            None => "None"@,
        } + " })"@,
        ExprV::VariableAddr(name) => "VariableAddr("@ + debug_quoted(name) + ")"@,
        ExprV::Expr(inner) => "Expr("@ + expr_debug(*inner) + ")"@,
        ExprV::BinaryOp(op, l, r) => "BinaryOp { op: "@ + operator_name(op) + ", left: "@
            + expr_debug(*l) + ", right: "@ + expr_debug(*r) + " }"@,
    }
}

/// Appends characters to a string.
fn push_chars(out: &mut String, cs: &Vec<char>)
    ensures
        final(out)@ == old(out)@ + cs@,
{
    let mut i: usize = 0;
    while i < cs.len()
        invariant
            i <= cs@.len(),
            out@ == old(out)@ + cs@.take(i as int),
        decreases cs@.len() - i,
    {
        out.push(cs[i]);
        i += 1;
        assert(out@ =~= old(out)@ + cs@.take(i as int));
    }
    assert(cs@.take(cs@.len() as int) =~= cs@);
}

/// Appends an expression as `Debug` writes it.
fn push_expr_debug(out: &mut String, e: &Expression)
    ensures
        final(out)@ == old(out)@ + expr_debug(expr_view(*e)),
    decreases e,
{
    match e {
        Expression::Number(n) => {
            out.append("Number(");
            push_chars(out, &i32_chars(*n));
            out.append(")");
        },
        Expression::CString(c) => {
            out.append("CString(");
            push_chars(out, &decimal_chars(*c));
            out.append(")");
        },
        Expression::Variable(v) => {
            out.append("Variable(VariableUse { name: ");
            let q = debug_str(v.name.as_str());
            out.append(q.as_str());
            out.append(", deref_offset: ");
            match &v.deref_offset {
                Some(o) => {
                    out.append("Some(");
                    push_expr_debug(out, o);
                    out.append(")");
                },
                None => {
                    out.append("None");
                },
            }
            out.append(" })");
        },
        Expression::VariableAddr(name) => {
            out.append("VariableAddr(");
            let q = debug_str(name.as_str());
            out.append(q.as_str());
            out.append(")");
        },
        Expression::Expr(inner) => {
            out.append("Expr(");
            push_expr_debug(out, inner);
            out.append(")");
        },
        Expression::BinaryOp { op, left, right } => {
            out.append("BinaryOp { op: ");
            push_operator_name(out, *op);
            out.append(", left: ");
            push_expr_debug(out, left);
            out.append(", right: ");
            push_expr_debug(out, right);
            out.append(" }");
        },
    }
}


// ===========================> Expressions <===========================

/// A unit of a flattened expression: an operator with its binding power, or
/// an operand.
enum ExprUnit {
    Operator((Operator, u8)),
    Operand(Expression),
}

/// A unit of a flattened expression as plain values.
pub enum UnitV {
    Operator(Operator, u8),
    Operand(ExprV),
}

spec fn unit_view(u: ExprUnit) -> UnitV {
    match u {
        ExprUnit::Operator((op, p)) => UnitV::Operator(op, p),
        ExprUnit::Operand(e) => UnitV::Operand(expr_view(e)),
    }
}

spec fn units_view(us: Seq<ExprUnit>) -> Seq<UnitV> {
    us.map_values(|u: ExprUnit| unit_view(u))
}

/// Every operator of the units binds with a power of at most 50.
pub open spec fn units_wf(us: Seq<UnitV>) -> bool {
    forall|i: int| 0 <= i < us.len() ==> (#[trigger] us[i] matches UnitV::Operator(_, p) ==> p <= 50)
}

/// The plain values of a list of words.
pub open spec fn words_view(words: Seq<String>) -> Seq<Seq<char>> {
    words.map_values(|w: String| w@)
}

/// The unit that a plain word stands for: an operator, a number, or a
/// variable.
pub open spec fn word_unit(w: Seq<char>) -> UnitV {
    match operator_of_word(w) {
        Some((op, p)) => UnitV::Operator(op, p),
        None => match parse_signed(w, 0x7fff_ffff) {
            Ok(n) => UnitV::Operand(ExprV::Number(n as i32)),
            Err(_) => UnitV::Operand(ExprV::Variable(w, None)),
        },
    }
}

/// Flattens the words of an expression from `j` on, up to the end or to a
/// terminator, after the units `us`: `REF name`, `[offset] name` and
/// `( expression )` make one operand each, `"n` the string `n` of the
/// register. Gives the units and where it stopped.
pub open spec fn expr_units(w: Seq<Seq<char>>, j: int, terms: Seq<Seq<char>>, us: Seq<UnitV>) -> Result<
    (Seq<UnitV>, int),
    PErr,
>
    decreases w.len() - j, 0int,
{
    if j < 0 || j >= w.len() || terms.contains(w[j]) {
        Ok((us, j))
    } else if w[j] == "REF"@ {
        if j + 1 >= w.len() {
            Err(PErr::RefNameMissing)
        } else {
            expr_units(w, j + 2, terms, us.push(UnitV::Operand(ExprV::VariableAddr(w[j + 1]))))
        }
    } else if w[j] == "["@ {
        match deref_of(w, j + 1) {
            Ok((v, j2)) => if j < j2 <= w.len() {
                expr_units(w, j2, terms, us.push(UnitV::Operand(v)))
            } else {
                Ok((us, j))
            },
            Err(e) => Err(e),
        }
    } else if w[j] == "("@ {
        match expr_of(w, j + 1, seq![")"@]) {
            Ok((e, j2)) => if j < j2 <= w.len() {
                expr_units(
                    w,
                    if j2 < w.len() {
                        j2 + 1
                    } else {
                        j2
                    },
                    terms,
                    us.push(UnitV::Operand(ExprV::Expr(Box::new(e)))),
                )
            } else {
                Ok((us, j))
            },
            Err(e) => Err(e),
        }
    } else if w[j].len() > 0 && w[j][0] == '"' {
        match parse_unsigned(w[j].drop_first(), usize::MAX as nat) {
            Ok(n) => expr_units(w, j + 1, terms, us.push(UnitV::Operand(ExprV::CString(n as usize)))),
            Err(_) => Err(PErr::BadStringMarker),
        }
    } else {
        expr_units(w, j + 1, terms, us.push(word_unit(w[j])))
    }
}

/// The expression in the words from `j` on, up to the end or to a
/// terminator, and where it stopped.
pub open spec fn expr_of(w: Seq<Seq<char>>, j: int, terms: Seq<Seq<char>>) -> Result<(ExprV, int), PErr>
    decreases w.len() - j, 1int,
{
    match expr_units(w, j, terms, seq![]) {
        Ok((us, j2)) => match pratt(us, 0, 0) {
            Ok((e, _)) => Ok((e, j2)),
            Err(e) => Err(e),
        },
        Err(e) => Err(e),
    }
}

/// An indexed variable `offset ] name` from `j` on, and where it stopped.
pub open spec fn deref_of(w: Seq<Seq<char>>, j: int) -> Result<(ExprV, int), PErr>
    decreases w.len() - j, 2int,
{
    match expr_of(w, j, seq!["]"@]) {
        Ok((off, j2)) => if j2 + 1 < w.len() {
            Ok((ExprV::Variable(w[j2 + 1], Some(Box::new(off))), j2 + 2))
        } else {
            Err(PErr::Syntax("Syntax error - variable name not found"@))
        },
        Err(e) => Err(e),
    }
}

/// Precedence climbing: an operand at `k`, then the operators that bind at
/// least as strongly as `min_bp`.
pub open spec fn pratt(us: Seq<UnitV>, k: int, min_bp: u8) -> Result<(ExprV, int), PErr>
    decreases us.len() - k, 1int,
{
    if k < 0 || k >= us.len() {
        Err(PErr::Syntax("Syntax error - unexpected end of file. Expected operand"@))
    } else {
        match us[k] {
            UnitV::Operator(op, _) => Err(
                PErr::Syntax(
                    "Syntax error - unexpected operator ("@ + operator_name(op) + "), expected operand"@,
                ),
            ),
            UnitV::Operand(n) => pratt_rest(us, k + 1, min_bp, n),
        }
    }
}

/// The operators after the left operand `lhs`, from `k` on.
pub open spec fn pratt_rest(us: Seq<UnitV>, k: int, min_bp: u8, lhs: ExprV) -> Result<(ExprV, int), PErr>
    decreases us.len() - k, 0int,
{
    if k < 0 || k >= us.len() {
        Ok((lhs, k))
    } else {
        match us[k] {
            UnitV::Operand(o) => Err(
                PErr::Syntax(
                    "Syntax error - unexpected operand ("@ + expr_debug(o) + "), expected operator"@,
                ),
            ),
            UnitV::Operator(op, l_bp) => if l_bp < min_bp {
                Ok((lhs, k))
            } else {
                match pratt(us, k + 1, (l_bp + 1) as u8) {
                    Ok((rhs, k2)) => if k < k2 <= us.len() {
                        pratt_rest(us, k2, min_bp, ExprV::BinaryOp(op, Box::new(lhs), Box::new(rhs)))
                    } else {
                        Ok((lhs, k))
                    },
                    Err(e) => Err(e),
                }
            },
        }
    }
}

/// A copy of an expression.
fn copy_expr(e: &Expression) -> (r: Expression)
    ensures
        expr_view(r) == expr_view(*e),
    decreases e,
{
    match e {
        Expression::Number(n) => Expression::Number(*n),
        Expression::CString(c) => Expression::CString(*c),
        Expression::Variable(v) => Expression::Variable(
            VariableUse {
                name: v.name.clone(),
                deref_offset: match &v.deref_offset {
                    Some(o) => Some(Box::new(copy_expr(o))),
                    None => None,
                },
            },
        ),
        Expression::VariableAddr(n) => Expression::VariableAddr(n.clone()),
        Expression::Expr(inner) => Expression::Expr(Box::new(copy_expr(inner))),
        Expression::BinaryOp { op, left, right } => Expression::BinaryOp {
            op: *op,
            left: Box::new(copy_expr(left)),
            right: Box::new(copy_expr(right)),
        },
    }
}

/// Precedence climbing over the units from `*k` on.
fn pratt_parser(units: &Vec<ExprUnit>, k: &mut usize, min_bp: u8) -> (r: Result<Expression, ParseError>)
    requires
        units_wf(units_view(units@)),
        *old(k) <= units@.len(),
    ensures
        match pratt(units_view(units@), *old(k) as int, min_bp) {
            Ok((e, k2)) => r matches Ok(x) && expr_view(x) == e && *final(k) == k2 && *old(k)
                < k2 <= units@.len(),
            Err(e) => r matches Err(x) && x@ == e,
        },
    decreases units@.len() - *old(k),
{
    let ghost us = units_view(units@);
    let ghost k0 = *k as int;
    if *k >= units.len() {
        return Err(syntax_error("Syntax error - unexpected end of file. Expected operand"));
    }
    assert(us[k0] == unit_view(units@[k0]));
    let mut lhs = match &units[*k] {
        ExprUnit::Operand(n) => copy_expr(n),
        ExprUnit::Operator((op, _)) => {
            let mut m = String::from_str("Syntax error - unexpected operator (");
            push_operator_name(&mut m, *op);
            m.append("), expected operand");
            return Err(ParseError::Syntax(m));
        },
    };
    *k += 1;
    while *k < units.len()
        invariant
            us == units_view(units@),
            units_wf(us),
            k0 == *old(k),
            k0 < *k <= units@.len(),
            pratt(us, k0, min_bp) == pratt_rest(us, *k as int, min_bp, expr_view(lhs)),
        decreases units@.len() - *k,
    {
        let ghost kk = *k as int;
        assert(us[kk] == unit_view(units@[kk]));
        match &units[*k] {
            ExprUnit::Operand(o) => {
                let mut m = String::from_str("Syntax error - unexpected operand (");
                push_expr_debug(&mut m, o);
                m.append("), expected operator");
                return Err(ParseError::Syntax(m));
            },
            ExprUnit::Operator((op, l_bp)) => {
                if *l_bp < min_bp {
                    return Ok(lhs);
                }
                let op = *op;
                let r_bp: u8 = *l_bp + 1;
                *k += 1;
                let rhs = match pratt_parser(units, k, r_bp) {
                    Ok(x) => x,
                    Err(e) => {
                        return Err(e);
                    },
                };
                lhs = Expression::BinaryOp { op, left: Box::new(lhs), right: Box::new(rhs) };
            },
        }
    }
    Ok(lhs)
}

/// Whether a word is one of the terminators.
fn is_terminator(word: &String, terminators: &[&str]) -> (r: bool)
    ensures
        r == terminators@.map_values(|t: &str| t@).contains(word@),
{
    let ghost ts = terminators@.map_values(|t: &str| t@);
    let mut i: usize = 0;
    while i < terminators.len()
        invariant
            i <= terminators@.len(),
            ts == terminators@.map_values(|t: &str| t@),
            forall|m: int| 0 <= m < i ==> ts[m] != word@,
        decreases terminators@.len() - i,
    {
        if str_eq(word.as_str(), terminators[i]) {
            assert(ts[i as int] == word@);
            return true;
        }
        i += 1;
    }
    false
}

impl Expression {
    /// Parses an expression from the words at `*pos` on, up to the end or to
    /// one of the terminators (which is not consumed).
    pub fn iter_parse(words: &Vec<String>, pos: &mut usize, terminators: &[&str]) -> (r: Result<
        Expression,
        ParseError,
    >)
        requires
            *old(pos) <= words@.len(),
        ensures
            match expr_of(
                words_view(words@),
                *old(pos) as int,
                terminators@.map_values(|t: &str| t@),
            ) {
                Ok((e, j)) => r matches Ok(x) && expr_view(x) == e && *final(pos) == j && *old(pos)
                    <= j <= words@.len(),
                Err(e) => r matches Err(x) && x@ == e,
            },
        decreases words@.len() - *old(pos), 1int,
    {
        let ghost w = words_view(words@);
        let ghost ts = terminators@.map_values(|t: &str| t@);
        let ghost p0 = *pos as int;
        let mut units: Vec<ExprUnit> = Vec::new();
        assert(units_view(units@) =~= seq![]);
        while *pos < words.len() && !is_terminator(&words[*pos], terminators)
            invariant
                w == words_view(words@),
                ts == terminators@.map_values(|t: &str| t@),
                p0 == *old(pos),
                p0 <= *pos <= words@.len(),
                units_wf(units_view(units@)),
                expr_units(w, p0, ts, seq![]) == expr_units(w, *pos as int, ts, units_view(units@)),
            decreases words@.len() - *pos,
        {
            let ghost j = *pos as int;
            let ghost old_units = units@;
            let word = &words[*pos];
            assert(w[j] == word@);
    *pos += 1;
            let unit = if str_eq(word.as_str(), "REF") {
                if *pos >= words.len() {
                    return Err(ParseError::RefNameMissing);
                }
                let name = words[*pos].clone();
                assert(w[j + 1] == name@);
    *pos += 1;
                ExprUnit::Operand(Expression::VariableAddr(name))
            } else if str_eq(word.as_str(), "[") {
                match VariableUse::iter_parse_arr_deref(words, pos) {
                    Ok(vu) => ExprUnit::Operand(Expression::Variable(vu)),
                    Err(e) => {
                        return Err(e);
                    },
                }
            } else if str_eq(word.as_str(), "(") {
                match Expression::iter_parse(words, pos, &[")"]) {
                    Ok(e) => {
                        proof {
                            reveal_strlit(")");
                            assert(seq![")"@] =~= [")"]@.map_values(|t: &str| t@));
                        }
                        if *pos < words.len() {
    *pos += 1;
                        }
                        ExprUnit::Operand(Expression::Expr(Box::new(e)))
                    },
                    Err(e) => {
                        proof {
                            assert(seq![")"@] =~= [")"]@.map_values(|t: &str| t@));
                        }
                        return Err(e);
                    },
                }
            } else if word.as_str().unicode_len() > 0 && word.as_str().get_char(0) == '"' {
                let n = word.as_str().unicode_len();
                let rest = word.as_str().substring_char(1, n);
                assert(rest@ =~= word@.drop_first());
                match parse_usize(rest) {
                    Ok(v) => ExprUnit::Operand(Expression::CString(v)),
                    Err(_) => {
                        return Err(ParseError::BadStringMarker);
                    },
                }
            } else {
                match Operator::from_raw_with_power(word.as_str()) {
                    Some(op) => ExprUnit::Operator(op),
                    None => match parse_i32(word.as_str()) {
                        Ok(n) => ExprUnit::Operand(Expression::Number(n)),
                        Err(_) => ExprUnit::Operand(
                            Expression::Variable(VariableUse::new_just_var(word.clone())),
                        ),
                    },
                }
            };
            units.push(unit);
            assert(units_view(units@) =~= units_view(old_units).push(unit_view(unit)));
        }
        let mut k: usize = 0;
        match pratt_parser(&units, &mut k, 0) {
            Ok(e) => Ok(e),
            Err(e) => Err(e),
        }
    }
}

impl VariableUse {
    /// A plain variable, without an index.
    pub fn new_just_var(name: String) -> (r: VariableUse)
        ensures
            r.name@ == name@,
            r.deref_offset is None,
    {
        VariableUse { name, deref_offset: None }
    }

    /// Parses an indexed variable `offset ] name`, from the words after `[`.
    pub fn iter_parse_arr_deref(words: &Vec<String>, pos: &mut usize) -> (r: Result<
        VariableUse,
        ParseError,
    >)
        requires
            *old(pos) <= words@.len(),
        ensures
            match deref_of(words_view(words@), *old(pos) as int) {
                Ok((v, j)) => r matches Ok(x) && expr_view(Expression::Variable(x)) == v
                    && *final(pos) == j && *old(pos) < j <= words@.len(),
                Err(e) => r matches Err(x) && x@ == e,
            },
        decreases words@.len() - *old(pos), 2int,
    {
        let offset = match Expression::iter_parse(words, pos, &["]"]) {
            Ok(e) => e,
            Err(e) => {
                proof {
                    assert(seq!["]"@] =~= ["]"]@.map_values(|t: &str| t@));
                }
                return Err(e);
            },
        };
        proof {
            assert(seq!["]"@] =~= ["]"]@.map_values(|t: &str| t@));
        }
        if words.len() - *pos > 1 {
            let name = words[*pos + 1].clone();
            *pos += 2;
            Ok(VariableUse { name, deref_offset: Some(Box::new(offset)) })
        } else {
            *pos = words.len();
            Err(syntax_error("Syntax error - variable name not found"))
        }
    }
}


// ===========================> Lines <===========================

/// The plain values of the lines.
pub open spec fn lines_view(lines: Seq<SourceLineWords>) -> Seq<SourceLineWordsView> {
    lines.map_values(|l: SourceLineWords| l@)
}

/// The plain values of a list of nodes.
pub open spec fn nodes_view(s: Seq<ASTNode>) -> Seq<NodeV> {
    Seq::new(s.len(), |i: int| node_view(s[i]))
}

/// What parsing a part of the lines gives: the node and the line after it,
/// or the error and the line at which the reading stopped.
pub type PartResult = Result<(NodeV, int), (PErr, int)>;

/// The block of the lines from `p` on that are indented deeper than
/// `depth`, after the statements `children`.
pub open spec fn block_of(ls: Seq<SourceLineWordsView>, p: int, depth: usize, children: Seq<NodeV>) -> PartResult
    decreases ls.len() - p, 2int,
{
    if p < 0 || p >= ls.len() || ls[p].source_line.power <= depth {
        Ok((NodeV::Block(children), p))
    } else {
        match statement_of(ls, p) {
            Ok((n, p2)) => if p < p2 <= ls.len() {
                block_of(ls, p2, depth, children.push(n))
            } else {
                Ok((NodeV::Block(children), p))
            },
            Err(e) => Err(e),
        }
    }
}

/// The statement that starts at line `p`, chosen by its first word.
pub open spec fn statement_of(ls: Seq<SourceLineWordsView>, p: int) -> PartResult
    decreases ls.len() - p, 1int,
{
    if p < 0 || p >= ls.len() || ls[p].words.len() == 0 {
        Err((PErr::EmptyLine, p))
    } else {
        let w0 = ls[p].words[0];
        if w0 == "IF"@ {
            if_of(ls, p)
        } else if w0 == "LOOP"@ {
            loop_of(ls, p)
        } else if w0 == "VARIABLE"@ {
            variable_of(ls, p)
        } else if w0 == "ARRAY"@ {
            array_of(ls, p)
        } else if w0 == "CALL"@ {
            call_of(ls, p)
        } else if w0 == "STOP"@ {
            Ok((NodeV::Stop, p + 1))
        } else if w0 == "RETURN"@ {
            Ok((NodeV::Return, p + 1))
        } else {
            variable_set_of(ls, p)
        }
    }
}

/// `IF condition`, its block, and an optional `ELSE` line with its block.
/// The block is read before the condition.
pub open spec fn if_of(ls: Seq<SourceLineWordsView>, p: int) -> PartResult
    decreases ls.len() - p, 0int,
{
    if p < 0 || p >= ls.len() {
        Err((PErr::EmptyLine, p))
    } else {
        match block_of(ls, p + 1, ls[p].source_line.power, seq![]) {
            Err(e) => Err(e),
            Ok((b, q)) => match expr_of(ls[p].words, 1, seq![]) {
                Err(e) => Err((e, q)),
                Ok((cond, _)) => if p < q < ls.len() && ls[q].words.len() > 0 && ls[q].words[0]
                    == "ELSE"@ {
                    match block_of(ls, q + 1, ls[q].source_line.power, seq![]) {
                        Ok((eb, r)) => Ok(
                            (NodeV::If(cond, Box::new(b), Some(Box::new(eb))), r),
                        ),
                        Err(e) => Err(e),
                    }
                } else {
                    Ok((NodeV::If(cond, Box::new(b), None), q))
                },
            },
        }
    }
}

/// `LOOP` and its block.
pub open spec fn loop_of(ls: Seq<SourceLineWordsView>, p: int) -> PartResult
    decreases ls.len() - p, 0int,
{
    if p < 0 || p >= ls.len() {
        Err((PErr::EmptyLine, p))
    } else {
        match block_of(ls, p + 1, ls[p].source_line.power, seq![]) {
            Ok((b, q)) => Ok((NodeV::Loop(Box::new(b)), q)),
            Err(e) => Err(e),
        }
    }
}

/// `VARIABLE name`.
pub open spec fn variable_of(ls: Seq<SourceLineWordsView>, p: int) -> PartResult {
    let w = ls[p].words;
    if w.len() < 2 {
        Err((PErr::Syntax("Syntax error - name of the variable not found"@), p + 1))
    } else {
        Ok((NodeV::Variable(w[1], VarType::Word), p + 1))
    }
}

/// `ARRAY name size`, with a size from 1 to 65535.
pub open spec fn array_of(ls: Seq<SourceLineWordsView>, p: int) -> PartResult {
    let w = ls[p].words;
    if w.len() < 3 {
        Err((PErr::Syntax("Syntax error - name of the array not found"@), p + 1))
    } else {
        match parse_unsigned(w[2], 0xffff) {
            Err(e) => Err(
                (
                    PErr::Syntax(
                        "Syntax error - array size parsing error. It must be unsigned number\n"@
                            + int_error_text(e),
                    ),
                    p + 1,
                ),
            ),
            Ok(n) => if n == 0 {
                Err((PErr::Syntax("Error - array size must be greater than zero"@), p + 1))
            } else {
                Ok((NodeV::Variable(w[1], VarType::Array(n as u16)), p + 1))
            },
        }
    }
}

/// The arguments of a call, separated by commas, from word `j` on, after
/// the arguments `acc`.
pub open spec fn args_of(w: Seq<Seq<char>>, j: int, acc: Seq<ExprV>) -> Result<Seq<ExprV>, PErr>
    decreases w.len() - j,
{
    match expr_of(w, j, seq![","@]) {
        Err(e) => Err(e),
        Ok((a, j2)) => if j2 < 0 || j2 >= w.len() {
            Ok(acc.push(a))
        } else if w[j2] == ","@ {
            if j <= j2 < w.len() {
                args_of(w, j2 + 1, acc.push(a))
            } else {
                Ok(acc.push(a))
            }
        } else {
            Err(PErr::Syntax("Syntax error - unexpected sumbol '"@ + w[j2] + "'"@))
        },
    }
}

/// `CALL name arguments`.
pub open spec fn call_of(ls: Seq<SourceLineWordsView>, p: int) -> PartResult {
    let w = ls[p].words;
    if w.len() < 2 {
        Err((PErr::Syntax("Syntax error - function name not found"@), p + 1))
    } else if w.len() == 2 {
        Ok((NodeV::FnCall(w[1], seq![]), p + 1))
    } else {
        match args_of(w, 2, seq![]) {
            Ok(args) => Ok((NodeV::FnCall(w[1], args), p + 1)),
            Err(e) => Err((e, p + 1)),
        }
    }
}

/// `target = expression`, where the target is a name or `[offset] name`.
pub open spec fn variable_set_of(ls: Seq<SourceLineWordsView>, p: int) -> PartResult {
    let w = ls[p].words;
    if w.len() == 0 {
        Err((PErr::Syntax("Syntax error - expected variable name"@), p + 1))
    } else {
        let target: Result<(Seq<char>, Option<ExprV>, int), PErr> = if w[0] == "["@ {
            match deref_of(w, 1) {
                Ok((ExprV::Variable(name, Some(off)), j)) => Ok((name, Some(*off), j)),
                Ok((_, j)) => Ok((seq![], None, j)),
                Err(e) => Err(e),
            }
        } else {
            Ok((w[0], None, 1))
        };
        match target {
            Err(e) => Err((e, p + 1)),
            Ok((name, off, j)) => if 0 <= j < w.len() && w[j] == "="@ {
                match expr_of(w, j + 1, seq![]) {
                    Ok((e, _)) => Ok((NodeV::VariableSet(name, off, e), p + 1)),
                    Err(e) => Err((e, p + 1)),
                }
            } else {
                Err((PErr::Syntax("Syntax error - expected '=' sign."@), p + 1))
            },
        }
    }
}

/// `PROCEDURE name arguments` and its block.
pub open spec fn procedure_of(ls: Seq<SourceLineWordsView>, p: int) -> PartResult {
    let w = ls[p].words;
    if w.len() < 2 {
        Err((PErr::Syntax("Syntax error - name of the procedure not found"@), p + 1))
    } else {
        match block_of(ls, p + 1, ls[p].source_line.power, seq![]) {
            Ok((b, q)) => Ok((NodeV::Procedure(w[1], w.subrange(2, w.len() as int), Box::new(b)), q)),
            Err(e) => Err(e),
        }
    }
}


/// Why the lines could not be parsed, as plain values.
pub enum ParseFailureV {
    Syntax(Seq<char>, usize),
    EmptyLine,
    RefNameMissing,
    BadStringMarker,
}

/// The last of the first `n` lines whose number is below `bound`.
pub open spec fn last_below(ls: Seq<SourceLineWordsView>, n: int, bound: usize) -> Option<int>
    decreases n,
{
    if n <= 0 || n > ls.len() {
        None
    } else if ls[n - 1].source_line.line_number < bound {
        Some(n - 1)
    } else {
        last_below(ls, n - 1, bound)
    }
}

/// The line a syntax error is reported at, when the reading stopped at line
/// `q`: the last line numbered before line `q` (the first line if there is
/// none), or the last line when the reading reached the end.
pub open spec fn error_line(ls: Seq<SourceLineWordsView>, q: int) -> usize {
    if 0 <= q < ls.len() {
        match last_below(ls, ls.len() as int, ls[q].source_line.line_number) {
            Some(i) => ls[i].source_line.line_number,
            None => ls[0].source_line.line_number,
        }
    } else {
        ls.last().source_line.line_number
    }
}

/// The failure that an error of a part gives.
pub open spec fn failure_of(ls: Seq<SourceLineWordsView>, e: PErr, q: int) -> ParseFailureV {
    match e {
        PErr::Syntax(m) => ParseFailureV::Syntax(m, error_line(ls, q)),
        PErr::EmptyLine => ParseFailureV::EmptyLine,
        PErr::RefNameMissing => ParseFailureV::RefNameMissing,
        PErr::BadStringMarker => ParseFailureV::BadStringMarker,
    }
}

/// The zero level from line `p` on, after the nodes `root`: procedures,
/// variables and arrays.
pub open spec fn top_of(ls: Seq<SourceLineWordsView>, p: int, root: Seq<NodeV>) -> Result<
    Seq<NodeV>,
    ParseFailureV,
>
    decreases ls.len() - p,
{
    if p < 0 || p >= ls.len() {
        Ok(root)
    } else if ls[p].words.len() == 0 {
        Err(ParseFailureV::EmptyLine)
    } else {
        let w0 = ls[p].words[0];
        if w0 != "PROCEDURE"@ && w0 != "VARIABLE"@ && w0 != "ARRAY"@ {
            Err(
                ParseFailureV::Syntax(
                    "Syntax error - unexpected construction. Only PROCEDURE, VARIABLE or ARRAY are allowed at zero level"@,
                    ls[p].source_line.line_number,
                ),
            )
        } else {
            let part = if w0 == "PROCEDURE"@ {
                procedure_of(ls, p)
            } else if w0 == "VARIABLE"@ {
                variable_of(ls, p)
            } else {
                array_of(ls, p)
            };
            match part {
                Ok((n, p2)) => if p < p2 <= ls.len() {
                    top_of(ls, p2, root.push(n))
                } else {
                    Ok(root)
                },
                Err((e, q)) => Err(failure_of(ls, e, q)),
            }
        }
    }
}

/// What parsing the lines gives.
pub open spec fn parse_of(ls: Seq<SourceLineWordsView>) -> Result<Seq<NodeV>, ParseFailureV> {
    top_of(ls, 0, seq![])
}

/// Whether a parser's result and end position are those of the model.
pub open spec fn part_matches(m: PartResult, r: Result<ASTNode, ParseError>, q: usize) -> bool {
    match m {
        Ok((n, p2)) => r matches Ok(x) && node_view(x) == n && q == p2,
        Err((e, p2)) => r matches Err(x) && x@ == e && q == p2,
    }
}

/// Parses the block of the lines from `*pos` on that are indented deeper
/// than `exit_depth`.
fn parse_block(lines: &Vec<SourceLineWords>, pos: &mut usize, exit_depth: usize) -> (r: Result<
    ASTNode,
    ParseError,
>)
    requires
        *old(pos) <= lines@.len(),
    ensures
        part_matches(
            block_of(lines_view(lines@), *old(pos) as int, exit_depth, seq![]),
            r,
            *final(pos),
        ),
        r is Ok ==> *old(pos) <= *final(pos) <= lines@.len(),
    decreases lines@.len() - *old(pos), 2int,
{
    let ghost ls = lines_view(lines@);
    let ghost p0 = *pos as int;
    let mut children: Vec<ASTNode> = Vec::new();
    assert(nodes_view(children@) =~= seq![]);
    while *pos < lines.len() && lines[*pos].source_line.power > exit_depth
        invariant
            ls == lines_view(lines@),
            p0 == *old(pos),
            p0 <= *pos <= lines@.len(),
            block_of(ls, p0, exit_depth, seq![]) == block_of(
                ls,
                *pos as int,
                exit_depth,
                nodes_view(children@),
            ),
        decreases lines@.len() - *pos,
    {
        let ghost p = *pos as int;
        let ghost old_children = children@;
        assert(ls[p] == lines@[p]@);
        let node = match parse_statement(lines, pos) {
            Ok(n) => n,
            Err(e) => {
                return Err(e);
            },
        };
        let ghost nv = node_view(node);
        children.push(node);
        assert(nodes_view(children@) =~= nodes_view(old_children).push(nv));
    }
    proof {
        if *pos < lines@.len() {
            assert(ls[*pos as int] == lines@[*pos as int]@);
        }
    }
    let ghost cv = nodes_view(children@);
    let r = ASTNode::Block { children };
    assert(node_view(r) == NodeV::Block(cv)) by {
        if let NodeV::Block(s) = node_view(r) {
            assert(s =~= cv);
        }
    }
    Ok(r)
}

/// Parses the statement at line `*pos`, chosen by its first word.
fn parse_statement(lines: &Vec<SourceLineWords>, pos: &mut usize) -> (r: Result<
    ASTNode,
    ParseError,
>)
    requires
        *old(pos) < lines@.len(),
    ensures
        part_matches(statement_of(lines_view(lines@), *old(pos) as int), r, *final(pos)),
        r is Ok ==> *old(pos) < *final(pos) <= lines@.len(),
    decreases lines@.len() - *old(pos), 1int,
{
    let ghost ls = lines_view(lines@);
    let ghost p = *pos as int;
    assert(ls[p] == lines@[p]@);
    let line = &lines[*pos];
    if line.words.len() == 0 {
        return Err(ParseError::EmptyLine);
    }
    let w0 = line.words[0].as_str();
    assert(ls[p].words[0] == w0@);
    if str_eq(w0, "IF") {
        parse_if(lines, pos)
    } else if str_eq(w0, "LOOP") {
        parse_loop(lines, pos)
    } else if str_eq(w0, "VARIABLE") {
        parse_variable(lines, pos)
    } else if str_eq(w0, "ARRAY") {
        parse_array(lines, pos)
    } else if str_eq(w0, "CALL") {
        parse_fn_call(lines, pos)
    } else if str_eq(w0, "STOP") {
        parse_stop(lines, pos)
    } else if str_eq(w0, "RETURN") {
        parse_return(lines, pos)
    } else {
        parse_variable_set(lines, pos)
    }
}

/// The word `idx` of a line, or the error with the given message.
fn try_get_word(idx: usize, line: &SourceLineWords, err: &str) -> (r: Result<String, ParseError>)
    ensures
        idx < line.words@.len() ==> (r matches Ok(w) && w@ == line.words@[idx as int]@),
        idx >= line.words@.len() ==> (r matches Err(e) && e@ == PErr::Syntax(err@)),
{
    if idx < line.words.len() {
        Ok(line.words[idx].clone())
    } else {
        Err(syntax_error(err))
    }
}

/// Parses `IF condition`, its block, and an optional `ELSE` block.
fn parse_if(lines: &Vec<SourceLineWords>, pos: &mut usize) -> (r: Result<ASTNode, ParseError>)
    requires
        *old(pos) < lines@.len(),
        lines@[*old(pos) as int].words@.len() > 0,
    ensures
        part_matches(if_of(lines_view(lines@), *old(pos) as int), r, *final(pos)),
        r is Ok ==> *old(pos) < *final(pos) <= lines@.len(),
    decreases lines@.len() - *old(pos), 0int,
{
    let ghost ls = lines_view(lines@);
    let ghost p = *pos as int;
    assert(ls[p] == lines@[p]@);
    let line = &lines[*pos];
    assert(*pos < lines.len());
    *pos += 1;
    let block = match parse_block(lines, pos, line.source_line.power) {
        Ok(b) => b,
        Err(e) => {
            return Err(e);
        },
    };
    let mut wpos: usize = 1;
    let no_terms: [&str; 0] = [];
    let cond = match Expression::iter_parse(&line.words, &mut wpos, &no_terms) {
        Ok(e) => e,
        Err(e) => {
            assert(no_terms@.map_values(|t: &str| t@) =~= seq![]);
            return Err(e);
        },
    };
    assert(no_terms@.map_values(|t: &str| t@) =~= seq![]);
    let ghost q = *pos as int;
    if *pos < lines.len() && lines[*pos].words.len() > 0 && str_eq(
        lines[*pos].words[0].as_str(),
        "ELSE",
    ) {
        assert(ls[q] == lines@[q]@);
        let else_power = lines[*pos].source_line.power;
        assert(*pos < lines.len());
    *pos += 1;
        let else_block = match parse_block(lines, pos, else_power) {
            Ok(b) => b,
            Err(e) => {
                return Err(e);
            },
        };
        Ok(
            ASTNode::If {
                expr: cond,
                block: Box::new(block),
                else_block: Some(Box::new(else_block)),
            },
        )
    } else {
        proof {
            if q < ls.len() {
                assert(ls[q] == lines@[q]@);
            }
        }
        Ok(ASTNode::If { expr: cond, block: Box::new(block), else_block: None })
    }
}

/// Parses `LOOP` and its block.
fn parse_loop(lines: &Vec<SourceLineWords>, pos: &mut usize) -> (r: Result<ASTNode, ParseError>)
    requires
        *old(pos) < lines@.len(),
    ensures
        part_matches(loop_of(lines_view(lines@), *old(pos) as int), r, *final(pos)),
        r is Ok ==> *old(pos) < *final(pos) <= lines@.len(),
    decreases lines@.len() - *old(pos), 0int,
{
    let ghost ls = lines_view(lines@);
    assert(ls[*pos as int] == lines@[*pos as int]@);
    let power = lines[*pos].source_line.power;
    assert(*pos < lines.len());
    *pos += 1;
    match parse_block(lines, pos, power) {
        Ok(b) => Ok(ASTNode::Loop { block: Box::new(b) }),
        Err(e) => Err(e),
    }
}

/// Parses the arguments of a call from word `j` on, appending them to
/// `args`.
fn parse_args(words: &Vec<String>, j: usize, args: &mut Vec<Expression>) -> (r: Result<
    (),
    ParseError,
>)
    requires
        j <= words@.len(),
    ensures
        match args_of(words_view(words@), j as int, exprs_view(old(args)@)) {
            Ok(s) => r is Ok && exprs_view(final(args)@) == s,
            Err(e) => r matches Err(x) && x@ == e,
        },
    decreases words@.len() - j,
{
    let ghost w = words_view(words@);
    let mut k: usize = j;
    let a = match Expression::iter_parse(words, &mut k, &[","]) {
        Ok(a) => a,
        Err(e) => {
            assert(seq![","@] =~= [","]@.map_values(|t: &str| t@));
            return Err(e);
        },
    };
    assert(seq![","@] =~= [","]@.map_values(|t: &str| t@));
    let ghost before = args@;
    let ghost av = expr_view(a);
    args.push(a);
    assert(exprs_view(args@) =~= exprs_view(before).push(av));
    if k >= words.len() {
        return Ok(());
    }
    assert(w[k as int] == words@[k as int]@);
    if str_eq(words[k].as_str(), ",") {
        parse_args(words, k + 1, args)
    } else {
        let mut m = String::from_str("Syntax error - unexpected sumbol '");
        m.append(words[k].as_str());
        m.append("'");
        Err(ParseError::Syntax(m))
    }
}

/// Parses `CALL name arguments`.
fn parse_fn_call(lines: &Vec<SourceLineWords>, pos: &mut usize) -> (r: Result<ASTNode, ParseError>)
    requires
        *old(pos) < lines@.len(),
    ensures
        part_matches(call_of(lines_view(lines@), *old(pos) as int), r, *final(pos)),
        *final(pos) == *old(pos) + 1,
{
    let ghost ls = lines_view(lines@);
    assert(ls[*pos as int] == lines@[*pos as int]@);
    let line = &lines[*pos];
    assert(*pos < lines.len());
    *pos += 1;
    let words = &line.words;
    if words.len() < 2 {
        return Err(syntax_error("Syntax error - function name not found"));
    }
    let name = words[1].clone();
    let mut args: Vec<Expression> = Vec::new();
    assert(exprs_view(args@) =~= seq![]);
    if words.len() > 2 {
        match parse_args(words, 2, &mut args) {
            Ok(()) => {},
            Err(e) => {
                return Err(e);
            },
        }
    }
    Ok(ASTNode::FnCall { name, args })
}

/// Parses `VARIABLE name`.
fn parse_variable(lines: &Vec<SourceLineWords>, pos: &mut usize) -> (r: Result<ASTNode, ParseError>)
    requires
        *old(pos) < lines@.len(),
    ensures
        part_matches(variable_of(lines_view(lines@), *old(pos) as int), r, *final(pos)),
        *final(pos) == *old(pos) + 1,
{
    let ghost ls = lines_view(lines@);
    assert(ls[*pos as int] == lines@[*pos as int]@);
    let line = &lines[*pos];
    assert(*pos < lines.len());
    *pos += 1;
    let name = match try_get_word(1, line, "Syntax error - name of the variable not found") {
        Ok(n) => n,
        Err(e) => {
            return Err(e);
        },
    };
    Ok(ASTNode::Variable { name, vtype: VarType::Word })
}

/// Parses `ARRAY name size`.
fn parse_array(lines: &Vec<SourceLineWords>, pos: &mut usize) -> (r: Result<ASTNode, ParseError>)
    requires
        *old(pos) < lines@.len(),
    ensures
        part_matches(array_of(lines_view(lines@), *old(pos) as int), r, *final(pos)),
        *final(pos) == *old(pos) + 1,
{
    let ghost ls = lines_view(lines@);
    assert(ls[*pos as int] == lines@[*pos as int]@);
    let line = &lines[*pos];
    assert(*pos < lines.len());
    *pos += 1;
    let name = match try_get_word(1, line, "Syntax error - name of the array not found") {
        Ok(n) => n,
        Err(e) => {
            return Err(e);
        },
    };
    let size = match try_get_word(2, line, "Syntax error - name of the array not found") {
        Ok(n) => n,
        Err(e) => {
            return Err(e);
        },
    };
    let size = match parse_u16(size.as_str()) {
        Ok(n) => n,
        Err(e) => {
            let mut m = String::from_str(
                "Syntax error - array size parsing error. It must be unsigned number\n",
            );
            let t = e.message();
            m.append(t.as_str());
            return Err(ParseError::Syntax(m));
        },
    };
    if size == 0 {
        return Err(syntax_error("Error - array size must be greater than zero"));
    }
    Ok(ASTNode::Variable { name, vtype: VarType::Array(size) })
}

/// Parses `target = expression`.
fn parse_variable_set(lines: &Vec<SourceLineWords>, pos: &mut usize) -> (r: Result<
    ASTNode,
    ParseError,
>)
    requires
        *old(pos) < lines@.len(),
    ensures
        part_matches(variable_set_of(lines_view(lines@), *old(pos) as int), r, *final(pos)),
        *final(pos) == *old(pos) + 1,
{
    let ghost ls = lines_view(lines@);
    assert(ls[*pos as int] == lines@[*pos as int]@);
    let line = &lines[*pos];
    assert(*pos < lines.len());
    *pos += 1;
    let words = &line.words;
    let ghost w = words_view(words@);
    if words.len() == 0 {
        return Err(syntax_error("Syntax error - expected variable name"));
    }
    assert(w[0] == words@[0]@);
    let mut j: usize = 1;
    let var = if str_eq(words[0].as_str(), "[") {
        match VariableUse::iter_parse_arr_deref(words, &mut j) {
            Ok(vu) => vu,
            Err(e) => {
                return Err(e);
            },
        }
    } else {
        VariableUse::new_just_var(words[0].clone())
    };
    if j < words.len() && str_eq(words[j].as_str(), "=") {
        assert(w[j as int] == words@[j as int]@);
        j += 1;
        let no_terms: [&str; 0] = [];
        let expr = match Expression::iter_parse(words, &mut j, &no_terms) {
            Ok(e) => e,
            Err(e) => {
                assert(no_terms@.map_values(|t: &str| t@) =~= seq![]);
                return Err(e);
            },
        };
        assert(no_terms@.map_values(|t: &str| t@) =~= seq![]);
        Ok(ASTNode::VariableSet { var, expr })
    } else {
        proof {
            if j < words@.len() {
                assert(w[j as int] == words@[j as int]@);
            }
        }
        Err(syntax_error("Syntax error - expected '=' sign."))
    }
}

/// Parses `RETURN`.
fn parse_return(lines: &Vec<SourceLineWords>, pos: &mut usize) -> (r: Result<ASTNode, ParseError>)
    requires
        *old(pos) < lines@.len(),
    ensures
        r matches Ok(ASTNode::Return),
        *final(pos) == *old(pos) + 1,
{
    assert(*pos < lines.len());
    *pos += 1;
    Ok(ASTNode::Return)
}

/// Parses `STOP`.
fn parse_stop(lines: &Vec<SourceLineWords>, pos: &mut usize) -> (r: Result<ASTNode, ParseError>)
    requires
        *old(pos) < lines@.len(),
    ensures
        r matches Ok(ASTNode::Stop),
        *final(pos) == *old(pos) + 1,
{
    assert(*pos < lines.len());
    *pos += 1;
    Ok(ASTNode::Stop)
}

/// Parses `PROCEDURE name arguments` and its block.
fn parse_procedure(lines: &Vec<SourceLineWords>, pos: &mut usize) -> (r: Result<
    ASTNode,
    ParseError,
>)
    requires
        *old(pos) < lines@.len(),
    ensures
        part_matches(procedure_of(lines_view(lines@), *old(pos) as int), r, *final(pos)),
        r is Ok ==> *old(pos) < *final(pos) <= lines@.len(),
{
    let ghost ls = lines_view(lines@);
    assert(ls[*pos as int] == lines@[*pos as int]@);
    let line = &lines[*pos];
    assert(*pos < lines.len());
    *pos += 1;
    let words = &line.words;
    let ghost w = words_view(words@);
    let name = match try_get_word(1, line, "Syntax error - name of the procedure not found") {
        Ok(n) => n,
        Err(e) => {
            return Err(e);
        },
    };
    let mut args: Vec<String> = Vec::new();
    let mut i: usize = 2;
    while i < words.len()
        invariant
            2 <= i <= words@.len(),
            w == words_view(words@),
            args@.map_values(|a: String| a@) == w.subrange(2, i as int),
        decreases words@.len() - i,
    {
        let ghost before = args@;
        args.push(words[i].clone());
        assert(w[i as int] == words@[i as int]@);
        assert(args@.map_values(|a: String| a@) =~= before.map_values(|a: String| a@).push(
            w[i as int],
        ));
        assert(w.subrange(2, i + 1) =~= w.subrange(2, i as int).push(w[i as int]));
        i += 1;
    }
    let block = match parse_block(lines, pos, line.source_line.power) {
        Ok(b) => b,
        Err(e) => {
            return Err(e);
        },
    };
    Ok(ASTNode::Procedure { name, args, block: Box::new(block) })
}


/// Why the lines could not be parsed.
#[derive(Debug)]
pub enum ParseFailure {
    /// A syntax error, with the line it is reported at.
    Syntax(CompileError),
    /// A line without words.
    EmptyLine,
    /// `REF` as the last word of a line.
    RefNameMissing,
    /// A word that starts with `"` and is not followed by a number.
    BadStringMarker,
}

impl View for ParseFailure {
    type V = ParseFailureV;

    open spec fn view(&self) -> ParseFailureV {
        match self {
            ParseFailure::Syntax(e) => ParseFailureV::Syntax(e.message@, e.line_number),
            ParseFailure::EmptyLine => ParseFailureV::EmptyLine,
            ParseFailure::RefNameMissing => ParseFailureV::RefNameMissing,
            ParseFailure::BadStringMarker => ParseFailureV::BadStringMarker,
        }
    }
}

/// The number of the line a syntax error is reported at, when the reading
/// stopped at line `q`.
fn error_line_number(lines: &Vec<SourceLineWords>, q: usize) -> (r: usize)
    requires
        lines@.len() > 0,
    ensures
        r == error_line(lines_view(lines@), q as int),
{
    let ghost ls = lines_view(lines@);
    let n = lines.len();
    if q < n {
        assert(ls[q as int] == lines@[q as int]@);
        let bound = lines[q].source_line.line_number;
        let mut i: usize = n;
        while i > 0
            invariant
                ls == lines_view(lines@),
                n == lines@.len(),
                i <= n,
                q < n,
                bound == ls[q as int].source_line.line_number,
                last_below(ls, n as int, bound) == last_below(ls, i as int, bound),
            decreases i,
        {
            assert(ls[i - 1] == lines@[i - 1]@);
            if lines[i - 1].source_line.line_number < bound {
                return lines[i - 1].source_line.line_number;
            }
            i -= 1;
        }
        assert(ls[0] == lines@[0]@);
        lines[0].source_line.line_number
    } else {
        assert(ls[n - 1] == lines@[n - 1]@);
        lines[n - 1].source_line.line_number
    }
}

/// The failure that a parse error gives, the reading having stopped at
/// line `q`.
fn failure(lines: &Vec<SourceLineWords>, e: ParseError, q: usize) -> (r: ParseFailure)
    requires
        lines@.len() > 0,
    ensures
        r@ == failure_of(lines_view(lines@), e@, q as int),
{
    match e {
        ParseError::Syntax(message) => ParseFailure::Syntax(
            CompileError { message, line_number: error_line_number(lines, q) },
        ),
        ParseError::EmptyLine => ParseFailure::EmptyLine,
        ParseError::RefNameMissing => ParseFailure::RefNameMissing,
        ParseError::BadStringMarker => ParseFailure::BadStringMarker,
    }
}

/// Parses the lines of a source: at zero level, procedures, variables and
/// arrays.
pub fn parse(lines: Vec<SourceLineWords>) -> (r: Result<Vec<ASTNode>, ParseFailure>)
    ensures
        match parse_of(lines_view(lines@)) {
            Ok(nodes) => r matches Ok(v) && nodes_view(v@) == nodes,
            Err(f) => r matches Err(x) && x@ == f,
        },
{
    broadcast use vstd::string::group_string_axioms;

    let ghost ls = lines_view(lines@);
    let mut root: Vec<ASTNode> = Vec::new();
    let mut pos: usize = 0;
    assert(nodes_view(root@) =~= seq![]);
    while pos < lines.len()
        invariant
            ls == lines_view(lines@),
            pos <= lines@.len(),
            parse_of(ls) == top_of(ls, pos as int, nodes_view(root@)),
        decreases lines@.len() - pos,
    {
        let ghost p = pos as int;
        assert(ls[p] == lines@[p]@);
        let line = &lines[pos];
        if line.words.len() == 0 {
            return Err(ParseFailure::EmptyLine);
        }
        let w0 = line.words[0].as_str();
        assert(ls[p].words[0] == w0@);
        let node = if str_eq(w0, "PROCEDURE") {
            parse_procedure(&lines, &mut pos)
        } else if str_eq(w0, "VARIABLE") {
            parse_variable(&lines, &mut pos)
        } else if str_eq(w0, "ARRAY") {
            parse_array(&lines, &mut pos)
        } else {
            return Err(
                ParseFailure::Syntax(
                    CompileError {
                        message: "Syntax error - unexpected construction. Only PROCEDURE, VARIABLE or ARRAY are allowed at zero level".to_string(),
                        line_number: line.source_line.line_number,
                    },
                ),
            );
        };
        match node {
            Ok(n) => {
                let ghost before = root@;
                let ghost nv = node_view(n);
                root.push(n);
                assert(nodes_view(root@) =~= nodes_view(before).push(nv));
            },
            Err(e) => {
                return Err(failure(&lines, e, pos));
            },
        }
    }
    Ok(root)
}


// ===========================> Trees <===========================

/// The tree of a variable type.
pub open spec fn vartype_tree(t: VarType) -> TreeV {
    leaf(
        "Type: "@ + match t {
            VarType::Word => "WORD"@,
            VarType::Array(n) => "ARRAY ("@ + decimal(n as nat) + ")"@,
        },
    )
}

/// The symbol of an operator in a tree. Less-or-equal and
/// greater-or-equal print as each other's symbol.
pub open spec fn operator_symbol(op: Operator) -> Seq<char> {
    match op {
        Operator::Add => "+"@,
        Operator::Sub => "-"@,
        Operator::Mul => "*"@,
        Operator::Div => "/"@,
        Operator::Mod => "%"@,
        Operator::Eq => "=="@,
        Operator::NotEq => "!="@,
        Operator::Lt => "<"@,
        Operator::Gt => ">"@,
        Operator::LtEq => ">="@,
        Operator::GtEq => "<="@,
        Operator::And => "&&"@,
        Operator::Or => "||"@,
    }
}

/// The tree of an expression.
pub open spec fn expr_tree(e: ExprV) -> TreeV
    decreases e,
{
    match e {
        ExprV::Number(n) => leaf("Number: "@ + signed_decimal(n as int)),
        ExprV::CString(c) => leaf("String: "@ + decimal(c as nat)),
        ExprV::Variable(name, off) => TreeV::Node(
            "Variable: "@ + name,
            match off {
                Some(o) => seq![TreeV::Node("Deref offset"@, seq![expr_tree(*o)])],
                None => seq![],
            },
        ),
        ExprV::VariableAddr(v) => leaf("Address of Var: "@ + v),
        ExprV::Expr(inner) => expr_tree(*inner),
        ExprV::BinaryOp(op, l, r) => TreeV::Node(
            operator_symbol(op),
            seq![expr_tree(*l), expr_tree(*r)],
        ),
    }
}

/// A tree with another root.
pub open spec fn with_root(t: TreeV, root: Seq<char>) -> TreeV {
    match t {
        TreeV::Node(_, ls) => TreeV::Node(root, ls),
    }
}

/// The tree of a syntax tree node.
pub open spec fn node_tree(n: NodeV) -> TreeV
    decreases n,
{
    match n {
        NodeV::Block(ch) => TreeV::Node(
            "Block"@,
            Seq::new(
                ch.len(),
                |i: int|
                    if 0 <= i < ch.len() {
                        node_tree(ch[i])
                    } else {
                        leaf(seq![])
                    },
            ),
        ),
        NodeV::Procedure(name, args, b) => TreeV::Node(
            "Procedure ("@ + name + ")"@,
            seq![TreeV::Node("Args"@, args.map_values(|a: Seq<char>| leaf(a))), node_tree(*b)],
        ),
        NodeV::If(cond, b, eb) => TreeV::Node(
            "If"@,
            seq![TreeV::Node("Condition"@, seq![expr_tree(cond)]), node_tree(*b)] + match eb {
                Some(e) => seq![with_root(node_tree(*e), "Else"@)],
                None => seq![],
            },
        ),
        NodeV::Loop(b) => TreeV::Node("Loop"@, seq![node_tree(*b)]),
        NodeV::FnCall(name, args) => TreeV::Node(
            "Call ("@ + name + ")"@,
            args.map_values(|a: ExprV| expr_tree(a)),
        ),
        NodeV::Variable(name, t) => TreeV::Node("Variable: "@ + name, seq![vartype_tree(t)]),
        NodeV::VariableSet(name, off, e) => TreeV::Node(
            "Set"@,
            seq![
                TreeV::Node(
                    "Variable: "@ + name,
                    match off {
                        Some(o) => seq![TreeV::Node("Deref offset"@, seq![expr_tree(o)])],
                        None => seq![],
                    },
                ),
                TreeV::Node("Expression"@, seq![expr_tree(e)]),
            ],
        ),
        NodeV::Return => leaf("Return"@),
        NodeV::Stop => leaf("Stop"@),
    }
}

/// A string of a literal and a string.
fn concat(a: &str, b: &str) -> (r: String)
    ensures
        r@ == a@ + b@,
{
    let mut s = String::from_str(a);
    s.append(b);
    s
}

/// A tree with its root relabelled when a label is given.
pub open spec fn relabel(t: TreeV, over: Option<String>) -> TreeV {
    match over {
        Some(s) => TreeV::Node(s@, leaves_of(t)),
        None => t,
    }
}

impl VarType {
    /// The tree of the type.
    pub fn to_termtree(&self) -> (r: Tree<String>)
        ensures
            tree_nodes(r) == preorder(vartype_tree(*self)),
    {
        let mut s = String::from_str("Type: ");
        match self {
            VarType::Word => s.append("WORD"),
            VarType::Array(n) => {
                s.append("ARRAY (");
                push_chars(&mut s, &decimal_chars(*n as usize));
                s.append(")");
                assert(s@ =~= "Type: "@ + ("ARRAY ("@ + decimal(*n as nat) + ")"@));
            },
        }
        tree_leaf(s)
    }
}

impl Operator {
    /// The tree of the operator: its symbol.
    pub fn to_termtree(&self) -> (r: Tree<String>)
        ensures
            tree_nodes(r) == preorder(leaf(operator_symbol(*self))),
    {
        let s = match self {
            Operator::Add => "+",
            Operator::Sub => "-",
            Operator::Mul => "*",
            Operator::Div => "/",
            Operator::Mod => "%",
            Operator::Eq => "==",
            Operator::NotEq => "!=",
            Operator::Lt => "<",
            Operator::Gt => ">",
            Operator::LtEq => ">=",
            Operator::GtEq => "<=",
            Operator::And => "&&",
            Operator::Or => "||",
        };
        tree_leaf(String::from_str(s))
    }
}

impl VariableUse {
    /// The tree of the variable, with its offset.
    pub fn to_termtree(&self) -> (r: Tree<String>)
        ensures
            tree_nodes(r) == preorder(
                expr_tree(
                    ExprV::Variable(
                        self.name@,
                        match self.deref_offset {
                            Some(o) => Some(Box::new(expr_view(*o))),
                            None => None,
                        },
                    ),
                ),
            ),
        decreases self,
    {
        let ghost rl = "Variable: "@ + self.name@;
        let mut root = tree_leaf(concat("Variable: ", self.name.as_str()));
        match &self.deref_offset {
            Some(of) => {
                let ghost ev = expr_tree(expr_view(**of));
                let mut r = tree_leaf(String::from_str("Deref offset"));
                let t = of.to_termtree();
                add_leaf(&mut r, t, Ghost("Deref offset"@), Ghost(Seq::<TreeV>::empty()), Ghost(ev));
                assert(Seq::<TreeV>::empty().push(ev) =~= seq![ev]);
                let ghost dv = TreeV::Node("Deref offset"@, seq![ev]);
                add_leaf(&mut root, r, Ghost(rl), Ghost(Seq::<TreeV>::empty()), Ghost(dv));
                assert(Seq::<TreeV>::empty().push(dv) =~= seq![dv]);
            },
            None => {},
        }
        root
    }
}

impl Expression {
    /// The tree of the expression.
    pub fn to_termtree(&self) -> (r: Tree<String>)
        ensures
            tree_nodes(r) == preorder(expr_tree(expr_view(*self))),
        decreases self, 1int,
    {
        match self {
            Expression::Number(n) => {
                let mut s = String::from_str("Number: ");
                push_chars(&mut s, &i32_chars(*n));
                tree_leaf(s)
            },
            Expression::CString(c) => {
                let mut s = String::from_str("String: ");
                push_chars(&mut s, &decimal_chars(*c));
                tree_leaf(s)
            },
            Expression::Variable(v) => v.to_termtree(),
            Expression::VariableAddr(va) => tree_leaf(concat("Address of Var: ", va.as_str())),
            Expression::Expr(e) => e.to_termtree(),
            Expression::BinaryOp { op, left, right } => {
                let ghost sym = operator_symbol(*op);
                let ghost lv = expr_tree(expr_view(**left));
                let ghost rv = expr_tree(expr_view(**right));
                let mut t = op.to_termtree();
                let lt = left.to_termtree();
                let rt = right.to_termtree();
                add_leaf(&mut t, lt, Ghost(sym), Ghost(Seq::<TreeV>::empty()), Ghost(lv));
                assert(Seq::<TreeV>::empty().push(lv) =~= seq![lv]);
                add_leaf(&mut t, rt, Ghost(sym), Ghost(Seq::<TreeV>::empty().push(lv)), Ghost(rv));
                assert(seq![lv].push(rv) =~= seq![lv, rv]);
                t
            },
        }
    }
}

/// A label, or the given one in its place.
pub open spec fn label_or(over: Option<String>, default: Seq<char>) -> Seq<char> {
    match over {
        Some(s) => s@,
        None => default,
    }
}

impl ASTNode {
    /// The tree of the node, for printing.
    pub fn to_termtree(&self) -> (r: Tree<String>)
        ensures
            tree_nodes(r) == preorder(node_tree(node_view(*self))),
    {
        let r = self.tree_labelled(None);
        proof {
            let t = node_tree(node_view(*self));
            assert(relabel(t, None) == t);
        }
        r
    }

    /// The tree of the node, its root relabelled when a label is given.
    #[verifier::spinoff_prover]
    #[verifier::rlimit(50)]
    fn tree_labelled(&self, over: Option<String>) -> (r: Tree<String>)
        ensures
            tree_nodes(r) == preorder(relabel(node_tree(node_view(*self)), over)),
        decreases self,
    {
        let ghost nv = node_view(*self);
        let ghost rl = label_or(over, root_of(node_tree(nv)));
        let ghost want = relabel(node_tree(nv), over);
        assert(want == TreeV::Node(rl, leaves_of(node_tree(nv))));
        match self {
            ASTNode::Block { children } => {
                let label = match over {
                    Some(s) => s,
                    None => String::from_str("Block"),
                };
                let mut root = tree_leaf(label);
                let ghost mut ls: Seq<TreeV> = seq![];
                let mut i: usize = 0;
                while i < children.len()
                    invariant
                        i <= children@.len(),
                        *self is Block,
                        self->children == *children,
                        tree_nodes(root) == preorder(TreeV::Node(rl, ls)),
                        ls =~= Seq::new(i as nat, |k: int| node_tree(node_view(children@[k]))),
                    decreases children@.len() - i,
                {
                    assert(decreases_to!(*self => children@[i as int])) by {
                        assert(decreases_to!(*self => *children));
                        assert(decreases_to!(*children => children@));
                        assert(decreases_to!(children@ => children@[i as int]));
                    }
                    let t = children[i].tree_labelled(None);
                    let ghost tv = node_tree(node_view(children@[i as int]));
                    assert(relabel(tv, None) == tv);
                    add_leaf(&mut root, t, Ghost(rl), Ghost(ls), Ghost(tv));
                    proof {
                        ls = ls.push(tv);
                    }
                    i += 1;
                }
                proof {
                    let ch = nodes_view(children@);
                    assert(nv == NodeV::Block(ch)) by {
                        if let NodeV::Block(c) = nv {
                            assert(c =~= ch);
                        }
                    }
                    let ls0 = leaves_of(node_tree(nv));
                    assert(ls0.len() == ch.len());
                    assert forall|k: int| 0 <= k < ls0.len() implies ls0[k] == ls[k] by {
                        assert(ch[k] == node_view(children@[k]));
                    }
                    assert(ls0 =~= ls);
                }
                root
            },
            ASTNode::Procedure { name, args, block } => {
                let label = match over {
                    Some(s) => s,
                    None => {
                        let mut root_s = String::from_str("Procedure (");
                        root_s.append(name.as_str());
                        root_s.append(")");
                        root_s
                    },
                };
                let mut root = tree_leaf(label);
                let mut tree_args = tree_leaf(String::from_str("Args"));
                let ghost mut als: Seq<TreeV> = seq![];
                let mut i: usize = 0;
                while i < args.len()
                    invariant
                        i <= args@.len(),
                        tree_nodes(tree_args) == preorder(TreeV::Node("Args"@, als)),
                        als =~= args@.take(i as int).map_values(|a: String| leaf(a@)),
                    decreases args@.len() - i,
                {
                    let a = args[i].clone();
                    let ghost av = leaf(a@);
                    let t = tree_leaf(a);
                    add_leaf(&mut tree_args, t, Ghost("Args"@), Ghost(als), Ghost(av));
                    proof {
                        assert(args@.take(i + 1).map_values(|a: String| leaf(a@)) =~= als.push(av));
                        als = als.push(av);
                    }
                    i += 1;
                }
                let ghost argv = TreeV::Node("Args"@, als);
                proof {
                    assert(args@.take(args@.len() as int) =~= args@);
                    assert(args@.map_values(|a: String| leaf(a@)) =~= args@.map_values(
                        |a: String| a@,
                    ).map_values(|a: Seq<char>| leaf(a)));
                }
                add_leaf(&mut root, tree_args, Ghost(rl), Ghost(Seq::<TreeV>::empty()), Ghost(argv));
                assert(Seq::<TreeV>::empty().push(argv) =~= seq![argv]);
                let body = block.tree_labelled(None);
                let ghost bv = node_tree(node_view(**block));
                assert(relabel(bv, None) == bv);
                add_leaf(&mut root, body, Ghost(rl), Ghost(Seq::<TreeV>::empty().push(argv)), Ghost(bv));
                assert(seq![argv].push(bv) =~= seq![argv, bv]);
                root
            },
            ASTNode::If { expr, block, else_block } => {
                let label = match over {
                    Some(s) => s,
                    None => String::from_str("If"),
                };
                let mut root = tree_leaf(label);
                let mut cond = tree_leaf(String::from_str("Condition"));
                let ghost ev = expr_tree(expr_view(*expr));
                let et = expr.to_termtree();
                add_leaf(&mut cond, et, Ghost("Condition"@), Ghost(Seq::<TreeV>::empty()), Ghost(ev));
                assert(Seq::<TreeV>::empty().push(ev) =~= seq![ev]);
                let ghost cv = TreeV::Node("Condition"@, seq![ev]);
                add_leaf(&mut root, cond, Ghost(rl), Ghost(Seq::<TreeV>::empty()), Ghost(cv));
                assert(Seq::<TreeV>::empty().push(cv) =~= seq![cv]);
                let bt = block.tree_labelled(None);
                let ghost bv = node_tree(node_view(**block));
                assert(relabel(bv, None) == bv);
                add_leaf(&mut root, bt, Ghost(rl), Ghost(Seq::<TreeV>::empty().push(cv)), Ghost(bv));
                assert(seq![cv].push(bv) =~= seq![cv, bv]);
                match else_block {
                    Some(e) => {
                        let et2 = e.tree_labelled(Some(String::from_str("Else")));
                        let ghost e2 = with_root(node_tree(node_view(**e)), "Else"@);
                        assert(e2 == TreeV::Node("Else"@, leaves_of(node_tree(node_view(**e)))));
                        add_leaf(&mut root, et2, Ghost(rl), Ghost(Seq::<TreeV>::empty().push(cv).push(bv)), Ghost(e2));
                        assert(seq![cv, bv].push(e2) =~= seq![cv, bv] + seq![e2]);
                    },
                    None => {
                        assert(seq![cv, bv] + seq![] =~= seq![cv, bv]);
                    },
                }
                root
            },
            ASTNode::Loop { block } => {
                let label = match over {
                    Some(s) => s,
                    None => String::from_str("Loop"),
                };
                let mut root = tree_leaf(label);
                let bt = block.tree_labelled(None);
                let ghost bv = node_tree(node_view(**block));
                assert(relabel(bv, None) == bv);
                add_leaf(&mut root, bt, Ghost(rl), Ghost(Seq::<TreeV>::empty()), Ghost(bv));
                assert(Seq::<TreeV>::empty().push(bv) =~= seq![bv]);
                root
            },
            ASTNode::FnCall { name, args } => {
                let label = match over {
                    Some(s) => s,
                    None => {
                        let mut l = concat("Call (", name.as_str());
                        l.append(")");
                        l
                    },
                };
                let mut root = tree_leaf(label);
                let ghost mut ls: Seq<TreeV> = seq![];
                let mut i: usize = 0;
                while i < args.len()
                    invariant
                        i <= args@.len(),
                        tree_nodes(root) == preorder(TreeV::Node(rl, ls)),
                        ls =~= Seq::new(i as nat, |k: int| expr_tree(expr_view(args@[k]))),
                    decreases args@.len() - i,
                {
                    let t = args[i].to_termtree();
                    let ghost tv = expr_tree(expr_view(args@[i as int]));
                    add_leaf(&mut root, t, Ghost(rl), Ghost(ls), Ghost(tv));
                    proof {
                        ls = ls.push(tv);
                    }
                    i += 1;
                }
                proof {
                    if let NodeV::FnCall(_, es) = nv {
                        assert(es =~= exprs_view(args@));
                        assert(es.map_values(|a: ExprV| expr_tree(a)) =~= ls);
                    }
                }
                root
            },
            ASTNode::Variable { name, vtype } => {
                let label = match over {
                    Some(s) => s,
                    None => concat("Variable: ", name.as_str()),
                };
                let mut root = tree_leaf(label);
                let t = vtype.to_termtree();
                let ghost tv = vartype_tree(*vtype);
                add_leaf(&mut root, t, Ghost(rl), Ghost(Seq::<TreeV>::empty()), Ghost(tv));
                assert(Seq::<TreeV>::empty().push(tv) =~= seq![tv]);
                root
            },
            ASTNode::VariableSet { var, expr } => {
                let label = match over {
                    Some(s) => s,
                    None => String::from_str("Set"),
                };
                let mut root = tree_leaf(label);
                let vt = var.to_termtree();
                let ghost vv = TreeV::Node(
                    "Variable: "@ + var.name@,
                    match &var.deref_offset {
                        Some(o) => seq![TreeV::Node("Deref offset"@, seq![expr_tree(expr_view(**o))])],
                        None => seq![],
                    },
                );
                add_leaf(&mut root, vt, Ghost(rl), Ghost(Seq::<TreeV>::empty()), Ghost(vv));
                assert(Seq::<TreeV>::empty().push(vv) =~= seq![vv]);
                let mut expr_t = tree_leaf(String::from_str("Expression"));
                let ghost ev = expr_tree(expr_view(*expr));
                let et = expr.to_termtree();
                add_leaf(&mut expr_t, et, Ghost("Expression"@), Ghost(Seq::<TreeV>::empty()), Ghost(ev));
                assert(Seq::<TreeV>::empty().push(ev) =~= seq![ev]);
                let ghost xv = TreeV::Node("Expression"@, seq![ev]);
                add_leaf(&mut root, expr_t, Ghost(rl), Ghost(Seq::<TreeV>::empty().push(vv)), Ghost(xv));
                assert(seq![vv].push(xv) =~= seq![vv, xv]);
                proof {
                    match &var.deref_offset {
                        Some(o) => {
                            assert(nv == NodeV::VariableSet(
                                var.name@,
                                Some(expr_view(**o)),
                                expr_view(*expr),
                            ));
                            let TreeV::Node(a, b) = node_tree(nv);
                            assert(b =~= seq![vv, xv]);
                        },
                        None => {
                            assert(nv == NodeV::VariableSet(var.name@, None, expr_view(*expr)));
                            let TreeV::Node(a, b) = node_tree(nv);
                            assert(b =~= seq![vv, xv]);
                        },
                    }
                }
                root
            },
            ASTNode::Return => {
                let label = match over {
                    Some(s) => s,
                    None => String::from_str("Return"),
                };
                tree_leaf(label)
            },
            ASTNode::Stop => {
                let label = match over {
                    Some(s) => s,
                    None => String::from_str("Stop"),
                };
                tree_leaf(label)
            },
        }
    }
}

} // verus!
