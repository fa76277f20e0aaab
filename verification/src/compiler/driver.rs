//! The compiler's pipeline: line lexer, parser, code generator, assembler
//! for hand-written sources, and linker.
use vstd::prelude::*;

use crate::compiler::codegen::{
    args_view, asm_code, asm_fault, asm_line, asm_ok, ast_code, ast_labels, ast_ok, check_program,
    initial_state, program_check, AsmFault, AsmLine, Codegen, CodegenV, ProgramFault,
};
use crate::compiler::linker::{init_fault, link, link_spec, LinkError, LinkErrorV};
use crate::compiler::parser::{lines_view, nodes_view, parse, parse_of, ASTNode, ParseFailure};
use crate::compiler::protolexer::{lex, lex_spec, text_lines, ws_words, CompileError};

verus! {

/// The options of the compiler's command line: the source file, the
/// assembly files added after it, the output file, and whether to print
/// the syntax tree and the code.
pub struct Args {
    pub src: String,
    pub asm_src: Vec<String>,
    pub out: String,
    pub debug: bool,
}

/// Why a source could not be compiled.
#[derive(Debug)]
pub enum CompileFailure {
    /// A line of the source is not ASCII.
    Lex(CompileError),
    /// The source could not be parsed.
    Parse(ParseFailure),
    /// The code generator does not accept the program.
    Program(ProgramFault),
    /// A line of an assembly source (the source's index, the line's index)
    /// cannot be read.
    Asm(usize, usize, AsmFault),
    /// The program could not be linked.
    Link(LinkError),
}

/// What compiling gives: the syntax tree, the code before linking, and the
/// binary.
#[derive(Debug)]
pub struct Compilation {
    pub ast: Vec<ASTNode>,
    pub code: Codegen,
    pub binary: Vec<u8>,
}

/// The code after the assembly sources from `j` on.
pub open spec fn asm_all(st: CodegenV, srcs: Seq<Seq<char>>, j: int) -> CodegenV
    decreases srcs.len() - j,
{
    if j < 0 || j >= srcs.len() {
        st
    } else {
        asm_all(asm_code(st, text_lines(srcs[j]), 0), srcs, j + 1)
    }
}

/// Every label lies low enough to be moved to the program's address.
pub open spec fn labels_fit(code: CodegenV) -> bool {
    forall|k: Seq<char>| #[trigger] code.labels.contains_key(k) ==> code.labels[k] + 256 <= usize::MAX
}

/// The code of a parsed program with its string register and assembly
/// sources.
pub open spec fn program_code(nodes: Seq<crate::compiler::parser::NodeV>, strings: Seq<Seq<char>>, sources: Seq<Seq<char>>) -> CodegenV {
    asm_all(ast_code(initial_state(), nodes, strings), sources, 0)
}

/// Compiles a source with assembly sources added after it: lexes, parses,
/// generates code, assembles, and links.
#[verifier::spinoff_prover]
#[verifier::rlimit(50)]
pub fn copmile(src: String, asm_src: Vec<String>) -> (r: Result<Compilation, CompileFailure>)
    ensures
        match lex_spec(src@) {
            Err((m, l)) => r matches Err(CompileFailure::Lex(e)) && e.message@ == m && e.line_number
                == l,
            Ok((strings, lines)) => match parse_of(lines) {
                Err(f) => r matches Err(CompileFailure::Parse(x)) && x@ == f,
                Ok(nodes) => if !(ast_ok(nodes) && ast_labels(nodes, 0) <= usize::MAX) {
                    r matches Err(CompileFailure::Program(f)) && program_check(nodes) == Err::<
                        (),
                        ProgramFault,
                    >(f)
                } else {
                    let sources = args_view(asm_src@);
                    match r {
                        Ok(c) => nodes_view(c.ast@) == nodes && (forall|j: int|
                            0 <= j < sources.len() ==> #[trigger] asm_ok(sources[j])) && c.code@
                            == program_code(nodes, strings, sources) && labels_fit(c.code@) && !init_fault(
                            c.code@,
                        ) && link_spec(c.code@) == Ok::<Seq<u8>, LinkErrorV>(c.binary@),
                        Err(CompileFailure::Asm(j, i, f)) => j < sources.len() && !asm_ok(sources[j as int])
                            && (forall|k: int| 0 <= k < j ==> #[trigger] asm_ok(sources[k])) && i
                            < text_lines(sources[j as int]).len() && asm_line(
                            ws_words(text_lines(sources[j as int])[i as int]),
                        ) == AsmLine::Bad(f),
                        Err(CompileFailure::Link(e)) => (forall|j: int|
                            0 <= j < sources.len() ==> #[trigger] asm_ok(sources[j])) && ({
                            let code = program_code(nodes, strings, sources);
                            ||| !labels_fit(code) && e@ == LinkErrorV::MainProgramTooBig
                            ||| labels_fit(code) && init_fault(code) && e@
                                == LinkErrorV::BadInitialProgram
                            ||| labels_fit(code) && !init_fault(code) && link_spec(code) == Err::<
                                Seq<u8>,
                                LinkErrorV,
                            >(e@)
                        }),
                        Err(_) => false,
                    }
                },
            },
        },
{
    let ghost src_view = src@;
    let lexed = match lex(src) {
        Ok(l) => l,
        Err(e) => {
            return Err(CompileFailure::Lex(e));
        },
    };
    let ghost strings = args_view(lexed.string_register@);
    let ghost lines = lines_view(lexed.lines@);
    assert(lexed.string_register@.map_values(|s: String| s@) =~= strings);
    let ast = match parse(lexed.lines) {
        Ok(a) => a,
        Err(f) => {
            return Err(CompileFailure::Parse(f));
        },
    };
    match check_program(&ast) {
        Ok(()) => {},
        Err(f) => {
            return Err(CompileFailure::Program(f));
        },
    }
    let mut code = Codegen::from_ast(&ast, &lexed.string_register);
    let ghost sources = args_view(asm_src@);
    let ghost c0 = code@;
    let mut j: usize = 0;
    while j < asm_src.len()
        invariant
            j <= asm_src@.len(),
            sources == args_view(asm_src@),
            code.wf(),
            asm_all(c0, sources, 0) == asm_all(code@, sources, j as int),
            forall|k: int| 0 <= k < j ==> #[trigger] asm_ok(sources[k]),
            src_view == src@,
            lex_spec(src_view) == Ok::<_, (Seq<char>, usize)>((strings, lines)),
            parse_of(lines) == Ok::<_, crate::compiler::parser::ParseFailureV>(nodes_view(ast@)),
            ast_ok(nodes_view(ast@)),
            ast_labels(nodes_view(ast@), 0) <= usize::MAX,
        decreases asm_src@.len() - j,
    {
        assert(sources[j as int] == asm_src@[j as int]@);
        match asm_fault(asm_src[j].as_str()) {
            Some((i, f)) => {
                return Err(CompileFailure::Asm(j, i, f));
            },
            None => {},
        }
        code.add_asm_src(asm_src[j].clone());
        j += 1;
    }
    if !code.get_labels().values_at_most(usize::MAX - 256) {
        return Err(CompileFailure::Link(LinkError::MainProgramTooBig));
    }
    let linked = code.copy();
    match link(linked) {
        Ok(binary) => Ok(Compilation { ast, code, binary }),
        Err(e) => Err(CompileFailure::Link(e)),
    }
}

} // verus!
