//! The driver: the four stages in a row, from source text to assembly
//! text.

use vstd::prelude::*;
use vstd::string::*;
use crate::abstracter::{tokenize, tokenize_spec};
use crate::assembly::{Instruction, InstructionView, code_view, program_text, render};
use crate::ast::{Node, NodeView, nodes_view};
use crate::error::{CompileError, SemanticError};
use crate::generator::Generator;
use crate::grammar::program;
use crate::lexer::{lex, lex_spec};
use crate::parser::parse;
use crate::scope::{Scope, ScopeView};
use crate::emission::Emission;

verus! {

/// The instructions of a program: the code of its statements,
/// started in `scope` with no code.
pub open spec fn instructions_of(nodes: Seq<NodeView>, scope: ScopeView) -> Result<
    Seq<InstructionView>,
    SemanticError,
> {
    match Emission::start(scope).program(nodes) {
        Ok(t) => Ok(t.code),
        Err(e) => Err(e),
    }
}

/// The assembly text of a source text, or the first fault: the source is
/// cut into words, the words are folded into tokens, the tokens are parsed
/// into statements, the statements are turned into instructions in the
/// initial scope, and the instructions are written out.
pub open spec fn compiled(source: Seq<char>) -> Result<Seq<char>, CompileError> {
    match lex_spec(source) {
        Err(e) => Err(CompileError::Lexical(e)),
        Ok(words) => match tokenize_spec(words) {
            Err(e) => Err(CompileError::Phrase(e)),
            Ok(tokens) => match program(tokens) {
                Err(e) => Err(CompileError::Parse(e)),
                Ok(nodes) => match instructions_of(nodes, ScopeView::initial()) {
                    Err(e) => Err(CompileError::Semantic(e)),
                    Ok(code) => Ok(program_text(code)),
                },
            },
        },
    }
}

/// Generates the instructions of the statements of a program, in `scope`.
pub fn generate(nodes: Vec<Node>, scope: &mut Scope) -> (r: Result<Vec<Instruction>, SemanticError>)
    requires
        old(scope)@.wf(),
    ensures
        match Emission::start(old(scope)@).program(nodes_view(nodes@)) {
            Ok(t) => r is Ok && code_view(r->Ok_0@) == t.code && final(scope)@ == t.scope,
            Err(e) => r is Err && r->Err_0 == e,
        },
        r is Ok ==> final(scope)@.wf(),
{
    let generator = Generator::new(nodes);
    let mut writer: Vec<Instruction> = Vec::new();
    assert(code_view(writer@) =~= Seq::empty());
    match generator.generate(scope, &mut writer) {
        Ok(()) => Ok(writer),
        Err(e) => Err(e),
    }
}

/// Whether `r` is what a compilation of `source` gives: the assembly text
/// of the source, or its first fault.
pub open spec fn compiles_to(source: Seq<char>, r: Result<String, CompileError>) -> bool {
    match compiled(source) {
        Ok(text) => r is Ok && r->Ok_0@ == text,
        Err(e) => r is Err && r->Err_0 == e,
    }
}

/// The compiler is deterministic: two compilations of one source text
/// either both fail, with the same fault, or both succeed, with the same
/// output character by character.
pub proof fn lemma_deterministic(
    source: Seq<char>,
    first: Result<String, CompileError>,
    second: Result<String, CompileError>,
)
    requires
        compiles_to(source, first),
        compiles_to(source, second),
    ensures
        first is Ok <==> second is Ok,
        first is Ok ==> first->Ok_0@ == second->Ok_0@,
        first is Err ==> first->Err_0 == second->Err_0,
{
}

/// Compiles a source text into assembly text. The result is a function of
/// the source alone.
pub fn compile(source: &str) -> (r: Result<String, CompileError>)
    ensures
        compiles_to(source@, r),
{
    let words = match lex(source) {
        Ok(words) => words,
        Err(e) => {
            return Err(CompileError::Lexical(e));
        },
    };
    let tokens = match tokenize(words) {
        Ok(tokens) => tokens,
        Err(e) => {
            return Err(CompileError::Phrase(e));
        },
    };
    let nodes = match parse(tokens) {
        Ok(nodes) => nodes,
        Err(e) => {
            return Err(CompileError::Parse(e));
        },
    };
    let mut scope = Scope::new();
    let code = match generate(nodes, &mut scope) {
        Ok(code) => code,
        Err(e) => {
            return Err(CompileError::Semantic(e));
        },
    };
    Ok(render(&code))
}

} // verus!
