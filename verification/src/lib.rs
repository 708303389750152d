use vstd::prelude::*;

pub mod ast;
pub mod grammar;
pub mod laws;
pub mod lexer;
pub mod token;

verus! {

use crate::ast::{Node, SpecNode, ParseError, SpecErr, dv_node, dv_node_seq};
use crate::lexer::{tokenize, spec_tokens};
use crate::grammar::{
    p_program, p_definition, p_words, spec_parse_program, spec_parse_definition, spec_parse_words,
};

/// What parsing source text as a whole program yields: a failure of the
/// lexer (an unterminated comment) or of the grammar is reported alike.
pub open spec fn program_result(s: Seq<char>) -> Result<SpecNode, SpecErr> {
    match spec_tokens(s) {
        Ok(t) => spec_parse_program(t),
        Err(e) => Err(e),
    }
}

/// What parsing source text as a single definition yields.
pub open spec fn definition_result(s: Seq<char>) -> Result<SpecNode, SpecErr> {
    match spec_tokens(s) {
        Ok(t) => spec_parse_definition(t),
        Err(e) => Err(e),
    }
}

/// What parsing source text as a bare word sequence yields.
pub open spec fn words_result(s: Seq<char>) -> Result<Seq<SpecNode>, SpecErr> {
    match spec_tokens(s) {
        Ok(t) => spec_parse_words(t),
        Err(e) => Err(e),
    }
}

/// Parse a complete program, reporting any failure to the caller.
pub fn try_parse(source: &str) -> (r: Result<Node, ParseError>)
    ensures
        (match r {
            Ok(n) => program_result(source@) == Ok::<SpecNode, SpecErr>(dv_node(n)),
            Err(e) => program_result(source@) == Err::<SpecNode, SpecErr>(e.deep_view()),
        }),
{
    match tokenize(source) {
        Ok(toks) => p_program(&toks),
        Err(e) => Err(e),
    }
}

/// Parse exactly one definition or declaration, reporting any failure to
/// the caller.
pub fn try_parse_definition(source: &str) -> (r: Result<Node, ParseError>)
    ensures
        (match r {
            Ok(n) => definition_result(source@) == Ok::<SpecNode, SpecErr>(dv_node(n)),
            Err(e) => definition_result(source@) == Err::<SpecNode, SpecErr>(e.deep_view()),
        }),
{
    match tokenize(source) {
        Ok(toks) => p_definition(&toks),
        Err(e) => Err(e),
    }
}

/// Parse a bare sequence of body elements, reporting any failure to the
/// caller.
pub fn try_parse_words(source: &str) -> (r: Result<Vec<Node>, ParseError>)
    ensures
        (match r {
            Ok(ns) => words_result(source@) == Ok::<Seq<SpecNode>, SpecErr>(dv_node_seq(ns@)),
            Err(e) => words_result(source@) == Err::<Seq<SpecNode>, SpecErr>(e.deep_view()),
        }),
{
    match tokenize(source) {
        Ok(toks) => p_words(&toks),
        Err(e) => Err(e),
    }
}

/// Parse a complete program; on success the result is a `ForthProgram`
/// node, on any failure it degrades to `Unit`.
pub fn parse(source: String) -> (r: Node)
    ensures
        (match program_result(source@) {
            Ok(n) => dv_node(r) == n,
            Err(_) => r == Node::Unit,
        }),
{
    match try_parse(source.as_str()) {
        Ok(n) => n,
        Err(_) => Node::Unit,
    }
}

/// Parse exactly one definition or declaration; on success the result is
/// the corresponding `ProcedureDef`, `VarDecl` or `ForthCreate` node, on
/// any failure, input that is more or less than a single definition
/// included, it degrades to `Unit`.
pub fn parse_definition(source: String) -> (r: Node)
    ensures
        (match definition_result(source@) {
            Ok(n) => dv_node(r) == n,
            Err(_) => r == Node::Unit,
        }),
{
    match try_parse_definition(source.as_str()) {
        Ok(n) => n,
        Err(_) => Node::Unit,
    }
}

/// Parse a bare sequence of body elements, as an interactive session
/// evaluates a partial line; on any failure it degrades to the empty
/// sequence.
pub fn parse_words(source: String) -> (r: Vec<Node>)
    ensures
        (match words_result(source@) {
            Ok(ns) => dv_node_seq(r@) == ns,
            Err(_) => r@ == Seq::<Node>::empty(),
        }),
{
    match try_parse_words(source.as_str()) {
        Ok(ns) => ns,
        Err(_) => Vec::new(),
    }
}

} // verus!
