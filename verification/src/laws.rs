use vstd::prelude::*;

verus! {

use crate::ast::{SpecNode, SpecErr, ErrorKind};
use crate::token::{SpecToken, is_ws, is_kw_variable, is_kw_constant, is_kw_create, is_kw_allot, is_kw_if, is_kw_else, is_kw_begin, is_kw_do, is_reserved, classify_word};
use crate::lexer::{tokens_from, spec_tokens, first_close, first_nl, first_ws, clamp};
use crate::grammar::{parse_elem, parse_elems, parse_top_form, parse_program_from, spec_parse_definition};
use crate::{program_result, definition_result, words_result};

/// A syntactically valid `VARIABLE <name>` input parses, as a definition,
/// to a variable declaration carrying that name, not marked constant and
/// with no value.
pub proof fn lemma_definition_variable(t: Seq<SpecToken>, kw: Seq<char>, name: Seq<char>)
    requires
        t.len() == 2,
        t[0] == SpecToken::Word(kw),
        is_kw_variable(kw),
        t[1] == SpecToken::Word(name),
        !is_reserved(name),
    ensures
        spec_parse_definition(t) == Ok::<SpecNode, SpecErr>(
            (SpecNode::VarDecl { name, is_constant: false, value: None }),
        ),
{
}

/// A syntactically valid `<literal> CONSTANT <name>` input parses, as a
/// definition, to a constant declaration carrying that name and the
/// preceding literal as its value.
pub proof fn lemma_definition_constant(t: Seq<SpecToken>, v: int, kw: Seq<char>, name: Seq<char>)
    requires
        t.len() == 3,
        t[0] == SpecToken::Number(v),
        t[1] == SpecToken::Word(kw),
        is_kw_constant(kw),
        t[2] == SpecToken::Word(name),
        !is_reserved(name),
    ensures
        spec_parse_definition(t) == Ok::<SpecNode, SpecErr>(
            (SpecNode::VarDecl { name, is_constant: true, value: Some(v) }),
        ),
{
}

/// A syntactically valid `: <name> <body> ;` input parses, as a
/// definition, to a procedure definition carrying that name and exactly
/// the body elements recognized between the name and the closing `;`.
pub proof fn lemma_definition_procedure(
    t: Seq<SpecToken>,
    name: Seq<char>,
    body: Seq<SpecNode>,
)
    requires
        t.len() >= 3,
        t[0] == SpecToken::Colon,
        t[1] == SpecToken::Word(name),
        !is_reserved(name),
        parse_elems(t, 2) == Ok::<(Seq<SpecNode>, int), SpecErr>((body, t.len() - 1)),
        t[t.len() - 1] == SpecToken::Semicolon,
    ensures
        spec_parse_definition(t) == Ok::<SpecNode, SpecErr>(
            (SpecNode::ProcedureDef { name, body }),
        ),
{
}

/// A syntactically valid `CREATE <name> <literal> ALLOT` input, with or
/// without a trailing `;`, parses, as a definition, to a create
/// declaration carrying that name and the literal as its size.
pub proof fn lemma_definition_create(
    t: Seq<SpecToken>,
    kw: Seq<char>,
    name: Seq<char>,
    size: int,
    allot: Seq<char>,
)
    requires
        t[0] == SpecToken::Word(kw),
        is_kw_create(kw),
        t[1] == SpecToken::Word(name),
        !is_reserved(name),
        t[2] == SpecToken::Number(size),
        t[3] == SpecToken::Word(allot),
        is_kw_allot(allot),
        t.len() == 4 || (t.len() == 5 && t[4] == SpecToken::Semicolon),
    ensures
        spec_parse_definition(t) == Ok::<SpecNode, SpecErr>(
            (SpecNode::ForthCreate { name, size }),
        ),
{
    reveal_strlit("CREATE");
    reveal_strlit("VARIABLE");
    assert("CREATE"@.len() == 6);
    assert("VARIABLE"@.len() == 8);
    assert(!is_kw_variable(kw));
}

/// `lemma_definition_variable`, lifted to source text: any source whose
/// token sequence has the `VARIABLE <name>` shape parses, through the
/// single-definition entry, to exactly that variable declaration.
pub proof fn lemma_definition_variable_source(
    s: Seq<char>,
    t: Seq<SpecToken>,
    kw: Seq<char>,
    name: Seq<char>,
)
    requires
        spec_tokens(s) == Ok::<Seq<SpecToken>, SpecErr>(t),
        t.len() == 2,
        t[0] == SpecToken::Word(kw),
        is_kw_variable(kw),
        t[1] == SpecToken::Word(name),
        !is_reserved(name),
    ensures
        definition_result(s) == Ok::<SpecNode, SpecErr>(
            (SpecNode::VarDecl { name, is_constant: false, value: None }),
        ),
{
    lemma_definition_variable(t, kw, name);
}

/// `lemma_definition_constant`, lifted to source text: any source whose
/// token sequence has the `<literal> CONSTANT <name>` shape parses,
/// through the single-definition entry, to exactly that constant
/// declaration.
pub proof fn lemma_definition_constant_source(
    s: Seq<char>,
    t: Seq<SpecToken>,
    v: int,
    kw: Seq<char>,
    name: Seq<char>,
)
    requires
        spec_tokens(s) == Ok::<Seq<SpecToken>, SpecErr>(t),
        t.len() == 3,
        t[0] == SpecToken::Number(v),
        t[1] == SpecToken::Word(kw),
        is_kw_constant(kw),
        t[2] == SpecToken::Word(name),
        !is_reserved(name),
    ensures
        definition_result(s) == Ok::<SpecNode, SpecErr>(
            (SpecNode::VarDecl { name, is_constant: true, value: Some(v) }),
        ),
{
    lemma_definition_constant(t, v, kw, name);
}

/// `lemma_definition_procedure`, lifted to source text: any source whose
/// token sequence has the `: <name> <body> ;` shape parses, through the
/// single-definition entry, to exactly that procedure definition.
pub proof fn lemma_definition_procedure_source(
    s: Seq<char>,
    t: Seq<SpecToken>,
    name: Seq<char>,
    body: Seq<SpecNode>,
)
    requires
        spec_tokens(s) == Ok::<Seq<SpecToken>, SpecErr>(t),
        t.len() >= 3,
        t[0] == SpecToken::Colon,
        t[1] == SpecToken::Word(name),
        !is_reserved(name),
        parse_elems(t, 2) == Ok::<(Seq<SpecNode>, int), SpecErr>((body, t.len() - 1)),
        t[t.len() - 1] == SpecToken::Semicolon,
    ensures
        definition_result(s) == Ok::<SpecNode, SpecErr>((SpecNode::ProcedureDef { name, body })),
{
    lemma_definition_procedure(t, name, body);
}

/// `lemma_definition_create`, lifted to source text: any source whose
/// token sequence has the `CREATE <name> <literal> ALLOT` shape, with or
/// without a trailing `;`, parses, through the single-definition entry,
/// to exactly that create declaration.
pub proof fn lemma_definition_create_source(
    s: Seq<char>,
    t: Seq<SpecToken>,
    kw: Seq<char>,
    name: Seq<char>,
    size: int,
    allot: Seq<char>,
)
    requires
        spec_tokens(s) == Ok::<Seq<SpecToken>, SpecErr>(t),
        t[0] == SpecToken::Word(kw),
        is_kw_create(kw),
        t[1] == SpecToken::Word(name),
        !is_reserved(name),
        t[2] == SpecToken::Number(size),
        t[3] == SpecToken::Word(allot),
        is_kw_allot(allot),
        t.len() == 4 || (t.len() == 5 && t[4] == SpecToken::Semicolon),
    ensures
        definition_result(s) == Ok::<SpecNode, SpecErr>((SpecNode::ForthCreate { name, size })),
{
    lemma_definition_create(t, kw, name, size, allot);
}

/// Parsing is deterministic: any two program trees that the parsing
/// contract admits for the same source text are structurally equal.
pub proof fn lemma_parse_deterministic(s: Seq<char>, r1: SpecNode, r2: SpecNode)
    requires
        r1 == (match program_result(s) {
            Ok(n) => n,
            Err(_) => SpecNode::Unit,
        }),
        r2 == (match program_result(s) {
            Ok(n) => n,
            Err(_) => SpecNode::Unit,
        }),
    ensures
        r1 == r2,
{
}

/// The position where a parenthesized comment closes lies at or after the
/// position where the search for `)` starts.
pub proof fn lemma_first_close_ge(s: Seq<char>, i: int)
    requires
        0 <= i <= s.len(),
    ensures
        i <= first_close(s, i) <= s.len(),
    decreases s.len() - i,
{
    if i < s.len() && s[i] != ')' {
        lemma_first_close_ge(s, i + 1);
    }
}

/// A terminated parenthesized comment contributes no token: the token
/// sequence from its opening `(` is the token sequence from just after its
/// closing `)`.
pub proof fn lemma_comment_elided(s: Seq<char>, i: int)
    requires
        0 <= i < s.len(),
        s[i] == '(',
        i + 1 < s.len(),
        is_ws(s[i + 1]),
        first_close(s, i + 2) < s.len(),
    ensures
        tokens_from(s, i) == tokens_from(s, first_close(s, i + 2) + 1),
{
    lemma_first_close_ge(s, i + 2);
    assert(clamp(first_close(s, i + 2) + 1, i + 1, s.len() as int) == first_close(s, i + 2) + 1);
}

/// A parenthesized comment with no closing `)` before the end of the
/// input is an unterminated construct: tokenization fails at the
/// character position of the opener.
pub proof fn lemma_unterminated_comment(s: Seq<char>, i: int)
    requires
        0 <= i < s.len(),
        s[i] == '(',
        i + 1 < s.len(),
        is_ws(s[i + 1]),
        first_close(s, i + 2) >= s.len(),
    ensures
        tokens_from(s, i) == Err::<Seq<SpecToken>, SpecErr>(
            (SpecErr { kind: ErrorKind::UnterminatedConstruct, pos: i }),
        ),
{
}

/// Whether every word token in a sequence holds at least one character, as
/// every word the lexer emits does.
pub open spec fn wf_tokens(t: Seq<SpecToken>) -> bool {
    forall|i: int|
        0 <= i < t.len() ==> match #[trigger] t[i] {
            SpecToken::Word(w) => w.len() >= 1,
            _ => true,
        }
}

/// Whether every definition name in a tree is a non-empty identifier
/// distinct from the reserved keywords, recursively.  Word-call names are
/// not constrained: inside a body a reserved declaration word is an
/// ordinary call.
pub open spec fn wf_node(n: SpecNode) -> bool
    decreases n,
{
    match n {
        SpecNode::Unit => true,
        SpecNode::ForthProgram { forms } => wf_nodes(forms),
        SpecNode::ProcedureDef { name, body } => name.len() >= 1 && !is_reserved(name) && wf_nodes(
            body,
        ),
        SpecNode::VarDecl { name, .. } => name.len() >= 1 && !is_reserved(name),
        SpecNode::ForthCreate { name, .. } => name.len() >= 1 && !is_reserved(name),
        SpecNode::IntegerLiteral { .. } => true,
        SpecNode::WordCall { .. } => true,
        SpecNode::Conditional { consequent, alternate } => wf_nodes(consequent) && match alternate {
            Some(a) => wf_nodes(a),
            None => true,
        },
        SpecNode::PostTestLoop { body } => wf_nodes(body),
        SpecNode::CountedLoop { body } => wf_nodes(body),
    }
}

pub open spec fn wf_nodes(s: Seq<SpecNode>) -> bool
    decreases s,
{
    s.len() == 0 || (wf_node(s[0]) && wf_nodes(s.subrange(1, s.len() as int)))
}

proof fn lemma_wf_nodes_cons(n: SpecNode, rest: Seq<SpecNode>)
    requires
        wf_node(n),
        wf_nodes(rest),
    ensures
        wf_nodes(seq![n] + rest),
{
    let s = seq![n] + rest;
    assert(s[0] == n);
    assert(s.subrange(1, s.len() as int) =~= rest);
}

/// Every word the lexer emits holds at least one character.
pub proof fn lemma_tokens_wf(s: Seq<char>, i: int)
    ensures
        tokens_from(s, i) matches Ok(ts) ==> wf_tokens(ts),
    decreases s.len() - i,
{
    if !(0 <= i < s.len()) {
    } else if is_ws(s[i]) {
        lemma_tokens_wf(s, i + 1);
    } else if s[i] == '(' && i + 1 < s.len() && is_ws(s[i + 1]) {
        if first_close(s, i + 2) < s.len() {
            lemma_tokens_wf(s, clamp(first_close(s, i + 2) + 1, i + 1, s.len() as int));
        }
    } else if s[i] == '\\' && i + 1 < s.len() && is_ws(s[i + 1]) {
        lemma_tokens_wf(s, clamp(first_nl(s, i + 1) + 1, i + 1, s.len() as int));
    } else {
        let j = clamp(first_ws(s, i + 1), i + 1, s.len() as int);
        lemma_tokens_wf(s, j);
        let w = s.subrange(i, j);
        assert(w.len() >= 1);
        match tokens_from(s, j) {
            Ok(rest) => {
                let ts = seq![classify_word(w)] + rest;
                assert(tokens_from(s, i) == Ok::<Seq<SpecToken>, SpecErr>(ts));
                assert forall|k: int| 0 <= k < ts.len() implies match #[trigger] ts[k] {
                    SpecToken::Word(ww) => ww.len() >= 1,
                    _ => true,
                } by {
                    if k > 0 {
                        assert(ts[k] == rest[k - 1]);
                    }
                }
            },
            Err(_) => {},
        }
    }
}

/// Every body element the grammar recognizes has well-formed names.
pub proof fn lemma_parse_elem_wf(t: Seq<SpecToken>, i: int)
    requires
        wf_tokens(t),
    ensures
        parse_elem(t, i) matches Ok((n, j)) ==> wf_node(n),
    decreases t.len() - i, 0int,
{
    if 0 <= i < t.len() {
        match t[i] {
            SpecToken::Word(w) => {
                if is_kw_if(w) || is_kw_begin(w) || is_kw_do(w) {
                    lemma_parse_elems_wf(t, i + 1);
                    match parse_elems(t, i + 1) {
                        Ok((cons, j)) => {
                            if 0 <= j < t.len() {
                                match t[j] {
                                    SpecToken::Word(w2) => {
                                        if is_kw_if(w) && is_kw_else(w2) {
                                            lemma_parse_elems_wf(
                                                t,
                                                clamp(j + 1, i + 1, t.len() as int),
                                            );
                                        }
                                    },
                                    _ => {},
                                }
                            }
                        },
                        Err(_) => {},
                    }
                }
            },
            _ => {},
        }
    }
}

/// Every body-element run the grammar recognizes has well-formed names.
pub proof fn lemma_parse_elems_wf(t: Seq<SpecToken>, i: int)
    requires
        wf_tokens(t),
    ensures
        parse_elems(t, i) matches Ok((ns, j)) ==> wf_nodes(ns),
    decreases t.len() - i, 1int,
{
    if !(0 <= i < t.len()) || crate::grammar::is_stop(t[i]) {
    } else {
        lemma_parse_elem_wf(t, i);
        match parse_elem(t, i) {
            Ok((n, j)) => {
                lemma_parse_elems_wf(t, clamp(j, i + 1, t.len() as int));
                match parse_elems(t, clamp(j, i + 1, t.len() as int)) {
                    Ok((rest, _)) => {
                        lemma_wf_nodes_cons(n, rest);
                    },
                    Err(_) => {},
                }
            },
            Err(_) => {},
        }
    }
}

/// Every top-level form the grammar recognizes has well-formed names: the
/// name of a definition is taken from a lexer word and the grammar refuses
/// a reserved keyword there.
pub proof fn lemma_parse_top_form_wf(t: Seq<SpecToken>, i: int)
    requires
        wf_tokens(t),
    ensures
        parse_top_form(t, i) matches Ok((n, j)) ==> wf_node(n),
    decreases t.len() - i, 2int,
{
    if 0 <= i < t.len() {
        match t[i] {
            SpecToken::Colon => {
                if i + 1 < t.len() {
                    match t[i + 1] {
                        SpecToken::Word(w) => {
                            if !is_reserved(w) {
                                lemma_parse_elems_wf(t, i + 2);
                            }
                        },
                        _ => {},
                    }
                }
            },
            _ => {},
        }
    }
}

/// Every program the grammar recognizes has well-formed names.
pub proof fn lemma_parse_program_from_wf(t: Seq<SpecToken>, i: int)
    requires
        wf_tokens(t),
    ensures
        parse_program_from(t, i) matches Ok(ns) ==> wf_nodes(ns),
    decreases t.len() - i, 3int,
{
    if 0 <= i < t.len() {
        lemma_parse_top_form_wf(t, i);
        match parse_top_form(t, i) {
            Ok((n, j)) => {
                lemma_parse_program_from_wf(t, clamp(j, i + 1, t.len() as int));
                match parse_program_from(t, clamp(j, i + 1, t.len() as int)) {
                    Ok(rest) => {
                        lemma_wf_nodes_cons(n, rest);
                    },
                    Err(_) => {},
                }
            },
            Err(_) => {},
        }
    }
}

/// Every tree that any of the three entry points produces from source text
/// has well-formed names: each `ProcedureDef`, `VarDecl` and `ForthCreate`
/// name is a non-empty identifier distinct from the reserved keywords.
pub proof fn lemma_parse_names_wf(s: Seq<char>)
    ensures
        program_result(s) matches Ok(n) ==> wf_node(n),
        definition_result(s) matches Ok(n) ==> wf_node(n),
        words_result(s) matches Ok(ns) ==> wf_nodes(ns),
{
    lemma_tokens_wf(s, 0);
    match spec_tokens(s) {
        Ok(t) => {
            lemma_parse_program_from_wf(t, 0);
            lemma_parse_top_form_wf(t, 0);
            lemma_parse_elems_wf(t, 0);
        },
        Err(_) => {},
    }
}

} // verus!
