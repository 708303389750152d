use vstd::prelude::*;

verus! {

use crate::ast::{
    Node, SpecNode, ParseError, SpecErr, ErrorKind, dv_node, dv_node_seq, lemma_dv_node_seq_cons,
};
use crate::token::{
    Token, SpecToken, is_closer, is_reserved, is_kw_if, is_kw_else, is_kw_then, is_kw_begin,
    is_kw_until, is_kw_do, is_kw_loop, is_kw_variable, is_kw_constant, is_kw_create, is_kw_allot,
    is_closer_exec, is_reserved_exec, word_matches,
};
use crate::lexer::clamp;

broadcast use vstd::std_specs::vec::group_vec_axioms;

pub open spec fn unexpected(i: int) -> SpecErr {
    SpecErr { kind: ErrorKind::UnexpectedToken, pos: i }
}

pub open spec fn unterminated(i: int) -> SpecErr {
    SpecErr { kind: ErrorKind::UnterminatedConstruct, pos: i }
}

pub open spec fn unknown_form(i: int) -> SpecErr {
    SpecErr { kind: ErrorKind::UnknownTopLevelForm, pos: i }
}

/// Whether a token ends a run of body elements: `:` and `;` and the words
/// that close an open control-flow construct do; everything else starts
/// another body element.
pub open spec fn is_stop(tok: SpecToken) -> bool {
    match tok {
        SpecToken::Colon => true,
        SpecToken::Semicolon => true,
        SpecToken::Number(_) => false,
        SpecToken::Word(w) => is_closer(w),
    }
}

/// Parse one body element at position `i`.
///
/// A number is an integer literal; `IF`, `BEGIN` and `DO` open nested
/// constructs closed by `THEN` (with an optional `ELSE` arm), `UNTIL` and
/// `LOOP`; any other word, reserved declaration keywords included, is a
/// plain word call.  Reaching the end of the input while a construct is
/// open is an unterminated-construct error at the opener.
pub open spec fn parse_elem(t: Seq<SpecToken>, i: int) -> Result<(SpecNode, int), SpecErr>
    decreases t.len() - i, 0int,
{
    if !(0 <= i < t.len()) {
        Err(unexpected(i))
    } else {
        match t[i] {
            SpecToken::Number(n) => Ok((SpecNode::IntegerLiteral { value: n }, i + 1)),
            SpecToken::Colon => Err(unexpected(i)),
            SpecToken::Semicolon => Err(unexpected(i)),
            SpecToken::Word(w) => {
                if is_kw_if(w) {
                    match parse_elems(t, i + 1) {
                        Err(e) => Err(e),
                        Ok((cons, j)) => {
                            if !(0 <= j < t.len()) {
                                Err(unterminated(i))
                            } else {
                                match t[j] {
                                    SpecToken::Word(w2) => {
                                        if is_kw_then(w2) {
                                            Ok(
                                                (
                                                    SpecNode::Conditional {
                                                        consequent: cons,
                                                        alternate: None,
                                                    },
                                                    j + 1,
                                                ),
                                            )
                                        } else if is_kw_else(w2) {
                                            match parse_elems(
                                                t,
                                                clamp(j + 1, i + 1, t.len() as int),
                                            ) {
                                                Err(e) => Err(e),
                                                Ok((alt, k)) => {
                                                    if !(0 <= k < t.len()) {
                                                        Err(unterminated(i))
                                                    } else {
                                                        match t[k] {
                                                            SpecToken::Word(w3) => {
                                                                if is_kw_then(w3) {
                                                                    Ok(
                                                                        (
                                                                            SpecNode::Conditional {
                                                                                consequent: cons,
                                                                                alternate: Some(alt),
                                                                            },
                                                                            k + 1,
                                                                        ),
                                                                    )
                                                                } else {
                                                                    Err(unexpected(k))
                                                                }
                                                            },
                                                            _ => Err(unexpected(k)),
                                                        }
                                                    }
                                                },
                                            }
                                        } else {
                                            Err(unexpected(j))
                                        }
                                    },
                                    _ => Err(unexpected(j)),
                                }
                            }
                        },
                    }
                } else if is_kw_begin(w) {
                    match parse_elems(t, i + 1) {
                        Err(e) => Err(e),
                        Ok((body, j)) => {
                            if !(0 <= j < t.len()) {
                                Err(unterminated(i))
                            } else {
                                match t[j] {
                                    SpecToken::Word(w2) => {
                                        if is_kw_until(w2) {
                                            Ok((SpecNode::PostTestLoop { body }, j + 1))
                                        } else {
                                            Err(unexpected(j))
                                        }
                                    },
                                    _ => Err(unexpected(j)),
                                }
                            }
                        },
                    }
                } else if is_kw_do(w) {
                    match parse_elems(t, i + 1) {
                        Err(e) => Err(e),
                        Ok((body, j)) => {
                            if !(0 <= j < t.len()) {
                                Err(unterminated(i))
                            } else {
                                match t[j] {
                                    SpecToken::Word(w2) => {
                                        if is_kw_loop(w2) {
                                            Ok((SpecNode::CountedLoop { body }, j + 1))
                                        } else {
                                            Err(unexpected(j))
                                        }
                                    },
                                    _ => Err(unexpected(j)),
                                }
                            }
                        },
                    }
                } else if is_closer(w) {
                    Err(unexpected(i))
                } else {
                    Ok((SpecNode::WordCall { name: w }, i + 1))
                }
            },
        }
    }
}

/// Parse body elements from position `i` until a stop token or the end of
/// the input, in source order.
pub open spec fn parse_elems(t: Seq<SpecToken>, i: int) -> Result<(Seq<SpecNode>, int), SpecErr>
    decreases t.len() - i, 1int,
{
    if !(0 <= i < t.len()) || is_stop(t[i]) {
        Ok((Seq::empty(), i))
    } else {
        match parse_elem(t, i) {
            Err(e) => Err(e),
            Ok((n, j)) => {
                match parse_elems(t, clamp(j, i + 1, t.len() as int)) {
                    Err(e) => Err(e),
                    Ok((rest, end)) => Ok((seq![n] + rest, end)),
                }
            },
        }
    }
}

/// Parse one top-level form at position `i`.
///
/// The recognized shapes are `VARIABLE <name>`, `<literal> CONSTANT
/// <name>`, `: <name> <body> ;`, `CREATE <name> <literal> ALLOT` with an
/// optional trailing `;`, and, for permissiveness at the top level, a bare
/// integer literal or word call.  A definition name must not be a reserved
/// keyword.  Control-flow openers and stray keywords match no top-level
/// shape.
pub open spec fn parse_top_form(t: Seq<SpecToken>, i: int) -> Result<(SpecNode, int), SpecErr>
    decreases t.len() - i, 2int,
{
    if !(0 <= i < t.len()) {
        Err(unknown_form(i))
    } else {
        match t[i] {
            SpecToken::Colon => {
                if !(i + 1 < t.len()) {
                    Err(unexpected(i + 1))
                } else {
                    match t[i + 1] {
                        SpecToken::Word(w) => {
                            if is_reserved(w) {
                                Err(unexpected(i + 1))
                            } else {
                                match parse_elems(t, i + 2) {
                                    Err(e) => Err(e),
                                    Ok((body, j)) => {
                                        if !(0 <= j < t.len()) {
                                            Err(unterminated(i))
                                        } else {
                                            match t[j] {
                                                SpecToken::Semicolon => Ok(
                                                    (
                                                        SpecNode::ProcedureDef { name: w, body },
                                                        j + 1,
                                                    ),
                                                ),
                                                _ => Err(unexpected(j)),
                                            }
                                        }
                                    },
                                }
                            }
                        },
                        _ => Err(unexpected(i + 1)),
                    }
                }
            },
            SpecToken::Number(n) => {
                let follows_constant = i + 1 < t.len() && match t[i + 1] {
                    SpecToken::Word(w) => is_kw_constant(w),
                    _ => false,
                };
                if follows_constant {
                    if !(i + 2 < t.len()) {
                        Err(unexpected(i + 2))
                    } else {
                        match t[i + 2] {
                            SpecToken::Word(w2) => {
                                if is_reserved(w2) {
                                    Err(unexpected(i + 2))
                                } else {
                                    Ok(
                                        (
                                            SpecNode::VarDecl {
                                                name: w2,
                                                is_constant: true,
                                                value: Some(n),
                                            },
                                            i + 3,
                                        ),
                                    )
                                }
                            },
                            _ => Err(unexpected(i + 2)),
                        }
                    }
                } else {
                    Ok((SpecNode::IntegerLiteral { value: n }, i + 1))
                }
            },
            SpecToken::Semicolon => Err(unexpected(i)),
            SpecToken::Word(w) => {
                if is_kw_variable(w) {
                    if !(i + 1 < t.len()) {
                        Err(unexpected(i + 1))
                    } else {
                        match t[i + 1] {
                            SpecToken::Word(w2) => {
                                if is_reserved(w2) {
                                    Err(unexpected(i + 1))
                                } else {
                                    Ok(
                                        (
                                            SpecNode::VarDecl {
                                                name: w2,
                                                is_constant: false,
                                                value: None,
                                            },
                                            i + 2,
                                        ),
                                    )
                                }
                            },
                            _ => Err(unexpected(i + 1)),
                        }
                    }
                } else if is_kw_create(w) {
                    if !(i + 1 < t.len()) {
                        Err(unexpected(i + 1))
                    } else {
                        match t[i + 1] {
                            SpecToken::Word(nm) => {
                                if is_reserved(nm) {
                                    Err(unexpected(i + 1))
                                } else if !(i + 2 < t.len()) {
                                    Err(unexpected(i + 2))
                                } else {
                                    match t[i + 2] {
                                        SpecToken::Number(sz) => {
                                            if !(i + 3 < t.len()) {
                                                Err(unexpected(i + 3))
                                            } else {
                                                match t[i + 3] {
                                                    SpecToken::Word(w3) => {
                                                        if is_kw_allot(w3) {
                                                            let has_semi = i + 4 < t.len()
                                                                && match t[i + 4] {
                                                                SpecToken::Semicolon => true,
                                                                _ => false,
                                                            };
                                                            let after = if has_semi {
                                                                i + 5
                                                            } else {
                                                                i + 4
                                                            };
                                                            Ok(
                                                                (
                                                                    SpecNode::ForthCreate {
                                                                        name: nm,
                                                                        size: sz,
                                                                    },
                                                                    after,
                                                                ),
                                                            )
                                                        } else {
                                                            Err(unexpected(i + 3))
                                                        }
                                                    },
                                                    _ => Err(unexpected(i + 3)),
                                                }
                                            }
                                        },
                                        _ => Err(unexpected(i + 2)),
                                    }
                                }
                            },
                            _ => Err(unexpected(i + 1)),
                        }
                    }
                } else if is_reserved(w) {
                    Err(unknown_form(i))
                } else {
                    Ok((SpecNode::WordCall { name: w }, i + 1))
                }
            },
        }
    }
}

/// Parse top-level forms from position `i` to the end of the input, in
/// source order.
pub open spec fn parse_program_from(t: Seq<SpecToken>, i: int) -> Result<Seq<SpecNode>, SpecErr>
    decreases t.len() - i, 3int,
{
    if !(0 <= i < t.len()) {
        Ok(Seq::empty())
    } else {
        match parse_top_form(t, i) {
            Err(e) => Err(e),
            Ok((n, j)) => {
                match parse_program_from(t, clamp(j, i + 1, t.len() as int)) {
                    Err(e) => Err(e),
                    Ok(rest) => Ok(seq![n] + rest),
                }
            },
        }
    }
}

/// The whole-program grammar: every top-level form, wrapped in a
/// `ForthProgram` node.
pub open spec fn spec_parse_program(t: Seq<SpecToken>) -> Result<SpecNode, SpecErr> {
    match parse_program_from(t, 0) {
        Err(e) => Err(e),
        Ok(forms) => Ok(SpecNode::ForthProgram { forms }),
    }
}

/// The single-definition grammar: exactly one definition or declaration
/// and nothing else.  A bare literal or word call is accepted at the top
/// level of a program but is not a definition.
pub open spec fn spec_parse_definition(t: Seq<SpecToken>) -> Result<SpecNode, SpecErr> {
    match parse_top_form(t, 0) {
        Err(e) => Err(e),
        Ok((n, j)) => {
            if !(n matches SpecNode::ProcedureDef { .. } || n matches SpecNode::VarDecl { .. }
                || n matches SpecNode::ForthCreate { .. }) {
                Err(unknown_form(0))
            } else if j != t.len() {
                Err(unexpected(j))
            } else {
                Ok(n)
            }
        },
    }
}

/// The word-sequence grammar: a bare run of body elements covering the
/// whole input, returned without an enclosing node.
pub open spec fn spec_parse_words(t: Seq<SpecToken>) -> Result<Seq<SpecNode>, SpecErr> {
    match parse_elems(t, 0) {
        Err(e) => Err(e),
        Ok((ns, j)) => {
            if j != t.len() {
                Err(unexpected(j))
            } else {
                Ok(ns)
            }
        },
    }
}

/// Parse one body element at `i`, exactly as `parse_elem` says.
pub fn p_elem(t: &Vec<Token>, i: usize) -> (r: Result<(Node, usize), ParseError>)
    requires
        i < t@.len(),
    ensures
        (match r {
            Ok((n, j)) => parse_elem(t.deep_view(), i as int) == Ok::<(SpecNode, int), SpecErr>(
                (dv_node(n), j as int),
            ) && i < j <= t@.len(),
            Err(e) => parse_elem(t.deep_view(), i as int) == Err::<(SpecNode, int), SpecErr>(
                e.deep_view(),
            ),
        }),
    decreases t@.len() - i, 0int,
{
    let tlen = t.len();
    match &t[i] {
        Token::Number(v) => Ok((Node::IntegerLiteral { value: *v }, i + 1)),
        Token::Colon => Err(ParseError { kind: ErrorKind::UnexpectedToken, pos: i }),
        Token::Semicolon => Err(ParseError { kind: ErrorKind::UnexpectedToken, pos: i }),
        Token::Word(w) => {
            if word_matches(w.as_str(), "IF") {
                match p_elems(t, i + 1) {
                    Err(e) => Err(e),
                    Ok((cons, j)) => {
                        if j >= tlen {
                            Err(ParseError { kind: ErrorKind::UnterminatedConstruct, pos: i })
                        } else {
                            match &t[j] {
                                Token::Word(w2) => {
                                    if word_matches(w2.as_str(), "THEN") {
                                        Ok(
                                            (
                                                Node::Conditional {
                                                    consequent: cons,
                                                    alternate: None,
                                                },
                                                j + 1,
                                            ),
                                        )
                                    } else if word_matches(w2.as_str(), "ELSE") {
                                        match p_elems(t, j + 1) {
                                            Err(e) => Err(e),
                                            Ok((alt, k)) => {
                                                if k >= tlen {
                                                    Err(
                                                        ParseError {
                                                            kind: ErrorKind::UnterminatedConstruct,
                                                            pos: i,
                                                        },
                                                    )
                                                } else {
                                                    match &t[k] {
                                                        Token::Word(w3) => {
                                                            if word_matches(w3.as_str(), "THEN") {
                                                                Ok(
                                                                    (
                                                                        Node::Conditional {
                                                                            consequent: cons,
                                                                            alternate: Some(alt),
                                                                        },
                                                                        k + 1,
                                                                    ),
                                                                )
                                                            } else {
                                                                Err(
                                                                    ParseError {
                                                                        kind:
                                                                            ErrorKind::UnexpectedToken,
                                                                        pos: k,
                                                                    },
                                                                )
                                                            }
                                                        },
                                                        _ => Err(
                                                            ParseError {
                                                                kind: ErrorKind::UnexpectedToken,
                                                                pos: k,
                                                            },
                                                        ),
                                                    }
                                                }
                                            },
                                        }
                                    } else {
                                        Err(
                                            ParseError {
                                                kind: ErrorKind::UnexpectedToken,
                                                pos: j,
                                            },
                                        )
                                    }
                                },
                                _ => Err(ParseError { kind: ErrorKind::UnexpectedToken, pos: j }),
                            }
                        }
                    },
                }
            } else if word_matches(w.as_str(), "BEGIN") {
                match p_elems(t, i + 1) {
                    Err(e) => Err(e),
                    Ok((body, j)) => {
                        if j >= tlen {
                            Err(ParseError { kind: ErrorKind::UnterminatedConstruct, pos: i })
                        } else {
                            match &t[j] {
                                Token::Word(w2) => {
                                    if word_matches(w2.as_str(), "UNTIL") {
                                        Ok((Node::PostTestLoop { body }, j + 1))
                                    } else {
                                        Err(
                                            ParseError {
                                                kind: ErrorKind::UnexpectedToken,
                                                pos: j,
                                            },
                                        )
                                    }
                                },
                                _ => Err(ParseError { kind: ErrorKind::UnexpectedToken, pos: j }),
                            }
                        }
                    },
                }
            } else if word_matches(w.as_str(), "DO") {
                match p_elems(t, i + 1) {
                    Err(e) => Err(e),
                    Ok((body, j)) => {
                        if j >= tlen {
                            Err(ParseError { kind: ErrorKind::UnterminatedConstruct, pos: i })
                        } else {
                            match &t[j] {
                                Token::Word(w2) => {
                                    if word_matches(w2.as_str(), "LOOP") {
                                        Ok((Node::CountedLoop { body }, j + 1))
                                    } else {
                                        Err(
                                            ParseError {
                                                kind: ErrorKind::UnexpectedToken,
                                                pos: j,
                                            },
                                        )
                                    }
                                },
                                _ => Err(ParseError { kind: ErrorKind::UnexpectedToken, pos: j }),
                            }
                        }
                    },
                }
            } else if is_closer_exec(w.as_str()) {
                Err(ParseError { kind: ErrorKind::UnexpectedToken, pos: i })
            } else {
                Ok((Node::WordCall { name: w.clone() }, i + 1))
            }
        },
    }
}

/// Parse body elements from `i` until a stop token or the end of the
/// input, exactly as `parse_elems` says.
pub fn p_elems(t: &Vec<Token>, i: usize) -> (r: Result<(Vec<Node>, usize), ParseError>)
    requires
        i <= t@.len(),
    ensures
        (match r {
            Ok((ns, j)) => parse_elems(t.deep_view(), i as int) == Ok::<
                (Seq<SpecNode>, int),
                SpecErr,
            >((dv_node_seq(ns@), j as int)) && i <= j <= t@.len(),
            Err(e) => parse_elems(t.deep_view(), i as int) == Err::<(Seq<SpecNode>, int), SpecErr>(
                e.deep_view(),
            ),
        }),
    decreases t@.len() - i, 1int,
{
    let tlen = t.len();
    let stop = if i >= tlen {
        true
    } else {
        match &t[i] {
            Token::Colon => true,
            Token::Semicolon => true,
            Token::Number(_) => false,
            Token::Word(w) => is_closer_exec(w.as_str()),
        }
    };
    if stop {
        let ns: Vec<Node> = Vec::new();
        proof {
            assert(dv_node_seq(ns@) =~= Seq::<SpecNode>::empty());
        }
        return Ok((ns, i));
    }
    match p_elem(t, i) {
        Err(e) => Err(e),
        Ok((n, j)) => {
            match p_elems(t, j) {
                Err(e) => Err(e),
                Ok((rest, end)) => {
                    let ghost restv = rest@;
                    let mut out = rest;
                    out.insert(0, n);
                    proof {
                        lemma_dv_node_seq_cons(restv, n);
                    }
                    Ok((out, end))
                },
            }
        },
    }
}

/// Parse one top-level form at `i`, exactly as `parse_top_form` says.
pub fn p_top_form(t: &Vec<Token>, i: usize) -> (r: Result<(Node, usize), ParseError>)
    requires
        i < t@.len(),
    ensures
        (match r {
            Ok((n, j)) => parse_top_form(t.deep_view(), i as int) == Ok::<
                (SpecNode, int),
                SpecErr,
            >((dv_node(n), j as int)) && i < j <= t@.len(),
            Err(e) => parse_top_form(t.deep_view(), i as int) == Err::<(SpecNode, int), SpecErr>(
                e.deep_view(),
            ),
        }),
    decreases t@.len() - i, 2int,
{
    let tlen = t.len();
    match &t[i] {
        Token::Colon => {
            if i + 1 >= tlen {
                return Err(ParseError { kind: ErrorKind::UnexpectedToken, pos: i + 1 });
            }
            match &t[i + 1] {
                Token::Word(w) => {
                    if is_reserved_exec(w.as_str()) {
                        Err(ParseError { kind: ErrorKind::UnexpectedToken, pos: i + 1 })
                    } else {
                        match p_elems(t, i + 2) {
                            Err(e) => Err(e),
                            Ok((body, j)) => {
                                if j >= tlen {
                                    Err(
                                        ParseError {
                                            kind: ErrorKind::UnterminatedConstruct,
                                            pos: i,
                                        },
                                    )
                                } else {
                                    match &t[j] {
                                        Token::Semicolon => Ok(
                                            (
                                                Node::ProcedureDef { name: w.clone(), body },
                                                j + 1,
                                            ),
                                        ),
                                        _ => Err(
                                            ParseError {
                                                kind: ErrorKind::UnexpectedToken,
                                                pos: j,
                                            },
                                        ),
                                    }
                                }
                            },
                        }
                    }
                },
                _ => Err(ParseError { kind: ErrorKind::UnexpectedToken, pos: i + 1 }),
            }
        },
        Token::Number(v) => {
            let follows_constant = i + 1 < tlen && match &t[i + 1] {
                Token::Word(w) => word_matches(w.as_str(), "CONSTANT"),
                _ => false,
            };
            if follows_constant {
                if i + 2 >= tlen {
                    return Err(ParseError { kind: ErrorKind::UnexpectedToken, pos: i + 2 });
                }
                match &t[i + 2] {
                    Token::Word(w2) => {
                        if is_reserved_exec(w2.as_str()) {
                            Err(ParseError { kind: ErrorKind::UnexpectedToken, pos: i + 2 })
                        } else {
                            Ok(
                                (
                                    Node::VarDecl {
                                        name: w2.clone(),
                                        is_constant: true,
                                        value: Some(*v),
                                    },
                                    i + 3,
                                ),
                            )
                        }
                    },
                    _ => Err(ParseError { kind: ErrorKind::UnexpectedToken, pos: i + 2 }),
                }
            } else {
                Ok((Node::IntegerLiteral { value: *v }, i + 1))
            }
        },
        Token::Semicolon => Err(ParseError { kind: ErrorKind::UnexpectedToken, pos: i }),
        Token::Word(w) => {
            if word_matches(w.as_str(), "VARIABLE") {
                if i + 1 >= tlen {
                    return Err(ParseError { kind: ErrorKind::UnexpectedToken, pos: i + 1 });
                }
                match &t[i + 1] {
                    Token::Word(w2) => {
                        if is_reserved_exec(w2.as_str()) {
                            Err(ParseError { kind: ErrorKind::UnexpectedToken, pos: i + 1 })
                        } else {
                            Ok(
                                (
                                    Node::VarDecl {
                                        name: w2.clone(),
                                        is_constant: false,
                                        value: None,
                                    },
                                    i + 2,
                                ),
                            )
                        }
                    },
                    _ => Err(ParseError { kind: ErrorKind::UnexpectedToken, pos: i + 1 }),
                }
            } else if word_matches(w.as_str(), "CREATE") {
                if i + 1 >= tlen {
                    return Err(ParseError { kind: ErrorKind::UnexpectedToken, pos: i + 1 });
                }
                match &t[i + 1] {
                    Token::Word(nm) => {
                        if is_reserved_exec(nm.as_str()) {
                            Err(ParseError { kind: ErrorKind::UnexpectedToken, pos: i + 1 })
                        } else if i + 2 >= tlen {
                            Err(ParseError { kind: ErrorKind::UnexpectedToken, pos: i + 2 })
                        } else {
                            match &t[i + 2] {
                                Token::Number(sz) => {
                                    if i + 3 >= tlen {
                                        Err(
                                            ParseError {
                                                kind: ErrorKind::UnexpectedToken,
                                                pos: i + 3,
                                            },
                                        )
                                    } else {
                                        match &t[i + 3] {
                                            Token::Word(w3) => {
                                                if word_matches(w3.as_str(), "ALLOT") {
                                                    let has_semi = i + 4 < tlen && matches!(
                                                        &t[i + 4],
                                                        Token::Semicolon
                                                    );
                                                    let after = if has_semi {
                                                        i + 5
                                                    } else {
                                                        i + 4
                                                    };
                                                    Ok(
                                                        (
                                                            Node::ForthCreate {
                                                                name: nm.clone(),
                                                                size: *sz,
                                                            },
                                                            after,
                                                        ),
                                                    )
                                                } else {
                                                    Err(
                                                        ParseError {
                                                            kind: ErrorKind::UnexpectedToken,
                                                            pos: i + 3,
                                                        },
                                                    )
                                                }
                                            },
                                            _ => Err(
                                                ParseError {
                                                    kind: ErrorKind::UnexpectedToken,
                                                    pos: i + 3,
                                                },
                                            ),
                                        }
                                    }
                                },
                                _ => Err(
                                    ParseError { kind: ErrorKind::UnexpectedToken, pos: i + 2 },
                                ),
                            }
                        }
                    },
                    _ => Err(ParseError { kind: ErrorKind::UnexpectedToken, pos: i + 1 }),
                }
            } else if is_reserved_exec(w.as_str()) {
                Err(ParseError { kind: ErrorKind::UnknownTopLevelForm, pos: i })
            } else {
                Ok((Node::WordCall { name: w.clone() }, i + 1))
            }
        },
    }
}

/// Parse top-level forms from `i` to the end of the input, exactly as
/// `parse_program_from` says.
pub fn p_program_from(t: &Vec<Token>, i: usize) -> (r: Result<Vec<Node>, ParseError>)
    requires
        i <= t@.len(),
    ensures
        (match r {
            Ok(ns) => parse_program_from(t.deep_view(), i as int) == Ok::<Seq<SpecNode>, SpecErr>(
                dv_node_seq(ns@),
            ),
            Err(e) => parse_program_from(t.deep_view(), i as int) == Err::<Seq<SpecNode>, SpecErr>(
                e.deep_view(),
            ),
        }),
    decreases t@.len() - i, 3int,
{
    let tlen = t.len();
    if i >= tlen {
        let ns: Vec<Node> = Vec::new();
        proof {
            assert(dv_node_seq(ns@) =~= Seq::<SpecNode>::empty());
        }
        return Ok(ns);
    }
    match p_top_form(t, i) {
        Err(e) => Err(e),
        Ok((n, j)) => {
            match p_program_from(t, j) {
                Err(e) => Err(e),
                Ok(rest) => {
                    let ghost restv = rest@;
                    let mut out = rest;
                    out.insert(0, n);
                    proof {
                        lemma_dv_node_seq_cons(restv, n);
                    }
                    Ok(out)
                },
            }
        },
    }
}

/// Parse a token sequence as a whole program, exactly as
/// `spec_parse_program` says.
pub fn p_program(t: &Vec<Token>) -> (r: Result<Node, ParseError>)
    ensures
        (match r {
            Ok(n) => spec_parse_program(t.deep_view()) == Ok::<SpecNode, SpecErr>(dv_node(n)),
            Err(e) => spec_parse_program(t.deep_view()) == Err::<SpecNode, SpecErr>(e.deep_view()),
        }),
{
    let tlen = t.len();
    match p_program_from(t, 0) {
        Err(e) => Err(e),
        Ok(forms) => Ok(Node::ForthProgram { forms }),
    }
}

/// Parse a token sequence as a single definition, exactly as
/// `spec_parse_definition` says.
pub fn p_definition(t: &Vec<Token>) -> (r: Result<Node, ParseError>)
    ensures
        (match r {
            Ok(n) => spec_parse_definition(t.deep_view()) == Ok::<SpecNode, SpecErr>(dv_node(n)),
            Err(e) => spec_parse_definition(t.deep_view()) == Err::<SpecNode, SpecErr>(
                e.deep_view(),
            ),
        }),
{
    let tlen = t.len();
    if tlen == 0 {
        return Err(ParseError { kind: ErrorKind::UnknownTopLevelForm, pos: 0 });
    }
    match p_top_form(t, 0) {
        Err(e) => Err(e),
        Ok((n, j)) => {
            let is_definition = match &n {
                Node::ProcedureDef { .. } => true,
                Node::VarDecl { .. } => true,
                Node::ForthCreate { .. } => true,
                _ => false,
            };
            if !is_definition {
                Err(ParseError { kind: ErrorKind::UnknownTopLevelForm, pos: 0 })
            } else if j != tlen {
                Err(ParseError { kind: ErrorKind::UnexpectedToken, pos: j })
            } else {
                Ok(n)
            }
        },
    }
}

/// Parse a token sequence as a bare word sequence, exactly as
/// `spec_parse_words` says.
pub fn p_words(t: &Vec<Token>) -> (r: Result<Vec<Node>, ParseError>)
    ensures
        (match r {
            Ok(ns) => spec_parse_words(t.deep_view()) == Ok::<Seq<SpecNode>, SpecErr>(
                dv_node_seq(ns@),
            ),
            Err(e) => spec_parse_words(t.deep_view()) == Err::<Seq<SpecNode>, SpecErr>(
                e.deep_view(),
            ),
        }),
{
    let tlen = t.len();
    match p_elems(t, 0) {
        Err(e) => Err(e),
        Ok((ns, j)) => {
            if j != tlen {
                Err(ParseError { kind: ErrorKind::UnexpectedToken, pos: j })
            } else {
                Ok(ns)
            }
        },
    }
}

} // verus!
