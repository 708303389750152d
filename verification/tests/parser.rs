use forth_parser::ast::{ErrorKind, Node};
use forth_parser::{parse, parse_definition, parse_words, try_parse, try_parse_definition};

#[test]
fn test_parse_constant() {
    let code = "42 CONSTANT answer";
    let ast = parse_definition(code.to_string());
    match ast {
        Node::VarDecl { name, is_constant: true, .. } => assert_eq!(name, "answer"),
        _ => panic!("Expected constant VarDecl"),
    }
}

#[test]
fn test_parse_variable() {
    let code = "VARIABLE counter";
    let ast = parse_definition(code.to_string());
    match ast {
        Node::VarDecl { name, is_constant: false, .. } => assert_eq!(name, "counter"),
        _ => panic!("Expected variable VarDecl"),
    }
}

#[test]
fn test_parse_word_definition() {
    let code = ": square dup * ;";
    let ast = parse_definition(code.to_string());
    match ast {
        Node::ProcedureDef { name, body } => {
            assert_eq!(name, "square");
            assert_eq!(body.len(), 2); // dup and *
        }
        _ => panic!("Expected ProcedureDef"),
    }
}

#[test]
fn test_parse_if_then() {
    let code = ": abs dup 0< IF negate THEN ;";
    let ast = parse_definition(code.to_string());
    match ast {
        Node::ProcedureDef { name, .. } => assert_eq!(name, "abs"),
        _ => panic!("Expected ProcedureDef"),
    }
}

#[test]
fn test_parse_begin_until() {
    let code = ": countdown BEGIN dup . 1- dup 0= UNTIL drop ;";
    let ast = parse_definition(code.to_string());
    match ast {
        Node::ProcedureDef { name, .. } => assert_eq!(name, "countdown"),
        _ => panic!("Expected ProcedureDef"),
    }
}

#[test]
fn test_parse_do_loop() {
    let code = ": sum 0 swap 0 DO i + LOOP ;";
    let ast = parse_definition(code.to_string());
    match ast {
        Node::ProcedureDef { name, .. } => assert_eq!(name, "sum"),
        _ => panic!("Expected ProcedureDef"),
    }
}

#[test]
fn test_parse_comment() {
    let code = "( This is a comment ) : test dup ;";
    let ast = parse(code.to_string());
    match ast {
        Node::ForthProgram { .. } => {}
        _ => panic!("Expected ForthProgram"),
    }
}

#[test]
fn test_parse_hex_number() {
    let code = "0xFF CONSTANT max_byte";
    let ast = parse_definition(code.to_string());
    match ast {
        Node::VarDecl { name, is_constant: true, .. } => assert_eq!(name, "max_byte"),
        _ => panic!("Expected constant VarDecl"),
    }
}

#[test]
fn test_parse_create() {
    let code = "CREATE buffer 100 ALLOT ;";
    let ast = parse_definition(code.to_string());
    match ast {
        Node::ForthCreate { name, .. } => assert_eq!(name, "buffer"),
        _ => panic!("Expected ForthCreate"),
    }
}

fn word(name: &str) -> Node {
    Node::WordCall { name: name.to_string() }
}

#[test]
fn constant_value_is_carried_decimal() {
    let ast = parse_definition("42 CONSTANT answer".to_string());
    assert_eq!(
        ast,
        Node::VarDecl { name: "answer".to_string(), is_constant: true, value: Some(42) }
    );
}

#[test]
fn constant_value_is_carried_hex() {
    let ast = parse_definition("0xFF CONSTANT max_byte".to_string());
    assert_eq!(
        ast,
        Node::VarDecl { name: "max_byte".to_string(), is_constant: true, value: Some(255) }
    );
}

#[test]
fn square_body_is_two_word_calls() {
    let ast = parse_definition(": square dup * ;".to_string());
    assert_eq!(
        ast,
        Node::ProcedureDef { name: "square".to_string(), body: vec![word("dup"), word("*")] }
    );
}

#[test]
fn if_then_builds_conditional_without_alternate() {
    let ast = parse_definition(": abs dup 0< IF negate THEN ;".to_string());
    assert_eq!(
        ast,
        Node::ProcedureDef {
            name: "abs".to_string(),
            body: vec![
                word("dup"),
                word("0<"),
                Node::Conditional { consequent: vec![word("negate")], alternate: None },
            ],
        }
    );
}

#[test]
fn if_else_then_builds_conditional_with_alternate() {
    let ast = parse_definition(": pick IF 1 ELSE 2 THEN ;".to_string());
    assert_eq!(
        ast,
        Node::ProcedureDef {
            name: "pick".to_string(),
            body: vec![Node::Conditional {
                consequent: vec![Node::IntegerLiteral { value: 1 }],
                alternate: Some(vec![Node::IntegerLiteral { value: 2 }]),
            }],
        }
    );
}

#[test]
fn begin_until_builds_post_test_loop() {
    let ast = parse_definition(": countdown BEGIN dup . 1- dup 0= UNTIL drop ;".to_string());
    assert_eq!(
        ast,
        Node::ProcedureDef {
            name: "countdown".to_string(),
            body: vec![
                Node::PostTestLoop {
                    body: vec![word("dup"), word("."), word("1-"), word("dup"), word("0=")],
                },
                word("drop"),
            ],
        }
    );
}

#[test]
fn do_loop_builds_counted_loop_with_index_word() {
    let ast = parse_definition(": sum 0 swap 0 DO i + LOOP ;".to_string());
    assert_eq!(
        ast,
        Node::ProcedureDef {
            name: "sum".to_string(),
            body: vec![
                Node::IntegerLiteral { value: 0 },
                word("swap"),
                Node::IntegerLiteral { value: 0 },
                Node::CountedLoop { body: vec![word("i"), word("+")] },
            ],
        }
    );
}

#[test]
fn comment_contributes_no_node() {
    let with_comment = parse_definition("( text ) : test dup ;".to_string());
    let without_comment = parse_definition(": test dup ;".to_string());
    assert_eq!(with_comment, without_comment);
    assert_eq!(
        with_comment,
        Node::ProcedureDef { name: "test".to_string(), body: vec![word("dup")] }
    );
}

#[test]
fn line_comment_contributes_no_node() {
    let ast = parse("\\ a note\n: t dup ;\n".to_string());
    assert_eq!(
        ast,
        Node::ForthProgram {
            forms: vec![Node::ProcedureDef { name: "t".to_string(), body: vec![word("dup")] }],
        }
    );
}

#[test]
fn parsing_twice_yields_equal_trees() {
    let code = ": abs dup 0< IF negate THEN ; VARIABLE counter 42 CONSTANT answer";
    assert_eq!(parse(code.to_string()), parse(code.to_string()));
}

#[test]
fn malformed_definition_degrades_to_unit() {
    let ast = parse_definition(": broken IF dup".to_string());
    assert_eq!(ast, Node::Unit);
}

#[test]
fn malformed_definition_reports_unterminated_construct() {
    let err = try_parse_definition(": broken IF dup").unwrap_err();
    assert_eq!(err.kind, ErrorKind::UnterminatedConstruct);
    assert_eq!(err.pos, 2); // the opening IF is the third token
}

#[test]
fn mismatched_closer_reports_unexpected_token() {
    let err = try_parse_definition(": x IF dup UNTIL".to_string().as_str()).unwrap_err();
    assert_eq!(err.kind, ErrorKind::UnexpectedToken);
    assert_eq!(err.pos, 4); // the UNTIL where THEN or ELSE was expected
}

#[test]
fn bare_word_is_no_definition() {
    let err = try_parse_definition("dup").unwrap_err();
    assert_eq!(err.kind, ErrorKind::UnknownTopLevelForm);
    assert_eq!(err.pos, 0);
}

#[test]
fn word_sequence_of_three_calls() {
    let words = parse_words("dup swap drop".to_string());
    assert_eq!(words, vec![word("dup"), word("swap"), word("drop")]);
}

#[test]
fn empty_word_sequence() {
    let words = parse_words("".to_string());
    assert_eq!(words, Vec::<Node>::new());
}

#[test]
fn keywords_are_case_insensitive() {
    let ast = parse_definition("variable counter".to_string());
    assert_eq!(
        ast,
        Node::VarDecl { name: "counter".to_string(), is_constant: false, value: None }
    );
    let ast2 = parse_definition(": s dup * ;".to_string());
    let ast3 = parse_definition(": S DUP * ;".to_string());
    match (ast2, ast3) {
        (Node::ProcedureDef { body: b2, .. }, Node::ProcedureDef { body: b3, .. }) => {
            assert_eq!(b2, vec![word("dup"), word("*")]);
            assert_eq!(b3, vec![word("DUP"), word("*")]);
        }
        _ => panic!("Expected two ProcedureDefs"),
    }
}

#[test]
fn create_without_trailing_semicolon() {
    let ast = parse_definition("CREATE buffer 100 ALLOT".to_string());
    assert_eq!(ast, Node::ForthCreate { name: "buffer".to_string(), size: 100 });
}

#[test]
fn empty_program_parses_to_empty_forth_program() {
    let ast = parse("".to_string());
    assert_eq!(ast, Node::ForthProgram { forms: vec![] });
}

#[test]
fn top_level_forms_in_source_order() {
    let ast = parse("VARIABLE x 42 CONSTANT y : z dup ; 7 dup".to_string());
    assert_eq!(
        ast,
        Node::ForthProgram {
            forms: vec![
                Node::VarDecl { name: "x".to_string(), is_constant: false, value: None },
                Node::VarDecl { name: "y".to_string(), is_constant: true, value: Some(42) },
                Node::ProcedureDef { name: "z".to_string(), body: vec![word("dup")] },
                Node::IntegerLiteral { value: 7 },
                word("dup"),
            ],
        }
    );
}

#[test]
fn control_flow_opener_is_no_top_level_form() {
    let ast = parse("IF dup THEN".to_string());
    assert_eq!(ast, Node::Unit);
}

#[test]
fn largest_i64_literal_is_a_number() {
    let words = parse_words("9223372036854775807".to_string());
    assert_eq!(words, vec![Node::IntegerLiteral { value: i64::MAX }]);
}

#[test]
fn decimal_run_too_large_for_i64_is_a_word() {
    let words = parse_words("9223372036854775808".to_string());
    assert_eq!(words, vec![word("9223372036854775808")]);
}

#[test]
fn hex_run_too_large_for_i64_is_a_word() {
    let words = parse_words("0x8000000000000000".to_string());
    assert_eq!(words, vec![word("0x8000000000000000")]);
}

#[test]
fn unterminated_comment_is_an_error() {
    let ast = parse("( never closed".to_string());
    assert_eq!(ast, Node::Unit);
    let err = try_parse("( never closed").unwrap_err();
    assert_eq!(err.kind, ErrorKind::UnterminatedConstruct);
    assert_eq!(err.pos, 0); // the character position of the opening parenthesis
}

#[test]
fn unterminated_comment_does_not_swallow_following_code() {
    assert_eq!(parse("( x\ndup".to_string()), Node::Unit);
    assert_eq!(parse_words("( x\ndup".to_string()), Vec::<Node>::new());
}

#[test]
fn parenthesis_glued_to_text_is_a_word() {
    let words = parse_words("(x".to_string());
    assert_eq!(words, vec![word("(x")]);
}

#[test]
fn constant_inside_a_body_is_a_word_call() {
    let ast = parse_definition(": odd CONSTANT dup ;".to_string());
    assert_eq!(
        ast,
        Node::ProcedureDef { name: "odd".to_string(), body: vec![word("CONSTANT"), word("dup")] }
    );
}

#[test]
fn definition_with_trailing_input_degrades_to_unit() {
    let ast = parse_definition("VARIABLE x dup".to_string());
    assert_eq!(ast, Node::Unit);
}

#[test]
fn stray_semicolon_is_an_error() {
    let err = try_parse_definition("; x").unwrap_err();
    assert_eq!(err.kind, ErrorKind::UnexpectedToken);
    assert_eq!(err.pos, 0);
}

#[test]
fn nested_control_flow() {
    let ast = parse_definition(": f BEGIN dup IF 1 THEN UNTIL ;".to_string());
    assert_eq!(
        ast,
        Node::ProcedureDef {
            name: "f".to_string(),
            body: vec![Node::PostTestLoop {
                body: vec![
                    word("dup"),
                    Node::Conditional {
                        consequent: vec![Node::IntegerLiteral { value: 1 }],
                        alternate: None,
                    },
                ],
            }],
        }
    );
}
