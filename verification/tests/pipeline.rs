use hammer::ast::AstBuilder;
use hammer::ast::Expr;
use hammer::ast::Stmt;
use hammer::compiler::Compiler;
use hammer::errors::CompileError;
use hammer::errors::HammerError;
use hammer::errors::LexError;
use hammer::errors::ParseError;
use hammer::lexer::Lexer;
use hammer::tokens::BIn;
use hammer::tokens::Kw;
use hammer::tokens::TokenType;

fn lex_all(src: &str) -> Result<Vec<hammer::tokens::Token>, LexError> {
    let mut lexer = Lexer::new(String::from("test.hmr"), String::from(src));
    lexer.lex()?;
    Ok(lexer.tokens().clone())
}

fn build(src: &str) -> Result<Vec<u8>, HammerError> {
    let tokens = lex_all(src).map_err(HammerError::Lex)?;
    let mut builder = AstBuilder::new(tokens);
    builder.parse().map_err(HammerError::Parse)?;
    let ast = builder.ast();
    assert!(ast.well_formed());
    let mut compiler = Compiler::new(String::from("test.hmrc")).map_err(HammerError::Compile)?;
    compiler
        .compile(ast.tree, ast.variables)
        .map_err(HammerError::Compile)
}

fn pool_record(x: f64) -> Vec<u8> {
    let mut rec = vec![0x00, 0x08];
    rec.extend_from_slice(&x.to_bits().to_le_bytes());
    rec
}

#[test]
fn lex_simple_expression() {
    let tokens = lex_all("1 + 3;").unwrap();
    assert_eq!(tokens.len(), 5);
    assert_eq!(tokens[0].ttype, TokenType::NumLit(1.0f64.to_bits()));
    assert_eq!(tokens[1].ttype, TokenType::OpPlus);
    assert_eq!(tokens[2].ttype, TokenType::NumLit(3.0f64.to_bits()));
    assert_eq!(tokens[3].ttype, TokenType::Semicolon);
    assert_eq!(tokens[4].ttype, TokenType::Eof);
    assert_eq!(tokens[0].loc.line, 1);
    assert_eq!(tokens[0].loc.col, 1);
    assert_eq!(tokens[1].loc.col, 3);
    assert_eq!(tokens[2].loc.col, 5);
}

#[test]
fn lex_keywords_builtins_idents() {
    let tokens = lex_all("let abs println x1;").unwrap();
    assert_eq!(tokens[0].ttype, TokenType::Keyword(Kw::Let));
    assert_eq!(tokens[1].ttype, TokenType::Builtin(BIn::Abs));
    assert_eq!(tokens[2].ttype, TokenType::Builtin(BIn::Println));
    assert_eq!(tokens[3].ttype, TokenType::Ident(String::from("x1")));
}

#[test]
fn lex_twice_yields_identical_tokens() {
    let src = "let x = 10; // comment\nx = x + 1.5; println(x);";
    let first = lex_all(src).unwrap();
    let second = lex_all(src).unwrap();
    assert_eq!(first, second);
}

#[test]
fn lex_comment_skipped_and_lines_tracked() {
    let tokens = lex_all("// nothing here\n  zz").unwrap();
    assert_eq!(tokens.len(), 2);
    assert_eq!(tokens[0].ttype, TokenType::Ident(String::from("zz")));
    assert_eq!(tokens[0].loc.line, 2);
    assert_eq!(tokens[0].loc.col, 3);
}

#[test]
fn lex_fractional_literal() {
    let tokens = lex_all("0.5;").unwrap();
    assert_eq!(tokens[0].ttype, TokenType::NumLit(0.5f64.to_bits()));
}

#[test]
fn lex_malformed_literal() {
    let err = lex_all("1.2.3;").unwrap_err();
    match err {
        LexError::MalformedNumLit(loc) => {
            assert_eq!(loc.line, 1);
            assert_eq!(loc.col, 1);
        }
        other => panic!("expected MalformedNumLit, got {:?}", other),
    }
}

#[test]
fn lex_unknown_lexeme() {
    let err = lex_all("let x = @;").unwrap_err();
    match err {
        LexError::UnknownLexem(loc) => {
            assert_eq!(loc.line, 1);
            assert_eq!(loc.col, 9);
        }
        other => panic!("expected UnknownLexem, got {:?}", other),
    }
}

#[test]
fn parse_builds_decl_and_variables() {
    let tokens = lex_all("let x = 1;").unwrap();
    let mut builder = AstBuilder::new(tokens);
    builder.parse().unwrap();
    let ast = builder.ast();
    assert_eq!(ast.variables.len(), 1);
    assert_eq!(ast.variables[0].name, "x");
    assert_eq!(ast.tree.len(), 1);
    match &ast.tree[0] {
        Stmt::Decl(var, Some(e)) => {
            assert_eq!(var.name, "x");
            assert!(matches!(**e, Expr::Literal(_)));
        }
        other => panic!("expected a declaration, got {:?}", other),
    }
}

#[test]
fn parse_precedence_is_left_associative() {
    let tokens = lex_all("1 - 2 - 3;").unwrap();
    let mut builder = AstBuilder::new(tokens);
    builder.parse().unwrap();
    let ast = builder.ast();
    match &ast.tree[0] {
        Stmt::Expr(e) => match &**e {
            Expr::Binary(l, op, r) => {
                assert_eq!(op.ttype, TokenType::OpMinus);
                assert!(matches!(**l, Expr::Binary(..)));
                assert!(matches!(**r, Expr::Literal(_)));
            }
            other => panic!("expected a binary node, got {:?}", other),
        },
        other => panic!("expected an expression statement, got {:?}", other),
    }
}

#[test]
fn parse_unknown_variable_fails_at_reference() {
    let tokens = lex_all("println(y);").unwrap();
    let mut builder = AstBuilder::new(tokens);
    let err = builder.parse().unwrap_err();
    match err {
        ParseError::UnknownVariable(loc) => {
            assert_eq!(loc.line, 1);
            assert_eq!(loc.col, 9);
        }
        other => panic!("expected UnknownVariable, got {:?}", other),
    }
}

#[test]
fn parse_reassign_of_undeclared_fails() {
    let tokens = lex_all("y = 1;").unwrap();
    let mut builder = AstBuilder::new(tokens);
    let err = builder.parse().unwrap_err();
    assert!(matches!(err, ParseError::UnknownVariable(_)));
}

#[test]
fn parse_missing_semicolon() {
    let tokens = lex_all("1 + 2").unwrap();
    let mut builder = AstBuilder::new(tokens);
    let err = builder.parse().unwrap_err();
    assert!(matches!(err, ParseError::ExpectedSemi(_)));
}

#[test]
fn parse_unbalanced_parenthesis() {
    let tokens = lex_all("(1;").unwrap();
    let mut builder = AstBuilder::new(tokens);
    let err = builder.parse().unwrap_err();
    assert!(matches!(err, ParseError::UnmatchingBrace(_)));
}

#[test]
fn parse_bare_close_parenthesis() {
    let tokens = lex_all(");").unwrap();
    let mut builder = AstBuilder::new(tokens);
    let err = builder.parse().unwrap_err();
    assert!(matches!(err, ParseError::UnmatchingBrace(_)));
}

#[test]
fn parse_open_parenthesis_at_end_of_input() {
    let tokens = lex_all("(").unwrap();
    let mut builder = AstBuilder::new(tokens);
    let err = builder.parse().unwrap_err();
    assert!(matches!(err, ParseError::UnexpectedEof(_)));
}

#[test]
fn parse_expected_identifier_after_let() {
    let tokens = lex_all("let 5;").unwrap();
    let mut builder = AstBuilder::new(tokens);
    let err = builder.parse().unwrap_err();
    assert!(matches!(err, ParseError::ExpectedIdent(_)));
}

#[test]
fn parse_expected_assignment() {
    let tokens = lex_all("let x; x;").unwrap();
    let mut builder = AstBuilder::new(tokens);
    let err = builder.parse().unwrap_err();
    assert!(matches!(err, ParseError::ExpectedAssign(_)));
}

#[test]
fn parse_expected_parenthesis_after_builtin() {
    let tokens = lex_all("println 5;").unwrap();
    let mut builder = AstBuilder::new(tokens);
    let err = builder.parse().unwrap_err();
    assert!(matches!(err, ParseError::ExpectedParen(_)));
}

#[test]
fn parse_unexpected_token_in_primary() {
    let tokens = lex_all("1 + ;").unwrap();
    let mut builder = AstBuilder::new(tokens);
    let err = builder.parse().unwrap_err();
    assert!(matches!(err, ParseError::UnexpectedToken(_)));
}

#[test]
fn compile_addition_bytecode() {
    let bytes = build("1 + 3;").unwrap();
    let mut expected = vec![
        0x01, 0x00, 0x00, // push const 0
        0x01, 0x01, 0x00, // push const 1
        0x02, // add
        0xff, // end of program
    ];
    expected.extend_from_slice(&pool_record(1.0));
    expected.extend_from_slice(&pool_record(3.0));
    assert_eq!(bytes, expected);
}

#[test]
fn compile_assignments_use_slot_zero() {
    let bytes = build("let x = 10; x = x + 1; println(x);").unwrap();
    let mut expected = vec![
        0x01, 0x00, 0x00, // push const 0 (10)
        0x12, 0x00, 0x00, 0x00, 0x00, // store slot 0
        0x13, 0x00, 0x00, 0x00, 0x00, // load slot 0
        0x01, 0x01, 0x00, // push const 1 (1)
        0x02, // add
        0x12, 0x00, 0x00, 0x00, 0x00, // store slot 0
        0x13, 0x00, 0x00, 0x00, 0x00, // load slot 0
        0x11, 0x00, 0x00, // call builtin println
        0xff,
    ];
    expected.extend_from_slice(&pool_record(10.0));
    expected.extend_from_slice(&pool_record(1.0));
    assert_eq!(bytes, expected);
}

#[test]
fn compile_negation_and_grouping_and_abs() {
    let bytes = build("abs(-(2 * 4));").unwrap();
    let mut expected = vec![
        0x01, 0x00, 0x00, // push 2
        0x01, 0x01, 0x00, // push 4
        0x04, // mul
        0x06, // negate
        0x11, 0x01, 0x00, // call builtin abs
        0xff,
    ];
    expected.extend_from_slice(&pool_record(2.0));
    expected.extend_from_slice(&pool_record(4.0));
    assert_eq!(bytes, expected);
}

#[test]
fn compile_pool_keeps_duplicate_literals_in_source_order() {
    let bytes = build("5 + 5;").unwrap();
    let mut expected = vec![0x01, 0x00, 0x00, 0x01, 0x01, 0x00, 0x02, 0xff];
    expected.extend_from_slice(&pool_record(5.0));
    expected.extend_from_slice(&pool_record(5.0));
    assert_eq!(bytes, expected);
}

#[test]
fn compile_division_by_zero_is_not_a_compile_error() {
    assert!(build("5 / 0;").is_ok());
}

#[test]
fn compile_uninitialized_variable_fails() {
    let tokens = lex_all("let z; println(z);").unwrap();
    let mut builder = AstBuilder::new(tokens);
    builder.parse().unwrap();
    let ast = builder.ast();
    assert!(ast.well_formed());
    let mut compiler = Compiler::new(String::from("test.hmrc")).unwrap();
    let err = compiler.compile(ast.tree, ast.variables).unwrap_err();
    match err {
        CompileError::UninitializedVar(loc) => {
            assert_eq!(loc.line, 1);
            assert_eq!(loc.col, 16);
        }
        other => panic!("expected UninitializedVar, got {:?}", other),
    }
}

#[test]
fn compile_const_table_overflow() {
    let mut src = String::new();
    for _ in 0..65537 {
        src.push_str("1;");
    }
    let err = build(&src).unwrap_err();
    assert!(matches!(
        err,
        HammerError::Compile(CompileError::ConstTableOverflow)
    ));
}

#[test]
fn generated_arithmetic_expression_compiles() {
    // a fully parenthesized arithmetic expression: lexing, parsing and
    // compiling it must produce no error
    let src = "((1 + (2 * (0 - 3))) / (4 - (0 - 5)));";
    assert!(build(src).is_ok());
}

#[test]
fn hand_built_tree_with_unknown_variable_is_rejected_by_the_checker() {
    let tokens = lex_all("let x = 1;").unwrap();
    let mut builder = AstBuilder::new(tokens);
    builder.parse().unwrap();
    let mut ast = builder.ast();
    ast.tree.push(Stmt::Reassign(
        hammer::ast::Variable {
            name: String::from("ghostly"),
        },
        Box::new(Expr::Variable(
            hammer::ast::Variable {
                name: String::from("ghostly"),
            },
            hammer::tokens::Loc::new(String::from("test.hmr"), 0, 0),
        )),
    ));
    assert!(!ast.well_formed());
}
