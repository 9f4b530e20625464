use monkey::ast::Expr;
use monkey::ast::Ident;
use monkey::ast::Infix;
use monkey::ast::Literal;
use monkey::ast::Stmt;
use monkey::lexer::Lexer;
use monkey::parser::ParseErrorKind;
use monkey::parser::Parser;

fn check_parse_errors(parser: &mut Parser) {
    let errors = parser.get_errors();

    if errors.len() == 0 {
        return;
    }

    println!("\n");

    println!("parser has {} errors", errors.len());

    for err in errors {
        println!("parse error: {:?}", err);
    }

    println!("\n");

    panic!("failed");
}

#[test]
fn test_let_stmt() {
    let input = r#"
        let x = 5;
        let y = 10;
        let foobar = 838383;
                "#;

    let mut parser = Parser::new(Lexer::new(input));
    let program = parser.parse();

    check_parse_errors(&mut parser);

    let tests = vec![
        Stmt::Let(Ident(String::from("x")), Expr::Literal(Literal::Int(5))),
        Stmt::Let(Ident(String::from("y")), Expr::Literal(Literal::Int(10))),
        Stmt::Let(
            Ident(String::from("foobar")),
            Expr::Literal(Literal::Int(838383)),
        ),
    ];

    assert_eq!(tests.len(), program.len());

    for (i, expect) in tests.into_iter().enumerate() {
        assert_eq!(expect, program[i]);
    }
}

#[test]
fn test_return_stmt() {
    let input = r#"
return 5;
return 10;
return 993322;
        "#;

    let mut parser = Parser::new(Lexer::new(input));
    let program = parser.parse();

    check_parse_errors(&mut parser);

    let tests = vec![
        Stmt::Return(Expr::Literal(Literal::Int(5))),
        Stmt::Return(Expr::Literal(Literal::Int(10))),
        Stmt::Return(Expr::Literal(Literal::Int(993322))),
    ];

    assert_eq!(tests.len(), program.len());
    for (i, expect) in tests.into_iter().enumerate() {
        assert_eq!(expect, program[i]);
    }
}

#[test]
fn test_ident_expr() {
    let input = "foobar;";

    let mut parser = Parser::new(Lexer::new(input));
    let program = parser.parse();

    check_parse_errors(&mut parser);

    assert_eq!(1, program.len());

    assert_eq!(
        Stmt::Expr(Expr::Ident(Ident(String::from("foobar")))),
        program[0]
    );
}

#[test]
fn test_integer_literal_expr() {
    let input = "5;";

    let mut parser = Parser::new(Lexer::new(input));
    let program = parser.parse();

    check_parse_errors(&mut parser);

    assert_eq!(1, program.len());

    assert_eq!(Stmt::Expr(Expr::Literal(Literal::Int(5))), program[0],);
}

#[test]
fn precedence_shapes_the_tree() {
    let mut parser = Parser::new(Lexer::new("1 + 2 * 3;"));
    let program = parser.parse();
    check_parse_errors(&mut parser);

    assert_eq!(1, program.len());
    assert_eq!(
        Stmt::Expr(Expr::Infix(
            Infix::Plus,
            Box::new(Expr::Literal(Literal::Int(1))),
            Box::new(Expr::Infix(
                Infix::Multiply,
                Box::new(Expr::Literal(Literal::Int(2))),
                Box::new(Expr::Literal(Literal::Int(3))),
            )),
        )),
        program[0]
    );
}

#[test]
fn same_precedence_is_left_associative() {
    let mut parser = Parser::new(Lexer::new("1 - 2 - 3"));
    let program = parser.parse();
    check_parse_errors(&mut parser);

    assert_eq!(1, program.len());
    assert_eq!(
        Stmt::Expr(Expr::Infix(
            Infix::Minus,
            Box::new(Expr::Infix(
                Infix::Minus,
                Box::new(Expr::Literal(Literal::Int(1))),
                Box::new(Expr::Literal(Literal::Int(2))),
            )),
            Box::new(Expr::Literal(Literal::Int(3))),
        )),
        program[0]
    );
}

#[test]
fn grouping_overrides_precedence() {
    let mut parser = Parser::new(Lexer::new("(1 + 2) * 3"));
    let program = parser.parse();
    check_parse_errors(&mut parser);

    assert_eq!(1, program.len());
    assert_eq!(
        Stmt::Expr(Expr::Infix(
            Infix::Multiply,
            Box::new(Expr::Infix(
                Infix::Plus,
                Box::new(Expr::Literal(Literal::Int(1))),
                Box::new(Expr::Literal(Literal::Int(2))),
            )),
            Box::new(Expr::Literal(Literal::Int(3))),
        )),
        program[0]
    );
}

#[test]
fn function_literal_and_call_parse() {
    let mut parser = Parser::new(Lexer::new("fn(x, y) { x + y; }(2, 3)"));
    let program = parser.parse();
    check_parse_errors(&mut parser);

    assert_eq!(1, program.len());
    match &program[0] {
        Stmt::Expr(Expr::Call { func, args }) => {
            match &**func {
                Expr::Func { params, body } => {
                    assert_eq!(2, params.len());
                    assert_eq!(Ident(String::from("x")), params[0]);
                    assert_eq!(Ident(String::from("y")), params[1]);
                    assert_eq!(1, body.len());
                }
                other => panic!("expected a function literal, got {:?}", other),
            }
            assert_eq!(2, args.len());
            assert_eq!(Expr::Literal(Literal::Int(2)), args[0]);
            assert_eq!(Expr::Literal(Literal::Int(3)), args[1]);
        }
        other => panic!("expected a call, got {:?}", other),
    }
}

#[test]
fn missing_assign_records_an_error() {
    let mut parser = Parser::new(Lexer::new("let x 5;"));
    let program = parser.parse();
    let errors = parser.get_errors();

    assert_eq!(1, errors.len());
    assert!(matches!(errors[0].kind(), ParseErrorKind::UnexpectedToken));
    assert_eq!(
        "expected next token to be =, got integer literal instead",
        errors[0].message()
    );
    // The malformed statement is skipped; the rest of the input still parses.
    assert_eq!(vec![Stmt::Expr(Expr::Literal(Literal::Int(5)))], program);
}

#[test]
fn one_bad_statement_does_not_stop_parsing() {
    let mut parser = Parser::new(Lexer::new("let = 1; let y = 2;"));
    let program = parser.parse();
    let errors = parser.get_errors();

    assert!(errors.len() >= 1);
    // The `=` is skipped with an error, `1` still parses as an expression
    // statement, and the second let-statement is intact.
    assert_eq!(
        vec![
            Stmt::Expr(Expr::Literal(Literal::Int(1))),
            Stmt::Let(Ident(String::from("y")), Expr::Literal(Literal::Int(2))),
        ],
        program
    );
}
