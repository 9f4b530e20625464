use monkey::ast::Expr;
use monkey::ast::Literal;
use monkey::ast::Stmt;
use monkey::evaluator::Evaluator;
use monkey::lexer::Lexer;
use monkey::object::Object;
use monkey::parser::Parser;

fn eval(input: &str) -> Object {
    Evaluator::new().eval(Parser::new(Lexer::new(input)).parse())
}

#[test]
fn test_integer_expr() {
    let tests = vec![("5", Object::Int(5)), ("10", Object::Int(10))];

    for (input, expect) in tests {
        assert_eq!(expect, eval(input));
    }
}

#[test]
fn test_boolean_expr() {
    let tests = vec![("true", Object::Bool(true)), ("false", Object::Bool(false))];

    for (input, expect) in tests {
        assert_eq!(expect, eval(input));
    }
}

#[test]
fn product_binds_tighter_than_sum() {
    assert_eq!(Object::Int(7), eval("1 + 2 * 3"));
    assert_eq!(Object::Int(9), eval("(1 + 2) * 3"));
}

#[test]
fn arithmetic_and_comparisons() {
    assert_eq!(Object::Int(3), eval("10 - 7"));
    assert_eq!(Object::Int(5), eval("10 / 2"));
    assert_eq!(Object::Int(-3), eval("-3"));
    assert_eq!(Object::Int(4), eval("-3 + 7"));
    assert_eq!(Object::Bool(true), eval("1 < 2"));
    assert_eq!(Object::Bool(false), eval("1 > 2"));
    assert_eq!(Object::Bool(true), eval("2 == 2"));
    assert_eq!(Object::Bool(true), eval("2 != 3"));
    assert_eq!(Object::Bool(false), eval("!true"));
    assert_eq!(Object::Bool(true), eval("true == true"));
}

#[test]
fn let_binds_and_identifiers_resolve() {
    assert_eq!(Object::Int(5), eval("let a = 5; a;"));
    assert_eq!(Object::Int(25), eval("let a = 5; let b = a * a; b;"));
}

#[test]
fn closures_keep_their_environment() {
    let input = "let newAdder = fn(x) { fn(y) { x + y } }; \
                 let addTwo = newAdder(2); \
                 addTwo(3);";
    assert_eq!(Object::Int(5), eval(input));
}

#[test]
fn return_short_circuits_a_function_body() {
    assert_eq!(Object::Int(10), eval("fn() { return 10; 42; }()"));
}

#[test]
fn if_expressions_follow_the_condition() {
    assert_eq!(Object::Int(10), eval("if (true) { 10 }"));
    assert_eq!(Object::Null, eval("if (false) { 10 }"));
    assert_eq!(Object::Int(20), eval("if (false) { 10 } else { 20 }"));
    assert_eq!(Object::Int(10), eval("if (1 < 2) { 10 } else { 20 }"));
    // The documented policy: a non-boolean condition is a runtime error.
    assert_eq!(
        Object::Error(String::from("type mismatch: condition is not a boolean")),
        eval("if (1) { 10 }")
    );
}

#[test]
fn unbound_identifier_is_an_error() {
    assert_eq!(
        Object::Error(String::from("identifier not found: foobar")),
        eval("foobar + 1")
    );
}

#[test]
fn errors_propagate_through_enclosing_expressions() {
    let expect = Object::Error(String::from("identifier not found: foobar"));
    assert_eq!(expect, eval("(foobar + 1) * 2"));
    assert_eq!(expect, eval("1 + (foobar + 1)"));
    assert_eq!(expect, eval("-(foobar + 1)"));
    assert_eq!(expect, eval("!(foobar + 1)"));
    assert_eq!(expect, eval("if (foobar + 1) { 10 }"));
    assert_eq!(expect, eval("fn(x) { x }(foobar + 1)"));
    assert_eq!(expect, eval("let x = foobar + 1; 99;"));
    assert_eq!(expect, eval("fn() { return foobar + 1; 42; }()"));
}

#[test]
fn runtime_error_variants() {
    assert_eq!(
        Object::Error(String::from("division by zero")),
        eval("1 / 0")
    );
    assert_eq!(
        Object::Error(String::from("integer overflow")),
        eval("9223372036854775807 + 1")
    );
    assert_eq!(
        Object::Error(String::from("integer overflow")),
        eval("-9223372036854775807 - 2")
    );
    assert_eq!(
        Object::Error(String::from("type mismatch")),
        eval("1 + true")
    );
    assert_eq!(
        Object::Error(String::from("unknown operator")),
        eval("true + false")
    );
    assert_eq!(
        Object::Error(String::from("unknown operator: -")),
        eval("-true")
    );
    assert_eq!(
        Object::Error(String::from("unknown operator: !")),
        eval("!5")
    );
    assert_eq!(
        Object::Error(String::from("not a function")),
        eval("5(1)")
    );
    assert_eq!(
        Object::Error(String::from("wrong number of arguments")),
        eval("fn(x) { x }(1, 2)")
    );
}

#[test]
fn builtin_len_checks_its_argument() {
    assert_eq!(Object::Error(String::from("type mismatch")), eval("len(5)"));
    assert_eq!(
        Object::Error(String::from("wrong number of arguments")),
        eval("len(1, 2)")
    );
}

#[test]
fn divergent_recursion_reports_an_error() {
    // A function that calls itself forever exhausts the call-depth guard
    // instead of the native stack.
    let input = "let f = fn(x) { f(x) }; f(1)";
    assert_eq!(
        Object::Error(String::from("recursion limit reached")),
        eval(input)
    );
}

#[test]
fn bindings_persist_across_programs() {
    let mut evaluator = Evaluator::new();
    let first = Parser::new(Lexer::new("let a = 7;")).parse();
    evaluator.eval(first);
    let second = Parser::new(Lexer::new("a * 3")).parse();
    assert_eq!(Object::Int(21), evaluator.eval(second));
}

#[test]
fn arrays_and_index_evaluate_on_constructed_trees() {
    // The token set has no bracket tokens, so array and index nodes are
    // built directly.
    let program: Vec<Stmt> = vec![Stmt::Expr(Expr::Index(
        Box::new(Expr::Array(vec![
            Expr::Literal(Literal::Int(4)),
            Expr::Literal(Literal::Int(5)),
            Expr::Literal(Literal::Int(6)),
        ])),
        Box::new(Expr::Literal(Literal::Int(1))),
    ))];
    assert_eq!(Object::Int(5), Evaluator::new().eval(program));

    let out_of_bounds: Vec<Stmt> = vec![Stmt::Expr(Expr::Index(
        Box::new(Expr::Array(vec![Expr::Literal(Literal::Int(4))])),
        Box::new(Expr::Literal(Literal::Int(9))),
    ))];
    assert_eq!(Object::Null, Evaluator::new().eval(out_of_bounds));
}

#[test]
fn builtin_len_counts_array_elements() {
    // Arrays have no source syntax, so the call is built directly: len([4, 5, 6]).
    let program: Vec<Stmt> = vec![Stmt::Expr(Expr::Call {
        func: Box::new(Expr::Ident(monkey::ast::Ident(String::from("len")))),
        args: vec![Expr::Array(vec![
            Expr::Literal(Literal::Int(4)),
            Expr::Literal(Literal::Int(5)),
            Expr::Literal(Literal::Int(6)),
        ])],
    })];
    assert_eq!(Object::Int(3), Evaluator::new().eval(program));
}

#[test]
fn the_root_environment_binds_the_builtins() {
    assert_eq!("[builtin function]", eval("len").render());
}
