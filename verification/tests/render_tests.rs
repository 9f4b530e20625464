use monkey::ast::Ident;
use monkey::evaluator::Evaluator;
use monkey::lexer::Lexer;
use monkey::object::Builtin;
use monkey::object::Object;
use monkey::parser::Parser;

fn eval(input: &str) -> Object {
    Evaluator::new().eval(Parser::new(Lexer::new(input)).parse())
}

#[test]
fn scalars_render_as_their_literal_text() {
    assert_eq!("5", Object::Int(5).render());
    assert_eq!("-42", Object::Int(-42).render());
    assert_eq!("0", Object::Int(0).render());
    assert_eq!("9223372036854775807", Object::Int(i64::MAX).render());
    assert_eq!("-9223372036854775808", Object::Int(i64::MIN).render());
    assert_eq!("true", Object::Bool(true).render());
    assert_eq!("false", Object::Bool(false).render());
    assert_eq!("null", Object::Null.render());
}

#[test]
fn strings_render_unquoted_and_errors_render_their_message() {
    assert_eq!("hello", Object::Str(String::from("hello")).render());
    assert_eq!("boom", Object::Error(String::from("boom")).render());
}

#[test]
fn arrays_render_comma_space_separated() {
    let arr = Object::Array(vec![
        Object::Int(1),
        Object::Int(2),
        Object::Bool(true),
    ]);
    assert_eq!("[1, 2, true]", arr.render());
    assert_eq!("[]", Object::Array(vec![]).render());
}

#[test]
fn functions_render_their_parameter_names_with_no_separator() {
    let f = Object::Func(
        vec![Ident(String::from("x")), Ident(String::from("y"))],
        vec![],
        0,
    );
    assert_eq!("fn(xy) { ... }", f.render());
}

#[test]
fn builtins_render_as_fixed_text() {
    assert_eq!("[builtin function]", Object::Builtin(Builtin::Len).render());
}

#[test]
fn return_value_renders_as_its_inner_value() {
    let v = Object::ReturnValue(Box::new(Object::Int(9)));
    assert_eq!("9", v.render());
}

#[test]
fn rendered_literals_reparse_to_equal_values() {
    let cases = vec!["5", "true", "false", "-7", "0", "123456789"];
    for input in cases {
        let first = eval(input);
        let text = first.render();
        let second = eval(&text);
        assert_eq!(first, second);
    }
}
