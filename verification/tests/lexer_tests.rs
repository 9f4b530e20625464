use monkey::lexer::Lexer;
use monkey::token::Token;

#[test]
fn test_next_token() {
    let input = r#"let five = 5;
let ten = 10;
let add = fn(x, y) {
  x + y;
};
let result = add(five, ten);
!-/*5;
5 < 10 > 5;
if (5 < 10) {
  return true;
} else {
  return false;
}
10 == 10;
10 != 9;
"#;

    let tests = vec![
        Token::Let,
        Token::Ident(String::from("five")),
        Token::Assign,
        Token::Int(5),
        Token::Semicolon,
        Token::Let,
        Token::Ident(String::from("ten")),
        Token::Assign,
        Token::Int(10),
        Token::Semicolon,
        Token::Let,
        Token::Ident(String::from("add")),
        Token::Assign,
        Token::Function,
        Token::Lparen,
        Token::Ident(String::from("x")),
        Token::Comma,
        Token::Ident(String::from("y")),
        Token::Rparen,
        Token::Lbrace,
        Token::Ident(String::from("x")),
        Token::Plus,
        Token::Ident(String::from("y")),
        Token::Semicolon,
        Token::Rbrace,
        Token::Semicolon,
        Token::Let,
        Token::Ident(String::from("result")),
        Token::Assign,
        Token::Ident(String::from("add")),
        Token::Lparen,
        Token::Ident(String::from("five")),
        Token::Comma,
        Token::Ident(String::from("ten")),
        Token::Rparen,
        Token::Semicolon,
        Token::Bang,
        Token::Minus,
        Token::Slash,
        Token::Asterisk,
        Token::Int(5),
        Token::Semicolon,
        Token::Int(5),
        Token::LessThan,
        Token::Int(10),
        Token::GreaterThan,
        Token::Int(5),
        Token::Semicolon,
        Token::If,
        Token::Lparen,
        Token::Int(5),
        Token::LessThan,
        Token::Int(10),
        Token::Rparen,
        Token::Lbrace,
        Token::Return,
        Token::Bool(true),
        Token::Semicolon,
        Token::Rbrace,
        Token::Else,
        Token::Lbrace,
        Token::Return,
        Token::Bool(false),
        Token::Semicolon,
        Token::Rbrace,
        Token::Int(10),
        Token::Equal,
        Token::Int(10),
        Token::Semicolon,
        Token::Int(10),
        Token::NotEqual,
        Token::Int(9),
        Token::Semicolon,
        Token::Eof,
    ];

    let mut lexer = Lexer::new(input);

    for expect in tests {
        let tok = lexer.next_token();

        assert_eq!(expect, tok);
    }
}

#[test]
fn empty_input_is_eof_forever() {
    let mut lexer = Lexer::new("");
    assert_eq!(Token::Eof, lexer.next_token());
    assert_eq!(Token::Eof, lexer.next_token());
    assert_eq!(Token::Eof, lexer.next_token());
}

#[test]
fn whitespace_only_is_eof() {
    let mut lexer = Lexer::new("  \t\r\n  ");
    assert_eq!(Token::Eof, lexer.next_token());
}

#[test]
fn unknown_character_is_illegal() {
    let mut lexer = Lexer::new("@");
    assert_eq!(Token::Illegal, lexer.next_token());
    assert_eq!(Token::Eof, lexer.next_token());
}

#[test]
fn oversized_integer_literal_is_illegal() {
    // One past the largest 64-bit signed integer.
    let mut lexer = Lexer::new("9223372036854775808");
    assert_eq!(Token::Illegal, lexer.next_token());
    assert_eq!(Token::Eof, lexer.next_token());
}

#[test]
fn largest_integer_literal_lexes() {
    let mut lexer = Lexer::new("9223372036854775807");
    assert_eq!(Token::Int(i64::MAX), lexer.next_token());
    assert_eq!(Token::Eof, lexer.next_token());
}

#[test]
fn underscore_starts_an_identifier() {
    let mut lexer = Lexer::new("_foo");
    assert_eq!(Token::Ident(String::from("_foo")), lexer.next_token());
}
