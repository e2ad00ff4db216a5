use monkey::lexer::Lexer;
use monkey::token::{Token, TokenKind};

fn scan_all(input: &str) -> Vec<Token> {
    let mut lexer = Lexer::new(input.to_string());
    let mut tokens = Vec::new();
    loop {
        let token = lexer.next_token();
        let done = token == Token::EndOfInput;
        tokens.push(token);
        if done {
            return tokens;
        }
        assert!(tokens.len() <= input.len() + 1, "scan did not end");
    }
}

fn ident(s: &str) -> Token {
    Token::Identifier(s.to_string())
}

fn integer(s: &str) -> Token {
    Token::Integer(s.to_string())
}

#[test]
fn let_statement() {
    assert_eq!(
        scan_all("let five = 5;"),
        vec![Token::Let, ident("five"), Token::Assign, integer("5"), Token::Semicolon, Token::EndOfInput]
    );
}

#[test]
fn equality_expression() {
    assert_eq!(
        scan_all("10 == 10;"),
        vec![integer("10"), Token::Eq, integer("10"), Token::Semicolon, Token::EndOfInput]
    );
}

#[test]
fn illegal_byte() {
    assert_eq!(scan_all("@"), vec![Token::Illegal("@".to_string()), Token::EndOfInput]);
}

#[test]
fn empty_input() {
    assert_eq!(scan_all(""), vec![Token::EndOfInput]);
}

#[test]
fn whitespace_only_input() {
    assert_eq!(scan_all(" \t\r\n  "), vec![Token::EndOfInput]);
}

#[test]
fn identifier_at_end_of_input() {
    assert_eq!(scan_all("abc"), vec![ident("abc"), Token::EndOfInput]);
}

#[test]
fn integer_at_end_of_input() {
    assert_eq!(scan_all("x = 12345"), vec![ident("x"), Token::Assign, integer("12345"), Token::EndOfInput]);
}

#[test]
fn keywords() {
    let cases = [
        ("let", Token::Let),
        ("fn", Token::Function),
        ("true", Token::True),
        ("false", Token::False),
        ("if", Token::If),
        ("else", Token::Else),
        ("return", Token::Return),
    ];
    for (text, kind) in cases {
        assert_eq!(scan_all(text), vec![kind, Token::EndOfInput], "{}", text);
    }
}

#[test]
fn keyword_affixes_are_identifiers() {
    assert_eq!(scan_all("letx"), vec![ident("letx"), Token::EndOfInput]);
    assert_eq!(scan_all("xlet"), vec![ident("xlet"), Token::EndOfInput]);
    assert_eq!(scan_all("Let"), vec![ident("Let"), Token::EndOfInput]);
    assert_eq!(scan_all("fn_1"), vec![ident("fn_1"), Token::EndOfInput]);
}

#[test]
fn two_character_operators() {
    assert_eq!(scan_all("=="), vec![Token::Eq, Token::EndOfInput]);
    assert_eq!(scan_all("!="), vec![Token::NotEq, Token::EndOfInput]);
    assert_eq!(scan_all("="), vec![Token::Assign, Token::EndOfInput]);
    assert_eq!(scan_all("!"), vec![Token::Bang, Token::EndOfInput]);
    assert_eq!(scan_all("==="), vec![Token::Eq, Token::Assign, Token::EndOfInput]);
    assert_eq!(scan_all("!!="), vec![Token::Bang, Token::NotEq, Token::EndOfInput]);
    assert_eq!(scan_all("= ="), vec![Token::Assign, Token::Assign, Token::EndOfInput]);
}

#[test]
fn single_character_symbols() {
    assert_eq!(
        scan_all("<>+-*/,;(){}"),
        vec![
            Token::Lt,
            Token::Gt,
            Token::Plus,
            Token::Minus,
            Token::Asterisk,
            Token::Slash,
            Token::Comma,
            Token::Semicolon,
            Token::Lparen,
            Token::Rparen,
            Token::Lbrace,
            Token::Rbrace,
            Token::EndOfInput,
        ]
    );
}

#[test]
fn end_of_input_repeats() {
    let mut lexer = Lexer::new("x  ".to_string());
    assert_eq!(lexer.next_token(), ident("x"));
    for _ in 0..5 {
        assert_eq!(lexer.next_token(), Token::EndOfInput);
    }
}

#[test]
fn negative_number_is_minus_then_integer() {
    assert_eq!(scan_all("-7"), vec![Token::Minus, integer("7"), Token::EndOfInput]);
}

#[test]
fn digits_then_letters_split() {
    assert_eq!(scan_all("12ab"), vec![integer("12"), ident("ab"), Token::EndOfInput]);
}

#[test]
fn whitespace_collapses() {
    assert_eq!(
        scan_all("  a\t\t+\n\r\n  b  "),
        vec![ident("a"), Token::Plus, ident("b"), Token::EndOfInput]
    );
}

#[test]
fn illegal_bytes_make_progress() {
    assert_eq!(
        scan_all("a#$b"),
        vec![ident("a"), Token::Illegal("#".to_string()), Token::Illegal("$".to_string()), ident("b"), Token::EndOfInput]
    );
    assert_eq!(scan_all("\0"), vec![Token::Illegal("\0".to_string()), Token::EndOfInput]);
}

#[test]
fn non_ascii_bytes_are_illegal_one_by_one() {
    assert_eq!(
        scan_all("\u{e9}"),
        vec![Token::Illegal("\u{c3}".to_string()), Token::Illegal("\u{a9}".to_string()), Token::EndOfInput]
    );
}

#[test]
fn token_texts_spell_input_without_whitespace() {
    let input = "let add = fn(x, y) {\n  x + y;\n};\nif (5 < 10) { return true; } else { return !false; }\n10 != 9;";
    let spelled: String = scan_all(input).iter().map(|t| t.to_string()).collect();
    let expected: String = input.chars().filter(|c| !matches!(c, ' ' | '\t' | '\n' | '\r')).collect();
    assert_eq!(spelled, expected);
}

#[test]
fn rendering() {
    assert_eq!(Token::Eq.to_string(), "==");
    assert_eq!(Token::NotEq.to_string(), "!=");
    assert_eq!(Token::Lbrace.to_string(), "{");
    assert_eq!(Token::Rbrace.to_string(), "}");
    assert_eq!(Token::Function.to_string(), "fn");
    assert_eq!(Token::EndOfInput.to_string(), "");
    assert_eq!(ident("five").to_string(), "five");
    assert_eq!(integer("42").to_string(), "42");
    assert_eq!(Token::Illegal("@".to_string()).to_string(), "@");
}

#[test]
fn render_of_scan_is_identity() {
    for text in ["let", "fn", "==", "!=", "=", "!", "<", "}", "abc_1", "007", "@"] {
        let mut lexer = Lexer::new(text.to_string());
        assert_eq!(lexer.next_token().to_string(), text);
    }
}

#[test]
fn token_kinds() {
    assert_eq!(ident("a").kind(), TokenKind::Identifier);
    assert_eq!(integer("1").kind(), TokenKind::Integer);
    assert_eq!(Token::Illegal("@".to_string()).kind(), TokenKind::Illegal);
    assert_eq!(Token::EndOfInput.kind(), TokenKind::EndOfInput);
    assert_eq!(Token::Let.kind(), TokenKind::Let);
    assert_eq!(Token::Eq.kind(), TokenKind::Eq);
}
