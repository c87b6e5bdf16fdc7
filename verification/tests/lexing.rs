use minton::lexer::{Lexer, Token};

fn all_tokens(src: &str) -> Vec<Token> {
    let mut lexer = Lexer::new(src);
    let mut out = Vec::new();
    loop {
        let t = lexer.next_token();
        let done = t == Token::EOF;
        out.push(t);
        if done {
            break;
        }
    }
    out
}

#[test]
fn lexes_the_example_program() {
    let tokens = all_tokens("(2+3)*4 | print;");
    assert_eq!(
        tokens,
        vec![
            Token::Lparen,
            Token::Int(2),
            Token::Plus,
            Token::Int(3),
            Token::Rparen,
            Token::Asterisk,
            Token::Int(4),
            Token::Pipe,
            Token::Identifier("print".to_string()),
            Token::Semicolon,
            Token::EOF,
        ]
    );
}

#[test]
fn lexes_every_single_character_token() {
    let tokens = all_tokens("| ; + - * / ( )");
    assert_eq!(
        tokens,
        vec![
            Token::Pipe,
            Token::Semicolon,
            Token::Plus,
            Token::Minus,
            Token::Asterisk,
            Token::Slash,
            Token::Lparen,
            Token::Rparen,
            Token::EOF,
        ]
    );
}

#[test]
fn eof_is_idempotent_at_end() {
    let mut lexer = Lexer::new("5");
    assert_eq!(lexer.next_token(), Token::Int(5));
    assert_eq!(lexer.next_token(), Token::EOF);
    assert_eq!(lexer.next_token(), Token::EOF);
    assert_eq!(lexer.next_token(), Token::EOF);
}

#[test]
fn string_literal_is_captured_verbatim() {
    let tokens = all_tokens("\"a\\nb and c\"");
    assert_eq!(
        tokens,
        vec![Token::String("a\\nb and c".to_string()), Token::EOF]
    );
}

#[test]
fn unterminated_string_consumes_to_end() {
    let tokens = all_tokens("\"abc | print;");
    assert_eq!(
        tokens,
        vec![Token::String("abc | print;".to_string()), Token::EOF]
    );
}

#[test]
fn identifier_continues_with_digits() {
    let tokens = all_tokens("ab1 cd");
    assert_eq!(
        tokens,
        vec![
            Token::Identifier("ab1".to_string()),
            Token::Identifier("cd".to_string()),
            Token::EOF,
        ]
    );
}

#[test]
fn numeric_overflow_becomes_zero() {
    let tokens = all_tokens("99999999999999999999");
    assert_eq!(tokens, vec![Token::Int(0), Token::EOF]);
}

#[test]
fn largest_i64_literal_survives() {
    let tokens = all_tokens("9223372036854775807");
    assert_eq!(tokens, vec![Token::Int(9223372036854775807), Token::EOF]);
}

#[test]
fn unknown_character_is_swallowed_as_eof() {
    let tokens = all_tokens("2 @ 3");
    assert_eq!(tokens, vec![Token::Int(2), Token::EOF]);
}

#[test]
fn whitespace_of_any_kind_is_skipped() {
    let tokens = all_tokens(" \t\n 7 \u{00A0} 8");
    assert_eq!(tokens, vec![Token::Int(7), Token::Int(8), Token::EOF]);
}
