use treewalk::enums::Token;
use treewalk::scanner::{scanner, LexError, Scanner};

fn ident(s: &str) -> Token {
    Token::IDENT(s.to_string())
}

#[test]
fn scans_every_punctuation_mark() {
    assert_eq!(
        scanner("+ - * / < > = ( ) { } , ;"),
        Ok(vec![
            Token::PLUS,
            Token::MINUS,
            Token::STAR,
            Token::SLASH,
            Token::LT,
            Token::GT,
            Token::EQ,
            Token::LPAR,
            Token::RPAR,
            Token::LBRACE,
            Token::RBRACE,
            Token::COMMA,
            Token::SEMICOLON,
        ])
    );
}

#[test]
fn scans_without_spaces_between_tokens() {
    assert_eq!(
        scanner("x=1+23*(y)"),
        Ok(vec![
            ident("x"),
            Token::EQ,
            Token::NUMBER(1),
            Token::PLUS,
            Token::NUMBER(23),
            Token::STAR,
            Token::LPAR,
            ident("y"),
            Token::RPAR,
        ])
    );
}

#[test]
fn scans_keywords_and_identifiers() {
    assert_eq!(
        scanner("if else fn return iff fn_1 Return x_y9"),
        Ok(vec![
            Token::IF,
            Token::ELSE,
            Token::FN,
            Token::RETURN,
            ident("iff"),
            ident("fn_1"),
            ident("Return"),
            ident("x_y9"),
        ])
    );
}

#[test]
fn scans_a_number_followed_by_letters_as_two_tokens() {
    assert_eq!(scanner("12ab"), Ok(vec![Token::NUMBER(12), ident("ab")]));
}

#[test]
fn scans_text_literals_without_escapes() {
    assert_eq!(
        scanner("\"a b\\n\" \"\""),
        Ok(vec![Token::STR("a b\\n".to_string()), Token::STR(String::new())])
    );
}

#[test]
fn scans_text_literals_with_characters_outside_ascii() {
    assert_eq!(scanner("\"héllo→\""), Ok(vec![Token::STR("héllo→".to_string())]));
}

#[test]
fn scans_the_empty_text_and_spaces_to_nothing() {
    assert_eq!(scanner(""), Ok(vec![]));
    assert_eq!(scanner("    "), Ok(vec![]));
}

#[test]
fn scans_the_largest_number() {
    assert_eq!(scanner("2147483647"), Ok(vec![Token::NUMBER(2147483647)]));
    assert_eq!(scanner("0000000000000000000012"), Ok(vec![Token::NUMBER(12)]));
    assert_eq!(scanner("0"), Ok(vec![Token::NUMBER(0)]));
}

#[test]
fn minus_is_a_token_of_its_own() {
    assert_eq!(scanner("-1"), Ok(vec![Token::MINUS, Token::NUMBER(1)]));
}

#[test]
fn rejects_a_number_that_is_too_large() {
    assert_eq!(scanner("x = 2147483648"), Err(LexError::NumberTooLarge { position: 4 }));
    assert_eq!(
        scanner("99999999999999999999999999999999"),
        Err(LexError::NumberTooLarge { position: 0 })
    );
}

#[test]
fn rejects_an_unknown_character() {
    assert_eq!(
        scanner("x = 1 # 2"),
        Err(LexError::UnexpectedChar { position: 6, character: '#' })
    );
    assert_eq!(scanner("\t"), Err(LexError::UnexpectedChar { position: 0, character: '\t' }));
    assert_eq!(scanner("a\nb"), Err(LexError::UnexpectedChar { position: 1, character: '\n' }));
    assert_eq!(scanner("_a"), Err(LexError::UnexpectedChar { position: 0, character: '_' }));
}

#[test]
fn counts_positions_in_characters() {
    assert_eq!(
        scanner("\"é\" ?"),
        Err(LexError::UnexpectedChar { position: 4, character: '?' })
    );
}

#[test]
fn rejects_an_unterminated_text_literal() {
    assert_eq!(scanner("x = \"abc"), Err(LexError::UnterminatedString { position: 4 }));
    assert_eq!(scanner("\""), Err(LexError::UnterminatedString { position: 0 }));
}

#[test]
fn scanner_yields_tokens_one_at_a_time() {
    let mut s = Scanner::new("a 1");
    assert_eq!(s.next(), Ok(Some(ident("a"))));
    assert_eq!(s.next(), Ok(Some(Token::NUMBER(1))));
    assert_eq!(s.next(), Ok(None));
    assert_eq!(s.next(), Ok(None));
}
