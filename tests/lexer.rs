use lrjson::lexer::{Lexer, Token};

fn chars(s: &str) -> Vec<char> {
    s.chars().collect()
}

fn all_tokens(s: &str) -> Vec<Token> {
    let mut lexer = Lexer::new(s.to_string());
    let mut out = Vec::new();
    loop {
        let t = lexer.next_token(true).expect("a token");
        let end = t == Token::EOF;
        out.push(t);
        if end {
            return out;
        }
    }
}

#[test]
fn integer_lexes_to_number() {
    let mut lexer = Lexer::new("123".to_string());
    let t = lexer.next_token(true);
    assert_eq!(t, Some(Token::Number(chars("123"))));
    if let Some(Token::Number(d)) = t {
        let text: String = d.iter().collect();
        assert_eq!(text.parse::<f64>().unwrap(), 123.0);
    }
    assert_eq!(lexer.next_token(true), Some(Token::EOF));
}

#[test]
fn fraction_is_not_part_of_a_number() {
    assert_eq!(
        all_tokens("12.5"),
        vec![
            Token::Number(chars("12")),
            Token::LexerError('.'),
            Token::Number(chars("5")),
            Token::EOF
        ]
    );
}

#[test]
fn backslash_keeps_the_next_character() {
    let mut lexer = Lexer::new("\"a\\\"b\"".to_string());
    assert_eq!(lexer.next_token(true), Some(Token::String(chars("a\"b"))));
    assert_eq!(lexer.next_token(true), Some(Token::EOF));
}

#[test]
fn backslash_n_is_not_a_newline() {
    let mut lexer = Lexer::new("\"x\\ny\"".to_string());
    assert_eq!(lexer.next_token(true), Some(Token::String(chars("xny"))));
}

#[test]
fn peek_is_idempotent() {
    let mut lexer = Lexer::new("  {\"k\": 7}".to_string());
    let first = lexer.next_token(false);
    let second = lexer.next_token(false);
    assert_eq!(first, Some(Token::BeginObject));
    assert_eq!(first, second);
    assert_eq!(lexer.next_token(true), first);
    assert_eq!(lexer.next_token(false), Some(Token::String(chars("k"))));
    assert_eq!(lexer.next_token(false), Some(Token::String(chars("k"))));
    assert_eq!(lexer.next_token(true), Some(Token::String(chars("k"))));
    assert_eq!(lexer.next_token(true), Some(Token::NameSeparator));
    assert_eq!(lexer.next_token(false), Some(Token::Number(chars("7"))));
}

#[test]
fn structural_tokens_and_keywords() {
    assert_eq!(
        all_tokens("[ { ] } : , true false null"),
        vec![
            Token::BeginArray,
            Token::BeginObject,
            Token::EndArray,
            Token::EndObject,
            Token::NameSeparator,
            Token::ValueSeparator,
            Token::True,
            Token::False,
            Token::Null,
            Token::EOF
        ]
    );
}

#[test]
fn keyword_followed_by_letter() {
    let mut lexer = Lexer::new("truex".to_string());
    assert_eq!(lexer.next_token(true), Some(Token::True));
    assert_eq!(lexer.next_token(false), Some(Token::LexerError('x')));
    assert_eq!(lexer.next_token(true), Some(Token::LexerError('x')));
}

#[test]
fn short_keyword_is_an_error() {
    let mut lexer = Lexer::new("tru".to_string());
    assert_eq!(lexer.next_token(true), Some(Token::LexerError('t')));
}

#[test]
fn unknown_character_is_consumed() {
    assert_eq!(all_tokens("@1"), vec![Token::LexerError('@'), Token::Number(chars("1")), Token::EOF]);
}

#[test]
fn empty_text_gives_eof_repeatedly() {
    let mut lexer = Lexer::new(String::new());
    assert_eq!(lexer.next_token(true), Some(Token::EOF));
    assert_eq!(lexer.next_token(true), Some(Token::EOF));
    let mut blank = Lexer::new(" \t\r\n".to_string());
    assert_eq!(blank.next_token(false), Some(Token::EOF));
}

#[test]
fn unterminated_string_gives_no_token() {
    let mut lexer = Lexer::new("\"abc".to_string());
    assert_eq!(lexer.next_token(false), None);
    let mut escaped = Lexer::new("\"abc\\".to_string());
    assert_eq!(escaped.next_token(true), None);
}

#[test]
fn classify_maps_literals_to_their_class() {
    assert_eq!(Token::Number(chars("4")).classify(), Token::NumberMatch);
    assert_eq!(Token::String(chars("s")).classify(), Token::StringMatch);
    assert_eq!(Token::Null.classify(), Token::Null);
}
