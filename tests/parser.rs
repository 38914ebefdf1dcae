use lrjson::lexer::{Lexer, Token};
use lrjson::parser::{ParseError, Parser, State};

fn parse(s: &str) -> Result<(), ParseError> {
    let mut parser = Parser::new(Lexer::new(s.to_string()));
    parser.step()
}

fn is_syntax_error(r: &Result<(), ParseError>) -> bool {
    matches!(r, Err(ParseError::SyntaxError(_, _)))
}

#[test]
fn empty_object_is_accepted() {
    assert!(parse("{}").is_ok());
}

#[test]
fn one_pair_is_accepted() {
    assert!(parse("{\"a\":1}").is_ok());
}

#[test]
fn pair_with_array_is_accepted() {
    assert!(parse("{\"a\":1,\"b\":[1,2,3]}").is_ok());
}

#[test]
fn nested_values_are_accepted() {
    assert!(parse(" { \"a\" : { \"b\" : [ true , false , null , {} , [] , [[1]] , \"s\" ] } , \"c\" : {\"d\":2} } ").is_ok());
}

#[test]
fn missing_value_is_a_syntax_error() {
    let r = parse("{\"a\":}");
    assert!(is_syntax_error(&r));
    if let Err(ParseError::SyntaxError(state, token)) = r {
        assert_eq!(state, State(9));
        assert_eq!(token, Token::EndObject);
    }
}

#[test]
fn trailing_comma_in_array_is_a_syntax_error() {
    assert!(is_syntax_error(&parse("[1,2,]")));
    assert!(is_syntax_error(&parse("{\"a\":[1,2,]}")));
}

#[test]
fn trailing_comma_in_object_is_a_syntax_error() {
    assert!(is_syntax_error(&parse("{\"a\":1,}")));
}

#[test]
fn missing_colon_is_a_syntax_error() {
    assert!(is_syntax_error(&parse("{\"a\" 1}")));
}

#[test]
fn unmatched_brace_is_a_syntax_error() {
    assert!(is_syntax_error(&parse("{\"a\":1")));
    assert!(is_syntax_error(&parse("{\"a\":1}}")));
}

#[test]
fn keyword_at_top_level_is_a_syntax_error() {
    let r = parse("truex");
    assert!(is_syntax_error(&r));
    if let Err(ParseError::SyntaxError(state, token)) = r {
        assert_eq!(state, State(0));
        assert_eq!(token, Token::True);
    }
}

#[test]
fn empty_text_is_a_syntax_error() {
    assert!(is_syntax_error(&parse("")));
}

#[test]
fn unterminated_string_is_reported() {
    assert!(matches!(parse("{\"a"), Err(ParseError::UnterminatedLiteral)));
}

#[test]
fn lexer_error_is_a_syntax_error() {
    let r = parse("{\"a\":1.5}");
    if let Err(ParseError::SyntaxError(_, token)) = r {
        assert_eq!(token, Token::LexerError('.'));
    } else {
        panic!("expected a syntax error");
    }
}

#[test]
fn deep_nesting_is_accepted() {
    let mut s = String::from("{\"a\":");
    for _ in 0..200 {
        s.push('[');
    }
    for _ in 0..200 {
        s.push(']');
    }
    s.push('}');
    assert!(parse(&s).is_ok());
}
