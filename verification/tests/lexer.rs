use rud::error::RudError;
use rud::source::{Lexer, Source};
use rud::token::TokenKind;

#[test]
fn is_indent() {
    let source = Source::new("    foo");
    assert!(source.is_indent());
}

#[test]
fn peek_string() {
    let source = Source::new("foo_bar_123\nfoobar aaa");
    assert_eq!(source.peek_string().unwrap(), "foo_bar_123\nfoobar");
}

#[test]
fn one_whitespace() {
    let mut source = Source::new(" ");
    let pre_pos = source.cursor.pos;
    source.skip_whitespace();
    let post_pos = source.cursor.pos;
    assert_eq!(pre_pos + 1, post_pos);
}

#[test]
fn some_whitespace() {
    let mut source = Source::new("   ");
    let pre_pos = source.cursor.pos;
    while !source.is_end() {
        source.skip_whitespace();
    }
    let post_pos = source.cursor.pos;
    assert_eq!(pre_pos + 3, post_pos);
}

#[test]
fn more_than_4() {
    let mut source = Source::new("    ");
    let pre_pos = source.cursor.pos;
    source.skip_whitespace();
    let post_pos = source.cursor.pos;
    assert_eq!(pre_pos, post_pos);
}

#[test]
fn line_term() {
    let mut source = Source::new("\n");
    let pre_pos = source.cursor.pos;
    source.skip_whitespace();
    let post_pos = source.cursor.pos;
    assert_eq!(pre_pos, post_pos);
}

#[test]
fn try_get_indent_token() {
    let mut ok = Source::new("    ");
    assert!(ok.try_get_indent_token().is_some());
    assert_eq!(ok.cursor.pos, 4);

    let mut ng = Source::new("   ");
    assert!(ng.try_get_indent_token().is_none());
    assert_eq!(ng.cursor.pos, 0);
}

#[test]
fn try_get_reserved_token() {
    let mut ok = Source::new("fn");
    assert!(ok.try_get_reserved_token().unwrap().is_some());

    let mut ng = Source::new("foo");
    assert!(ng.try_get_reserved_token().unwrap().is_none());
}

#[test]
fn try_get_rud_std_fn_token() {
    let mut ok = Source::new("puts");
    assert!(ok.try_get_rud_std_fn_token().unwrap().is_some());

    let mut ng = Source::new("foo");
    assert!(ng.try_get_rud_std_fn_token().unwrap().is_none());
}

#[test]
fn try_get_identifier_token() {
    let mut ok = Source::new("foo");
    assert!(ok.try_get_identifier_token().unwrap().is_some());

    let mut ng = Source::new("?foo");
    assert!(ng.try_get_identifier_token().unwrap().is_none());
}

#[test]
fn try_get_string_lit_token() {
    let mut ok = Source::new(r#""foo""#);
    assert!(ok.try_get_string_lit_token().unwrap().is_some());

    let mut ng = Source::new("foo");
    assert!(ng.try_get_string_lit_token().unwrap().is_none());
}

#[test]
fn try_get_punct_token() {
    fn check(c: char) {
        let mut ok = Source::new(&c.to_string());
        assert!(ok.try_get_punct_token().is_some());
    }
    let punct = ['(', ')', '='];
    punct.iter().for_each(|c| {
        check(*c);
    });
}

#[test]
fn to_tokens() {
    let code = r#"fn main() =
    puts("Hello, world")
"#;
    let mut source = Source::new(code);
    let a = source.to_tokens().unwrap();
    assert_eq!(a.len(), 12);
}

#[test]
fn to_tokens_token_kinds() {
    let code = "fn main() =\n    puts(\"Hi\")\n";
    let mut source = Source::new(code);
    let tokens = source.to_tokens().unwrap();
    assert!(matches!(tokens[0].kind, TokenKind::Reserved(rud::token::Reserved::Fn)));
    assert_eq!(tokens[1].kind, TokenKind::Identifier("main".to_string()));
    assert!(tokens[5].kind.is_line_term());
    assert!(tokens[6].kind.is_indent());
    assert!(tokens[7].kind.is_rud_std_fn());
    assert_eq!(tokens[9].kind, TokenKind::StringLit("Hi".to_string()));
}

#[test]
fn to_tokens_spans_are_chained() {
    let code = "fn main() =\n    puts(\"Hello, world\")\n";
    let mut source = Source::new(code);
    let tokens = source.to_tokens().unwrap();
    for window in tokens.windows(2) {
        assert!(window[0].pos.end < window[1].pos.start);
    }
    for token in &tokens {
        assert!(token.pos.start <= token.pos.end);
    }
}

#[test]
fn to_tokens_three_spaces_yield_nothing() {
    let mut source = Source::new("   ");
    let tokens = source.to_tokens().unwrap();
    assert!(tokens.is_empty());
    assert_eq!(source.cursor.pos, 3);
}

#[test]
fn to_tokens_four_spaces_yield_one_indent() {
    let mut source = Source::new("    ");
    let tokens = source.to_tokens().unwrap();
    assert_eq!(tokens.len(), 1);
    assert!(tokens[0].kind.is_indent());
    assert_eq!(tokens[0].pos.start, 0);
    assert_eq!(tokens[0].pos.end, 3);
}

#[test]
fn to_tokens_unscannable_character() {
    let mut source = Source::new("@");
    assert_eq!(source.to_tokens().unwrap_err(), RudError::ScanFailure);
}

#[test]
fn to_tokens_unterminated_literal() {
    let mut source = Source::new("\"never closed");
    assert_eq!(source.to_tokens().unwrap_err(), RudError::UnterminatedLiteral);
}

#[test]
fn to_tokens_string_lit_payload() {
    let mut source = Source::new("\"a b\"");
    let tokens = source.to_tokens().unwrap();
    assert_eq!(tokens.len(), 1);
    assert_eq!(tokens[0].kind, TokenKind::StringLit("a b".to_string()));
    assert_eq!(tokens[0].pos.start, 0);
    assert_eq!(tokens[0].pos.end, 4);
}
