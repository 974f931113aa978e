use rud::error::RudError;
use rud::node::{Node, NodeList, RudType, UserDefinedFn};
use rud::token::{Parse, Punct, Reserved, Token, TokenKind, TokenPos, Tokens};

fn dummy_pos() -> TokenPos {
    TokenPos::new(0, 0)
}

fn create_rud_std_fn_tokens() -> Tokens {
    let rud_std_fn = Token::new_rud_std_fn(rud::token::RudStdFn::Puts, dummy_pos());
    let left_parenthesis = Token::new_punct(Punct::LeftParenthesis, dummy_pos());
    let string_lit = Token::new_string_lit("Hello, Rud!".to_string(), dummy_pos());
    let right_parenthesis = Token::new_punct(Punct::RightParenthesis, dummy_pos());
    let mut tokens = Tokens::new();
    tokens.push(rud_std_fn);
    tokens.push(left_parenthesis);
    tokens.push(string_lit);
    tokens.push(right_parenthesis);
    tokens
}

fn create_user_defined_fn_tokens() -> Tokens {
    let function = Token::new_reserved(Reserved::Fn, dummy_pos());
    let name = Token::new_identifier("main".to_string(), dummy_pos());
    let left_parenthesis = Token::new_punct(Punct::LeftParenthesis, dummy_pos());
    let right_parenthesis = Token::new_punct(Punct::RightParenthesis, dummy_pos());
    let assign = Token::new_punct(Punct::Assign, dummy_pos());
    let line_term = Token::new_line_term(dummy_pos());
    let indent = Token::new_indent(dummy_pos());
    let mut tokens = Tokens::new();
    tokens.push(function);
    tokens.push(name);
    tokens.push(left_parenthesis);
    tokens.push(right_parenthesis);
    tokens.push(assign);
    tokens.push(line_term);
    tokens.push(indent);
    let mut rud_std_fn_tokens = create_rud_std_fn_tokens();
    tokens.append(&mut rud_std_fn_tokens);
    tokens
}

fn new_user_defined_fn() -> UserDefinedFn {
    let rud_std_fn = rud::node::RudStdFn::new_from_string("Hello, Rud!");
    let node_kind = Node::RudStdFn(rud_std_fn);
    let mut node_list = NodeList::new();
    node_list.push(node_kind);
    UserDefinedFn::new(false, "main", Vec::new(), RudType::NoType, node_list)
}

#[test]
fn try_get_identifier_name() {
    let token_kind = TokenKind::Identifier("Hello, rud!".to_string());
    assert_eq!(token_kind.try_get_identifier_name(), &"Hello, rud!".to_string());
}

#[test]
fn try_get_idnetifier_type() {
    let token_kind = TokenKind::Identifier("usize".to_string());
    assert_eq!(token_kind.try_get_idnetifier_type(), RudType::Usize);
}

#[test]
fn try_get_rud_std_fn_name() {
    let token_kind = TokenKind::RudStdFn(rud::token::RudStdFn::Puts);
    assert_eq!(*token_kind.try_get_rud_std_fn_name(), rud::token::RudStdFn::Puts);
}

#[test]
fn to_rud_std_fn_node() {
    let node = create_rud_std_fn_tokens().to_rud_std_fn_node().unwrap();
    let expect = Node::RudStdFn(rud::node::RudStdFn::new_from_string("Hello, Rud!"));
    assert_eq!(node, expect);
}

#[test]
fn to_user_defined_fn() {
    let node = create_user_defined_fn_tokens().to_user_defined_fn().unwrap();
    let expect = Node::UserDefinedFn(new_user_defined_fn());
    assert_eq!(node, expect);
}

#[test]
fn reserved_word_recognition() {
    assert!(Reserved::is_reserved_word("pub"));
    assert!(Reserved::is_reserved_word("fn"));
    assert!(!Reserved::is_reserved_word("puts"));
    assert!(!Reserved::is_reserved_word("fnord"));
    assert_eq!(Reserved::from("pub"), Reserved::Pub);
    assert_eq!(Reserved::from("fn"), Reserved::Fn);
}

#[test]
fn rud_std_fn_recognition() {
    assert!(rud::token::RudStdFn::is_rud_std_fn("puts"));
    assert!(!rud::token::RudStdFn::is_rud_std_fn("print"));
    assert_eq!(rud::token::RudStdFn::from("puts"), rud::token::RudStdFn::Puts);
}

#[test]
fn standalone_call_renders() {
    let mut tokens = Tokens::new();
    tokens.push(Token::new_rud_std_fn(rud::token::RudStdFn::Puts, dummy_pos()));
    tokens.push(Token::new_punct(Punct::LeftParenthesis, dummy_pos()));
    tokens.push(Token::new_string_lit("x".to_string(), dummy_pos()));
    tokens.push(Token::new_punct(Punct::RightParenthesis, dummy_pos()));
    let node = tokens.to_rud_std_fn_node().unwrap();
    assert_eq!(node.to_code(), r#"println!("x");"#);
}

#[test]
fn to_rud_std_fn_node_wrong_length() {
    let mut tokens = create_rud_std_fn_tokens();
    tokens.pop();
    assert_eq!(tokens.to_rud_std_fn_node().unwrap_err(), RudError::ShapeMismatch);
}

#[test]
fn to_user_defined_fn_missing_right_parenthesis() {
    let mut tokens = Tokens::new();
    tokens.push(Token::new_reserved(Reserved::Fn, dummy_pos()));
    tokens.push(Token::new_identifier("add2".to_string(), dummy_pos()));
    tokens.push(Token::new_punct(Punct::LeftParenthesis, dummy_pos()));
    tokens.push(Token::new_identifier("n".to_string(), dummy_pos()));
    tokens.push(Token::new_identifier("usize".to_string(), dummy_pos()));
    assert_eq!(tokens.to_user_defined_fn().unwrap_err(), RudError::ShapeMismatch);
}

#[test]
fn to_user_defined_fn_with_parameters() {
    let mut tokens = Tokens::new();
    tokens.push(Token::new_reserved(Reserved::Pub, dummy_pos()));
    tokens.push(Token::new_reserved(Reserved::Fn, dummy_pos()));
    tokens.push(Token::new_identifier("add2".to_string(), dummy_pos()));
    tokens.push(Token::new_punct(Punct::LeftParenthesis, dummy_pos()));
    tokens.push(Token::new_identifier("n".to_string(), dummy_pos()));
    tokens.push(Token::new_identifier("usize".to_string(), dummy_pos()));
    tokens.push(Token::new_punct(Punct::Comma, dummy_pos()));
    tokens.push(Token::new_identifier("m".to_string(), dummy_pos()));
    tokens.push(Token::new_identifier("usize".to_string(), dummy_pos()));
    tokens.push(Token::new_punct(Punct::RightParenthesis, dummy_pos()));
    tokens.push(Token::new_punct(Punct::Assign, dummy_pos()));
    tokens.push(Token::new_line_term(dummy_pos()));
    tokens.push(Token::new_indent(dummy_pos()));
    tokens.push(Token::new_rud_std_fn(rud::token::RudStdFn::Puts, dummy_pos()));
    tokens.push(Token::new_punct(Punct::LeftParenthesis, dummy_pos()));
    tokens.push(Token::new_string_lit("x".to_string(), dummy_pos()));
    tokens.push(Token::new_punct(Punct::RightParenthesis, dummy_pos()));
    let node = tokens.to_user_defined_fn().unwrap();
    // parameters are carried by the tree but emit no text today
    assert_eq!(node.to_code(), "pub fn add2() {\n    println!(\"x\");\n}");
}

#[test]
fn to_user_defined_fn_line_term_without_indent() {
    let mut tokens = Tokens::new();
    tokens.push(Token::new_reserved(Reserved::Fn, dummy_pos()));
    tokens.push(Token::new_identifier("main".to_string(), dummy_pos()));
    tokens.push(Token::new_punct(Punct::LeftParenthesis, dummy_pos()));
    tokens.push(Token::new_punct(Punct::RightParenthesis, dummy_pos()));
    tokens.push(Token::new_punct(Punct::Assign, dummy_pos()));
    tokens.push(Token::new_line_term(dummy_pos()));
    tokens.push(Token::new_identifier("oops".to_string(), dummy_pos()));
    assert_eq!(tokens.to_user_defined_fn().unwrap_err(), RudError::ShapeMismatch);
}

#[test]
fn split_partitions_groups() {
    let mut tokens = Tokens::new();
    tokens.push(Token::new_rud_std_fn(rud::token::RudStdFn::Puts, TokenPos::new(0, 3)));
    tokens.push(Token::new_punct(Punct::LeftParenthesis, TokenPos::new(4, 4)));
    tokens.push(Token::new_string_lit("a".to_string(), TokenPos::new(5, 7)));
    tokens.push(Token::new_punct(Punct::RightParenthesis, TokenPos::new(8, 8)));
    tokens.push(Token::new_line_term(TokenPos::new(9, 9)));
    tokens.push(Token::new_rud_std_fn(rud::token::RudStdFn::Puts, TokenPos::new(10, 13)));
    tokens.push(Token::new_punct(Punct::LeftParenthesis, TokenPos::new(14, 14)));
    tokens.push(Token::new_string_lit("b".to_string(), TokenPos::new(15, 17)));
    tokens.push(Token::new_punct(Punct::RightParenthesis, TokenPos::new(18, 18)));
    let original = tokens.clone();
    let groups = tokens.split();
    assert_eq!(groups.len(), 2);
    assert_eq!(groups[0].len(), 5);
    assert_eq!(groups[1].len(), 4);
    let rejoined: Tokens = groups.into_iter().flatten().collect();
    assert_eq!(rejoined, original);
}

#[test]
fn split_keeps_indented_continuation() {
    let mut tokens = Tokens::new();
    tokens.push(Token::new_reserved(Reserved::Fn, TokenPos::new(0, 1)));
    tokens.push(Token::new_line_term(TokenPos::new(2, 2)));
    tokens.push(Token::new_indent(TokenPos::new(3, 6)));
    tokens.push(Token::new_identifier("x".to_string(), TokenPos::new(7, 7)));
    let original = tokens.clone();
    let groups = tokens.split();
    assert_eq!(groups.len(), 1);
    assert_eq!(groups[0], original);
}

#[test]
fn split_empty_run() {
    let tokens = Tokens::new();
    let groups = tokens.split();
    assert!(groups.is_empty());
}
