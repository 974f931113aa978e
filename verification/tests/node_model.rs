use rud::node::{Node, NodeList, RudArg, RudStr, RudType, UserDefinedFn};
use rud::token::{Parse, Punct, Reserved, Token, TokenPos, Tokens};

fn dummy_pos() -> TokenPos {
    TokenPos::new(0, 0)
}

fn create_rud_std_fn_tokens() -> Tokens {
    let rud_std_fn = Token::new_rud_std_fn(rud::token::RudStdFn::Puts, dummy_pos());
    let left_parenthesis = Token::new_punct(Punct::LeftParenthesis, dummy_pos());
    let string_lit = Token::new_string_lit("Hello, Rud!".to_string(), dummy_pos());
    let right_parenthesis = Token::new_punct(Punct::RightParenthesis, dummy_pos());
    let mut tokens = Tokens::new();
    tokens.push(rud_std_fn);
    tokens.push(left_parenthesis);
    tokens.push(string_lit);
    tokens.push(right_parenthesis);
    tokens
}

fn create_user_defined_fn_tokens() -> Tokens {
    let function = Token::new_reserved(Reserved::Fn, dummy_pos());
    let name = Token::new_identifier("main".to_string(), dummy_pos());
    let left_parenthesis = Token::new_punct(Punct::LeftParenthesis, dummy_pos());
    let right_parenthesis = Token::new_punct(Punct::RightParenthesis, dummy_pos());
    let assign = Token::new_punct(Punct::Assign, dummy_pos());
    let line_term = Token::new_line_term(dummy_pos());
    let indent = Token::new_indent(dummy_pos());
    let mut tokens = Tokens::new();
    tokens.push(function);
    tokens.push(name);
    tokens.push(left_parenthesis);
    tokens.push(right_parenthesis);
    tokens.push(assign);
    tokens.push(line_term);
    tokens.push(indent);
    let mut rud_std_fn_tokens = create_rud_std_fn_tokens();
    tokens.append(&mut rud_std_fn_tokens);
    tokens
}

fn create_rud_std_fn_node() -> Node {
    create_rud_std_fn_tokens().to_rud_std_fn_node().unwrap()
}

fn create_user_defined_fn_node() -> Node {
    create_user_defined_fn_tokens().to_user_defined_fn().unwrap()
}

#[test]
fn tests_to_s() {
    let hello_world = "Hello, Rud!".to_string();
    let rud_str = RudStr::StringLit(hello_world.clone());
    assert_eq!(rud_str.to_s(), hello_world);
}

#[test]
fn new_from_string() {
    // Testing of this function is secured by to_code().
    assert!(true);
}

#[test]
fn tests_to_code() {
    let rud_std_fn = rud::node::RudStdFn::new_from_string("Hello, Rud!");
    assert_eq!(rud_std_fn.to_code(), r#"println!("Hello, Rud!");"#);
}

#[test]
fn try_from() {
    assert_eq!(RudType::try_from("usize").unwrap(), RudType::Usize);
}

#[test]
fn to_s() {
    let usize_type = RudType::Usize;
    assert_eq!(usize_type.to_s().unwrap(), "usize");
}

#[test]
fn tests_new() {
    let name = "n".to_string();
    let rud_type = RudType::Usize;
    let arg = RudArg::new(&name, rud_type.clone());
    let expect = RudArg { name, rud_type };
    assert_eq!(arg, expect);
}

#[test]
fn new() {
    // Testing of this function is secured by to_code().
    assert!(true);
}

#[test]
fn to_code_user_defined_fn() {
    let user_defined_fn = create_user_defined_fn_node();
    let expect = r#"fn main() {
    println!("Hello, Rud!");
}"#;
    assert_eq!(user_defined_fn.to_code(), expect);
}

#[test]
fn to_code() {
    let node = create_rud_std_fn_node();
    let code = node.to_code();
    let expect = r#"println!("Hello, Rud!");"#;
    assert_eq!(code, expect);
}

#[test]
fn to_code_node_user_defined_fn() {
    let node = create_user_defined_fn_node();
    let code = node.to_code();
    let expect = r#"fn main() {
    println!("Hello, Rud!");
}"#;
    assert_eq!(code, expect);
}

#[test]
fn to_code_empty_body() {
    let inner: NodeList = Vec::new();
    let f = UserDefinedFn::new(false, "noop", Vec::new(), RudType::NoType, inner);
    let node = Node::UserDefinedFn(f);
    assert_eq!(node.to_code(), "fn noop() {\n}");
}

#[test]
fn to_code_public_fn() {
    let inner: NodeList = Vec::new();
    let f = UserDefinedFn::new(true, "shown", Vec::new(), RudType::NoType, inner);
    let node = Node::UserDefinedFn(f);
    assert_eq!(node.to_code(), "pub fn shown() {\n}");
}

#[test]
fn to_s_no_type() {
    assert!(RudType::NoType.to_s().is_none());
}

#[test]
fn try_from_unrecognized_spelling() {
    assert_eq!(RudType::try_from("decimal").unwrap(), RudType::NoType);
}
