use rud::error::RudError;
use rud::source::{Lexer, Source};
use rud::token::Parse;
use rud::translate::translate;

#[test]
fn source2code() {
    let rud_code = r#"fn main() =
    puts("Hello, Rud!")
"#;

    let expect = r#"fn main() {
    println!("Hello, Rud!");
}"#;

    let mut source = Source::new(rud_code);
    let tokens = source.to_tokens().unwrap();
    let rust_code = tokens.to_user_defined_fn().unwrap().to_code();

    assert_eq!(rust_code, expect);
}

#[test]
fn translate_hello() {
    let rud_code = "fn main() =\n    puts(\"Hello, Rud!\")\n";
    let out = translate(rud_code).unwrap();
    assert_eq!(out, vec!["fn main() {\n    println!(\"Hello, Rud!\");\n}".to_string()]);
}

#[test]
fn translate_is_deterministic() {
    let rud_code = "fn main() =\n    puts(\"again and again\")\n";
    let first = translate(rud_code).unwrap();
    let second = translate(rud_code).unwrap();
    assert_eq!(first, second);
}

#[test]
fn translate_standalone_call() {
    let out = translate("puts(\"x\")").unwrap();
    assert_eq!(out, vec!["println!(\"x\");".to_string()]);
}

#[test]
fn translate_two_logical_lines() {
    let code = "puts(\"a\")\nputs(\"b\")";
    let out = translate(code).unwrap();
    assert_eq!(out, vec!["println!(\"a\");".to_string(), "println!(\"b\");".to_string()]);
}

#[test]
fn translate_scan_failure() {
    assert_eq!(translate("fn main() = @").unwrap_err(), RudError::ScanFailure);
}

#[test]
fn translate_unterminated_literal() {
    assert_eq!(translate("puts(\"oops").unwrap_err(), RudError::UnterminatedLiteral);
}

#[test]
fn translate_shape_mismatch_aborts() {
    // a parameter list that never closes must abort the whole translation
    let code = "fn add2(n usize =\n    puts(\"x\")\n";
    assert_eq!(translate(code).unwrap_err(), RudError::ShapeMismatch);
}

#[test]
fn translate_empty_input() {
    let out = translate("").unwrap();
    assert!(out.is_empty());
}
