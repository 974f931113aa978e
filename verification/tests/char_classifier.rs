use rud::rud_char::Char;

#[test]
fn is_alphabetic() {
    fn check(c: char) {
        assert!(Char::new(c).is_alphabetic());
    }

    ('a'..='z').for_each(|c| check(c));
    ('A'..='Z').for_each(|c| check(c));
}

#[test]
fn classifies_single_symbols() {
    assert!(Char::new('0').is_zero());
    assert!(Char::new('\n').is_line_term());
    assert!(Char::new(' ').is_whitespace());
    assert!(Char::new('"').is_double_quotation());
    assert!(Char::new('&').is_anpersand());
    assert!(Char::new('\'').is_single_quotation());
    assert!(Char::new('(').is_left_parenthesis());
    assert!(Char::new(')').is_right_parenthesis());
    assert!(Char::new('=').is_assign());
    assert!(Char::new('_').is_underscore());
    assert_eq!(Char::new('x').to_char(), 'x');
}

#[test]
fn classifies_categories() {
    assert!(Char::new('7').is_number());
    assert!(!Char::new('x').is_number());
    assert!(Char::new('q').is_lowercase());
    assert!(!Char::new('Q').is_lowercase());
    assert!(Char::new('Q').is_uppercase());
    assert!(!Char::new('q').is_uppercase());
    assert!(Char::new('_').is_ascii_punctuation());
    assert!(Char::new('?').is_ascii_punctuation());
    assert!(!Char::new(' ').is_ascii_punctuation());
    assert!(!Char::new('é').is_alphabetic());
    assert!(!Char::new('é').is_number());
}
