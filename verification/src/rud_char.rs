use vstd::prelude::*;

verus! {

/// Character categories, stated over the plain `char` value.
///
/// Only ASCII letters and digits are classified as letters and digits;
/// every other code point is neither.
pub open spec fn is_digit_char(c: char) -> bool {
    '0' <= c && c <= '9'
}

pub open spec fn is_lower_char(c: char) -> bool {
    'a' <= c && c <= 'z'
}

pub open spec fn is_upper_char(c: char) -> bool {
    'A' <= c && c <= 'Z'
}

pub open spec fn is_alpha_char(c: char) -> bool {
    is_lower_char(c) || is_upper_char(c)
}

/// ASCII punctuation: the four printable ranges around digits and letters.
pub open spec fn is_punct_char(c: char) -> bool {
    ('!' <= c && c <= '/') || (':' <= c && c <= '@') || ('[' <= c && c <= '`') || ('{' <= c
        && c <= '~')
}

/// Thin wrapper of the `char` type: classification questions are named
/// methods instead of ad hoc comparisons.
#[derive(Debug, Clone, Copy, PartialEq, Eq)]
pub struct Char(char);

impl View for Char {
    type V = char;

    closed spec fn view(&self) -> char {
        self.0
    }
}

impl Char {
    pub fn new(c: char) -> (r: Char)
        ensures
            r@ == c,
    {
        Char(c)
    }

    pub fn to_char(&self) -> (r: char)
        ensures
            r == self@,
    {
        self.0
    }
}

// comparison with a single letter
impl Char {
    pub fn is_zero(&self) -> (r: bool)
        ensures
            r == (self@ == '0'),
    {
        self.0 == '0'
    }

    pub fn is_line_term(&self) -> (r: bool)
        ensures
            r == (self@ == '\n'),
    {
        self.0 == '\n'
    }

    pub fn is_whitespace(&self) -> (r: bool)
        ensures
            r == (self@ == ' '),
    {
        self.0 == ' '
    }

    pub fn is_double_quotation(&self) -> (r: bool)
        ensures
            r == (self@ == '"'),
    {
        self.0 == '"'
    }

    pub fn is_anpersand(&self) -> (r: bool)
        ensures
            r == (self@ == '&'),
    {
        self.0 == '&'
    }

    pub fn is_single_quotation(&self) -> (r: bool)
        ensures
            r == (self@ == '\''),
    {
        self.0 == '\''
    }

    pub fn is_left_parenthesis(&self) -> (r: bool)
        ensures
            r == (self@ == '('),
    {
        self.0 == '('
    }

    pub fn is_right_parenthesis(&self) -> (r: bool)
        ensures
            r == (self@ == ')'),
    {
        self.0 == ')'
    }

    pub fn is_assign(&self) -> (r: bool)
        ensures
            r == (self@ == '='),
    {
        self.0 == '='
    }

    pub fn is_underscore(&self) -> (r: bool)
        ensures
            r == (self@ == '_'),
    {
        self.0 == '_'
    }
}

// categorizing characters
impl Char {
    pub fn is_number(&self) -> (r: bool)
        ensures
            r == is_digit_char(self@),
    {
        '0' <= self.0 && self.0 <= '9'
    }

    pub fn is_lowercase(&self) -> (r: bool)
        ensures
            r == is_lower_char(self@),
    {
        'a' <= self.0 && self.0 <= 'z'
    }

    pub fn is_uppercase(&self) -> (r: bool)
        ensures
            r == is_upper_char(self@),
    {
        'A' <= self.0 && self.0 <= 'Z'
    }

    pub fn is_alphabetic(&self) -> (r: bool)
        ensures
            r == is_alpha_char(self@),
    {
        self.is_lowercase() || self.is_uppercase()
    }

    pub fn is_ascii_punctuation(&self) -> (r: bool)
        ensures
            r == is_punct_char(self@),
    {
        ('!' <= self.0 && self.0 <= '/') || (':' <= self.0 && self.0 <= '@') || ('[' <= self.0
            && self.0 <= '`') || ('{' <= self.0 && self.0 <= '~')
    }
}

} // verus!
