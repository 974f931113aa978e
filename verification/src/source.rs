use vstd::prelude::*;
use vstd::string::*;
use crate::rud_char::{is_alpha_char, is_digit_char, is_punct_char, Char};
use crate::token::{
    reserved_of, Punct, Reserved, RudStdFn, SpecToken, SpecTokenKind, Token, TokenPos, Tokens,
    toks_view,
};
use crate::error::RudError;

verus! {

/// Relies on String::push: appends one character to the end of the string.
#[verifier::external_body]
fn push_char(s: &mut String, c: char)
    ensures
        final(s)@ == old(s)@.push(c),
{
    s.push(c);
}

/// A character that can stand inside a scanned word: an ASCII letter or
/// digit, an underscore, or a line terminator (the latter is a quirk of the
/// word lookahead, not a multi-line-identifier feature).
pub open spec fn is_word_char(c: char) -> bool {
    is_alpha_char(c) || is_digit_char(c) || c == '_' || c == '\n'
}

/// Four consecutive plain spaces start at `p`.
pub open spec fn indent_at(s: Seq<char>, p: int) -> bool {
    &&& p + 4 <= s.len()
    &&& s[p] == ' '
    &&& s[p + 1] == ' '
    &&& s[p + 2] == ' '
    &&& s[p + 3] == ' '
}

/// A single whitespace character at `p` is skipped when it neither starts
/// an indent run nor is a line terminator.
pub open spec fn skip_at(s: Seq<char>, p: int) -> bool {
    0 <= p < s.len() && s[p] == ' ' && !indent_at(s, p)
}

/// The end of the maximal word run starting at `p`.
pub open spec fn word_end(s: Seq<char>, p: int) -> int
    decreases s.len() - p,
{
    if p < 0 || p >= s.len() {
        p
    } else if is_word_char(s[p]) {
        word_end(s, p + 1)
    } else {
        p
    }
}

/// The word lookahead stops cleanly only on a plain space, on ASCII
/// punctuation, or at the end of the buffer; any other character there is
/// unscannable.
pub open spec fn word_break_ok(s: Seq<char>, q: int) -> bool {
    q >= s.len() || s[q] == ' ' || is_punct_char(s[q])
}

pub proof fn lemma_word_end_bounds(s: Seq<char>, p: int)
    requires
        0 <= p <= s.len(),
    ensures
        p <= word_end(s, p) <= s.len(),
    decreases s.len() - p,
{
    if p < s.len() && is_word_char(s[p]) {
        lemma_word_end_bounds(s, p + 1);
    }
}

/// The position of the closing double quote at or after `i`, if any.
pub open spec fn close_quote(s: Seq<char>, i: int) -> Option<int>
    decreases s.len() - i,
{
    if i < 0 || i >= s.len() {
        Option::None
    } else if s[i] == '"' {
        Option::Some(i)
    } else {
        close_quote(s, i + 1)
    }
}

pub proof fn lemma_close_quote_bounds(s: Seq<char>, i: int)
    requires
        0 <= i,
    ensures
        close_quote(s, i) matches Option::Some(e) ==> i <= e < s.len(),
    decreases s.len() - i,
{
    if i < s.len() && s[i] != '"' {
        lemma_close_quote_bounds(s, i + 1);
    }
}

/// The token a maximal word scans to: a reserved word, a standard-function
/// name, or an identifier, in that priority order.
pub open spec fn scan_word_token(w: Seq<char>, p: int, q: int) -> SpecToken {
    if w == "pub"@ || w == "fn"@ {
        SpecToken { kind: SpecTokenKind::Reserved(reserved_of(w)), start: p, end: q - 1 }
    } else if w == "puts"@ {
        SpecToken { kind: SpecTokenKind::RudStdFn(RudStdFn::Puts), start: p, end: q - 1 }
    } else {
        SpecToken { kind: SpecTokenKind::Identifier(w), start: p, end: q - 1 }
    }
}

/// Prepends one token to the outcome of the remaining scan.
pub open spec fn scan_cons(t: SpecToken, r: Result<Seq<SpecToken>, RudError>) -> Result<
    Seq<SpecToken>,
    RudError,
> {
    match r {
        Result::Ok(ts) => Result::Ok(seq![t] + ts),
        Result::Err(e) => Result::Err(e),
    }
}

/// Prepends already-gathered tokens to the outcome of the remaining scan.
pub open spec fn scan_result_append(
    pre: Seq<SpecToken>,
    r: Result<Seq<SpecToken>, RudError>,
) -> Result<Seq<SpecToken>, RudError> {
    match r {
        Result::Ok(ts) => Result::Ok(pre + ts),
        Result::Err(e) => Result::Err(e),
    }
}

/// The lexical analysis of the buffer from position `p` on: at each
/// position the rules are tried in fixed priority order, the first match
/// wins, and scanning restarts from the top.
pub open spec fn scan_from(s: Seq<char>, p: int) -> Result<Seq<SpecToken>, RudError>
    decreases s.len() - p,
    via scan_from_decreases
{
    if p < 0 || p >= s.len() {
        Result::Ok(Seq::empty())
    } else if skip_at(s, p) {
        scan_from(s, p + 1)
    } else if s[p] == '\n' {
        scan_cons(
            SpecToken { kind: SpecTokenKind::LineTerm, start: p, end: p },
            scan_from(s, p + 1),
        )
    } else if indent_at(s, p) {
        scan_cons(
            SpecToken { kind: SpecTokenKind::Indent, start: p, end: p + 3 },
            scan_from(s, p + 4),
        )
    } else {
        let q = word_end(s, p);
        if !word_break_ok(s, q) {
            Result::Err(RudError::ScanFailure)
        } else if q > p {
            scan_cons(scan_word_token(s.subrange(p, q), p, q), scan_from(s, q))
        } else if s[p] == '"' {
            match close_quote(s, p + 1) {
                Option::None => Result::Err(RudError::UnterminatedLiteral),
                Option::Some(e) => scan_cons(
                    SpecToken {
                        kind: SpecTokenKind::StringLit(s.subrange(p + 1, e)),
                        start: p,
                        end: e,
                    },
                    scan_from(s, e + 1),
                ),
            }
        } else if s[p] == '(' {
            scan_cons(
                SpecToken {
                    kind: SpecTokenKind::Punct(Punct::LeftParenthesis),
                    start: p,
                    end: p,
                },
                scan_from(s, p + 1),
            )
        } else if s[p] == ')' {
            scan_cons(
                SpecToken {
                    kind: SpecTokenKind::Punct(Punct::RightParenthesis),
                    start: p,
                    end: p,
                },
                scan_from(s, p + 1),
            )
        } else if s[p] == '=' {
            scan_cons(
                SpecToken { kind: SpecTokenKind::Punct(Punct::Assign), start: p, end: p },
                scan_from(s, p + 1),
            )
        } else {
            Result::Err(RudError::ScanFailure)
        }
    }
}

#[via_fn]
proof fn scan_from_decreases(s: Seq<char>, p: int) {
    if 0 <= p < s.len() {
        lemma_word_end_bounds(s, p);
        lemma_close_quote_bounds(s, p + 1);
    }
}

/// The lexical analysis of a whole buffer.
pub open spec fn scan_spec(s: Seq<char>) -> Result<Seq<SpecToken>, RudError> {
    scan_from(s, 0)
}

/// Gathered tokens prepend one at a time.
pub proof fn lemma_scan_step(
    chars: Seq<char>,
    at0: int,
    pre: Seq<SpecToken>,
    t: SpecToken,
    p: int,
    p2: int,
)
    requires
        scan_from(chars, at0) == scan_result_append(pre, scan_from(chars, p)),
        scan_from(chars, p) == scan_cons(t, scan_from(chars, p2)),
    ensures
        scan_from(chars, at0) == scan_result_append(pre.push(t), scan_from(chars, p2)),
{
    match scan_from(chars, p2) {
        Result::Ok(ts) => {
            assert(pre + (seq![t] + ts) =~= pre.push(t) + ts);
        },
        Result::Err(_) => {
        },
    }
}

/// The scan position plus one scratch field.
#[derive(Debug, Clone)]
pub struct Cursor {
    pub pos: usize,
    pub tmp: usize,
}

impl Cursor {
    pub fn new() -> (r: Cursor)
        ensures
            r.pos == 0,
    {
        Cursor { pos: 0, tmp: 0 }
    }
}

impl Cursor {
    pub fn next(&mut self)
        requires
            old(self).pos < usize::MAX,
        ensures
            final(self).pos == old(self).pos + 1,
    {
        self.pos = self.pos + 1;
    }
}

/// The character buffer built once from the input string, owned by the
/// lexer together with its cursor for the duration of one scanning pass.
#[derive(Debug, Clone)]
pub struct Source {
    code: Vec<Char>,
    len: usize,
    pub cursor: Cursor,
}

impl Source {
    pub fn new(source_code: &str) -> (r: Source)
        ensures
            r.lex_wf(),
            r.lex_chars() == source_code@,
            r.lex_at() == 0,
    {
        let n = source_code.unicode_len();
        let mut code: Vec<Char> = Vec::new();
        let mut i: usize = 0;
        while i < n
            invariant
                n == source_code@.len(),
                i <= n,
                code@.len() == i,
                forall|j: int| 0 <= j < i ==> code@[j]@ == source_code@[j],
            decreases n - i,
        {
            code.push(Char::new(source_code.get_char(i)));
            i = i + 1;
        }
        let len = code.len();
        let cursor = Cursor::new();
        let r = Source { code, len, cursor };
        proof {
            assert(r.lex_chars() =~= source_code@);
        }
        r
    }
}

impl Source {
    pub fn is_end(&self) -> (r: bool)
        requires
            self.lex_wf(),
        ensures
            r == (self.lex_at() >= self.lex_chars().len()),
    {
        self.cursor.pos >= self.len
    }

    fn get_char(&self, pos: usize) -> (r: Char)
        requires
            self.lex_wf(),
            pos < self.lex_chars().len(),
        ensures
            r@ == self.lex_chars()[pos as int],
    {
        self.code[pos]
    }

    fn peek(&self) -> (r: Char)
        requires
            self.lex_wf(),
            self.lex_at() < self.lex_chars().len(),
        ensures
            r@ == self.lex_chars()[self.lex_at()],
    {
        self.get_char(self.cursor.pos)
    }

    /// The maximal word run at the cursor, without moving the cursor; or
    /// nothing, when the run stops at an unscannable character.
    pub fn peek_string(&self) -> (r: Option<String>)
        requires
            self.lex_wf(),
        ensures
            ({
                let chars = self.lex_chars();
                let q = word_end(chars, self.lex_at());
                if word_break_ok(chars, q) {
                    r matches Option::Some(s) && s@ == chars.subrange(self.lex_at(), q)
                } else {
                    r is None
                }
            }),
    {
        let ghost chars = self.lex_chars();
        let ghost at = self.lex_at();
        let mut pos = self.cursor.pos;
        let mut s = String::new();
        proof {
            assert(chars.subrange(at, at) =~= s@);
        }
        while pos < self.len
            invariant
                self.lex_wf(),
                chars == self.lex_chars(),
                at == self.lex_at(),
                at <= pos <= chars.len(),
                word_end(chars, at) == word_end(chars, pos as int),
                s@ == chars.subrange(at, pos as int),
            decreases self.len - pos,
        {
            let c = self.get_char(pos);
            if c.is_alphabetic() || c.is_number() || c.is_underscore() || c.is_line_term() {
                push_char(&mut s, c.to_char());
                pos = pos + 1;
                proof {
                    assert(chars.subrange(at, pos as int) =~= chars.subrange(
                        at,
                        pos - 1,
                    ).push(chars[pos - 1]));
                }
            } else if c.is_whitespace() {
                return Option::Some(s);
            } else if c.is_ascii_punctuation() {
                return Option::Some(s);
            } else {
                return Option::None;
            }
        }
        Option::Some(s)
    }

    fn is_whitespace(&self) -> (r: bool)
        requires
            self.lex_wf(),
            self.lex_at() < self.lex_chars().len(),
        ensures
            r == (self.lex_chars()[self.lex_at()] == ' '),
    {
        self.peek().is_whitespace()
    }

    pub fn is_indent(&self) -> (r: bool)
        requires
            self.lex_wf(),
        ensures
            r == indent_at(self.lex_chars(), self.lex_at()),
    {
        let pos = self.cursor.pos;
        if self.len - pos < 4 {
            return false;
        }
        self.get_char(pos).is_whitespace() && self.get_char(pos + 1).is_whitespace()
            && self.get_char(pos + 2).is_whitespace() && self.get_char(pos + 3).is_whitespace()
    }

    fn is_line_term(&self) -> (r: bool)
        requires
            self.lex_wf(),
            self.lex_at() < self.lex_chars().len(),
        ensures
            r == (self.lex_chars()[self.lex_at()] == '\n'),
    {
        self.peek().is_line_term()
    }

    fn is_punct(&self) -> (r: bool)
        requires
            self.lex_wf(),
            self.lex_at() < self.lex_chars().len(),
        ensures
            r == is_punct_char(self.lex_chars()[self.lex_at()]),
    {
        self.peek().is_ascii_punctuation()
    }
}

/// Lexical analysis: the buffer is consumed from a forward-only cursor,
/// each rule either emits one positioned token or leaves the state as it
/// was, and a full run turns the buffer into the ordered token sequence
/// that `scan_spec` describes.
pub trait Lexer: Sized {
    /// The character buffer under analysis.
    spec fn lex_chars(&self) -> Seq<char>;

    /// The cursor: how many characters are already consumed.
    spec fn lex_at(&self) -> int;

    /// The cursor never leaves the buffer.
    spec fn lex_wf(&self) -> bool;

    /// Skips a single whitespace character, unless it starts an indent run
    /// or is a line terminator.
    fn skip_whitespace(&mut self)
        requires
            old(self).lex_wf(),
            old(self).lex_at() < old(self).lex_chars().len(),
        ensures
            final(self).lex_wf(),
            final(self).lex_chars() == old(self).lex_chars(),
            final(self).lex_at() == if skip_at(old(self).lex_chars(), old(self).lex_at()) {
                old(self).lex_at() + 1
            } else {
                old(self).lex_at()
            },
    ;

    /// Emits a line-terminator token of width one.
    fn try_get_line_term_token(&mut self) -> (r: Option<Token>)
        requires
            old(self).lex_wf(),
            old(self).lex_at() < old(self).lex_chars().len(),
        ensures
            final(self).lex_wf(),
            final(self).lex_chars() == old(self).lex_chars(),
            ({
                let chars = old(self).lex_chars();
                let p = old(self).lex_at();
                if chars[p] == '\n' {
                    r matches Option::Some(t) && t@ == (SpecToken {
                        kind: SpecTokenKind::LineTerm,
                        start: p,
                        end: p,
                    }) && final(self).lex_at() == p + 1
                } else {
                    r is None && final(self).lex_at() == p
                }
            }),
    ;

    /// Emits an indent token covering exactly four spaces.
    fn try_get_indent_token(&mut self) -> (r: Option<Token>)
        requires
            old(self).lex_wf(),
            old(self).lex_at() < old(self).lex_chars().len(),
        ensures
            final(self).lex_wf(),
            final(self).lex_chars() == old(self).lex_chars(),
            ({
                let chars = old(self).lex_chars();
                let p = old(self).lex_at();
                if indent_at(chars, p) {
                    r matches Option::Some(t) && t@ == (SpecToken {
                        kind: SpecTokenKind::Indent,
                        start: p,
                        end: p + 3,
                    }) && final(self).lex_at() == p + 4
                } else {
                    r is None && final(self).lex_at() == p
                }
            }),
    ;

    /// Emits a reserved-word token when the word at the cursor is a
    /// keyword spelling.
    fn try_get_reserved_token(&mut self) -> (r: Result<Option<Token>, RudError>)
        requires
            old(self).lex_wf(),
            old(self).lex_at() < old(self).lex_chars().len(),
        ensures
            final(self).lex_wf(),
            final(self).lex_chars() == old(self).lex_chars(),
            ({
                let chars = old(self).lex_chars();
                let p = old(self).lex_at();
                let q = word_end(chars, p);
                let w = chars.subrange(p, q);
                if chars[p] == '\n' {
                    r == Result::<Option<Token>, RudError>::Ok(Option::<Token>::None) && final(self).lex_at() == p
                } else if !word_break_ok(chars, q) {
                    r == Result::<Option<Token>, RudError>::Err(RudError::ScanFailure) && final(self).lex_at() == p
                } else if w == "pub"@ || w == "fn"@ {
                    (r matches Result::Ok(Option::Some(t)) && t@ == (SpecToken {
                        kind: SpecTokenKind::Reserved(reserved_of(w)),
                        start: p,
                        end: q - 1,
                    }) && final(self).lex_at() == q)
                } else {
                    r == Result::<Option<Token>, RudError>::Ok(Option::<Token>::None) && final(self).lex_at() == p
                }
            }),
    ;

    /// Emits a standard-function-name token when the word at the cursor
    /// spells one.
    fn try_get_rud_std_fn_token(&mut self) -> (r: Result<Option<Token>, RudError>)
        requires
            old(self).lex_wf(),
            old(self).lex_at() < old(self).lex_chars().len(),
        ensures
            final(self).lex_wf(),
            final(self).lex_chars() == old(self).lex_chars(),
            ({
                let chars = old(self).lex_chars();
                let p = old(self).lex_at();
                let q = word_end(chars, p);
                let w = chars.subrange(p, q);
                if chars[p] == '\n' {
                    r == Result::<Option<Token>, RudError>::Ok(Option::<Token>::None) && final(self).lex_at() == p
                } else if !word_break_ok(chars, q) {
                    r == Result::<Option<Token>, RudError>::Err(RudError::ScanFailure) && final(self).lex_at() == p
                } else if w == "puts"@ {
                    (r matches Result::Ok(Option::Some(t)) && t@ == (SpecToken {
                        kind: SpecTokenKind::RudStdFn(RudStdFn::Puts),
                        start: p,
                        end: q - 1,
                    }) && final(self).lex_at() == q)
                } else {
                    r == Result::<Option<Token>, RudError>::Ok(Option::<Token>::None) && final(self).lex_at() == p
                }
            }),
    ;

    /// Emits an identifier token for any non-empty word at the cursor.
    fn try_get_identifier_token(&mut self) -> (r: Result<Option<Token>, RudError>)
        requires
            old(self).lex_wf(),
            old(self).lex_at() < old(self).lex_chars().len(),
        ensures
            final(self).lex_wf(),
            final(self).lex_chars() == old(self).lex_chars(),
            ({
                let chars = old(self).lex_chars();
                let p = old(self).lex_at();
                let q = word_end(chars, p);
                let w = chars.subrange(p, q);
                if chars[p] == '\n' {
                    r == Result::<Option<Token>, RudError>::Ok(Option::<Token>::None) && final(self).lex_at() == p
                } else if !word_break_ok(chars, q) {
                    r == Result::<Option<Token>, RudError>::Err(RudError::ScanFailure) && final(self).lex_at() == p
                } else if q > p {
                    (r matches Result::Ok(Option::Some(t)) && t@ == (SpecToken {
                        kind: SpecTokenKind::Identifier(w),
                        start: p,
                        end: q - 1,
                    }) && final(self).lex_at() == q)
                } else {
                    r == Result::<Option<Token>, RudError>::Ok(Option::<Token>::None) && final(self).lex_at() == p
                }
            }),
    ;

    /// Consumes a double-quoted literal up to and including the closing
    /// quote and emits its inner text; a literal that never closes is an
    /// unterminated-literal failure.
    fn try_get_string_lit_token(&mut self) -> (r: Result<Option<Token>, RudError>)
        requires
            old(self).lex_wf(),
            old(self).lex_at() < old(self).lex_chars().len(),
        ensures
            final(self).lex_wf(),
            final(self).lex_chars() == old(self).lex_chars(),
            ({
                let chars = old(self).lex_chars();
                let p = old(self).lex_at();
                if chars[p] != '"' {
                    r == Result::<Option<Token>, RudError>::Ok(Option::<Token>::None) && final(self).lex_at() == p
                } else {
                    match close_quote(chars, p + 1) {
                        Option::None => r == Result::<Option<Token>, RudError>::Err(
                            RudError::UnterminatedLiteral,
                        ) && final(self).lex_at() == p,
                        Option::Some(e) => (r matches Result::Ok(Option::Some(t)) && t@
                            == (SpecToken {
                            kind: SpecTokenKind::StringLit(chars.subrange(p + 1, e)),
                            start: p,
                            end: e,
                        }) && final(self).lex_at() == e + 1),
                    }
                }
            }),
    ;

    /// Emits a width-one punctuation token for the three recognized
    /// symbols; any other character yields no token.
    fn try_get_punct_token(&mut self) -> (r: Option<Token>)
        requires
            old(self).lex_wf(),
            old(self).lex_at() < old(self).lex_chars().len(),
        ensures
            final(self).lex_wf(),
            final(self).lex_chars() == old(self).lex_chars(),
            ({
                let chars = old(self).lex_chars();
                let p = old(self).lex_at();
                let c = chars[p];
                if c == '(' {
                    r matches Option::Some(t) && t@ == (SpecToken {
                        kind: SpecTokenKind::Punct(Punct::LeftParenthesis),
                        start: p,
                        end: p,
                    }) && final(self).lex_at() == p + 1
                } else if c == ')' {
                    r matches Option::Some(t) && t@ == (SpecToken {
                        kind: SpecTokenKind::Punct(Punct::RightParenthesis),
                        start: p,
                        end: p,
                    }) && final(self).lex_at() == p + 1
                } else if c == '=' {
                    r matches Option::Some(t) && t@ == (SpecToken {
                        kind: SpecTokenKind::Punct(Punct::Assign),
                        start: p,
                        end: p,
                    }) && final(self).lex_at() == p + 1
                } else {
                    r is None && final(self).lex_at() == p
                }
            }),
    ;

    /// Consumes the whole buffer and returns the ordered token sequence,
    /// or the failure that stopped the scan.
    fn to_tokens(&mut self) -> (r: Result<Tokens, RudError>)
        requires
            old(self).lex_wf(),
        ensures
            final(self).lex_wf(),
            final(self).lex_chars() == old(self).lex_chars(),
            (r matches Result::Ok(toks) ==> scan_from(old(self).lex_chars(), old(self).lex_at())
                == Result::<Seq<SpecToken>, RudError>::Ok(toks_view(toks@)) && final(self).lex_at()
                == final(self).lex_chars().len()),
            (r matches Result::Err(e) ==> scan_from(old(self).lex_chars(), old(self).lex_at())
                == Result::<Seq<SpecToken>, RudError>::Err(e)),
    ;
}

impl Lexer for Source {
    closed spec fn lex_chars(&self) -> Seq<char> {
        self.code@.map_values(|c: Char| c@)
    }

    closed spec fn lex_at(&self) -> int {
        self.cursor.pos as int
    }

    closed spec fn lex_wf(&self) -> bool {
        self.len == self.code.len() && self.cursor.pos <= self.len
    }

    fn skip_whitespace(&mut self) {
        if self.is_whitespace() && !self.is_indent() && !self.is_line_term() {
            self.cursor.next();
        }
    }

    fn try_get_line_term_token(&mut self) -> (r: Option<Token>) {
        if self.is_line_term() {
            let pos = TokenPos::new(self.cursor.pos, self.cursor.pos);
            self.cursor.next();
            Option::Some(Token::new_line_term(pos))
        } else {
            Option::None
        }
    }

    fn try_get_indent_token(&mut self) -> (r: Option<Token>) {
        if self.is_indent() {
            let start = self.cursor.pos;
            self.cursor.pos = self.cursor.pos + 4;
            let end = self.cursor.pos - 1;
            Option::Some(Token::new_indent(TokenPos::new(start, end)))
        } else {
            Option::None
        }
    }

    fn try_get_reserved_token(&mut self) -> (r: Result<Option<Token>, RudError>) {
        if self.is_line_term() {
            return Result::Ok(Option::None);
        }
        let s = match self.peek_string() {
            Option::Some(s) => s,
            Option::None => {
                return Result::Err(RudError::ScanFailure);
            },
        };
        proof {
            lemma_word_end_bounds(self.lex_chars(), self.lex_at());
        }
        if Reserved::is_reserved_word(s.as_str()) {
            proof {
                reveal_strlit("pub");
                reveal_strlit("fn");
                lemma_word_end_bounds(self.lex_chars(), self.lex_at());
            }
            let start = self.cursor.pos;
            let w_len = s.as_str().unicode_len();
            self.cursor.pos = self.cursor.pos + w_len;
            let end = self.cursor.pos - 1;
            Result::Ok(
                Option::Some(
                    Token::new_reserved(Reserved::from(s.as_str()), TokenPos::new(start, end)),
                ),
            )
        } else {
            Result::Ok(Option::None)
        }
    }

    fn try_get_rud_std_fn_token(&mut self) -> (r: Result<Option<Token>, RudError>) {
        if self.is_line_term() {
            return Result::Ok(Option::None);
        }
        let s = match self.peek_string() {
            Option::Some(s) => s,
            Option::None => {
                return Result::Err(RudError::ScanFailure);
            },
        };
        proof {
            lemma_word_end_bounds(self.lex_chars(), self.lex_at());
        }
        if RudStdFn::is_rud_std_fn(s.as_str()) {
            proof {
                reveal_strlit("puts");
                lemma_word_end_bounds(self.lex_chars(), self.lex_at());
            }
            let start = self.cursor.pos;
            let w_len = s.as_str().unicode_len();
            self.cursor.pos = self.cursor.pos + w_len;
            let end = self.cursor.pos - 1;
            Result::Ok(
                Option::Some(
                    Token::new_rud_std_fn(RudStdFn::from(s.as_str()), TokenPos::new(start, end)),
                ),
            )
        } else {
            Result::Ok(Option::None)
        }
    }

    fn try_get_identifier_token(&mut self) -> (r: Result<Option<Token>, RudError>) {
        if self.is_line_term() {
            return Result::Ok(Option::None);
        }
        let s = match self.peek_string() {
            Option::Some(s) => s,
            Option::None => {
                return Result::Err(RudError::ScanFailure);
            },
        };
        proof {
            lemma_word_end_bounds(self.lex_chars(), self.lex_at());
        }
        let w_len = s.as_str().unicode_len();
        if w_len > 0 {
            proof {
                lemma_word_end_bounds(self.lex_chars(), self.lex_at());
            }
            let start = self.cursor.pos;
            self.cursor.pos = self.cursor.pos + w_len;
            let end = self.cursor.pos - 1;
            Result::Ok(Option::Some(Token::new_identifier(s, TokenPos::new(start, end))))
        } else {
            Result::Ok(Option::None)
        }
    }

    #[verifier::loop_isolation(false)]
    fn try_get_string_lit_token(&mut self) -> (r: Result<Option<Token>, RudError>) {
        let ghost chars = self.lex_chars();
        if !self.peek().is_double_quotation() {
            return Result::Ok(Option::None);
        }
        let start = self.cursor.pos;
        let mut p = start + 1;
        let mut s = String::new();
        proof {
            assert(chars.subrange(start + 1, start + 1) =~= s@);
        }
        while p < self.len
            invariant
                self.lex_wf(),
                chars == self.lex_chars(),
                self.lex_at() == start,
                start + 1 <= p <= chars.len(),
                s@ == chars.subrange(start + 1, p as int),
                close_quote(chars, start + 1) == close_quote(chars, p as int),
            decreases self.len - p,
        {
            let c = self.get_char(p);
            if c.is_double_quotation() {
                self.cursor.pos = p + 1;
                return Result::Ok(
                    Option::Some(Token::new_string_lit(s, TokenPos::new(start, p))),
                );
            }
            push_char(&mut s, c.to_char());
            p = p + 1;
            proof {
                assert(chars.subrange(start + 1, p as int) =~= chars.subrange(
                    start + 1,
                    p - 1,
                ).push(chars[p - 1]));
            }
        }
        Result::Err(RudError::UnterminatedLiteral)
    }

    fn try_get_punct_token(&mut self) -> (r: Option<Token>) {
        if !self.is_punct() {
            return Option::None;
        }
        let pos = TokenPos::new(self.cursor.pos, self.cursor.pos);
        let c = self.peek();
        let token = if c.is_left_parenthesis() {
            Option::Some(Token::new_punct(Punct::LeftParenthesis, pos))
        } else if c.is_right_parenthesis() {
            Option::Some(Token::new_punct(Punct::RightParenthesis, pos))
        } else if c.is_assign() {
            Option::Some(Token::new_punct(Punct::Assign, pos))
        } else {
            Option::None
        };
        if token.is_some() {
            self.cursor.next();
        }
        token
    }

    #[verifier::rlimit(60)]
    #[verifier::loop_isolation(false)]
    fn to_tokens(&mut self) -> (r: Result<Tokens, RudError>) {
        let ghost chars = old(self).lex_chars();
        let ghost at0 = old(self).lex_at();
        proof {
            reveal_strlit("pub");
            reveal_strlit("fn");
            reveal_strlit("puts");
        }
        let mut tokens: Tokens = Vec::new();
        while !self.is_end()
            invariant
                self.lex_wf(),
                self.lex_chars() == chars,
                scan_from(chars, at0) == scan_result_append(
                    toks_view(tokens@),
                    scan_from(chars, self.lex_at()),
                ),
            decreases chars.len() - self.lex_at(),
        {
            let ghost p = self.lex_at();
            let ghost pre = toks_view(tokens@);
            let before = self.cursor.pos;
            self.skip_whitespace();
            if self.cursor.pos != before {
                continue ;
            }
            proof {
                reveal_strlit("pub");
                reveal_strlit("fn");
                reveal_strlit("puts");
                lemma_word_end_bounds(chars, p);
            }
            if let Option::Some(token) = self.try_get_line_term_token() {
                proof {
                    lemma_scan_step(chars, at0, pre, token@, p, self.lex_at());
                    assert(toks_view(tokens@.push(token)) =~= pre.push(token@));
                }
                tokens.push(token);
                continue ;
            }
            if let Option::Some(token) = self.try_get_indent_token() {
                proof {
                    lemma_scan_step(chars, at0, pre, token@, p, self.lex_at());
                    assert(toks_view(tokens@.push(token)) =~= pre.push(token@));
                }
                tokens.push(token);
                continue ;
            }
            match self.try_get_reserved_token() {
                Result::Err(e) => {
                    return Result::Err(e);
                },
                Result::Ok(Option::Some(token)) => {
                    proof {
                        let q = word_end(chars, p);
                        let w = chars.subrange(p, q);
                        assert(!skip_at(chars, p));
                        assert(chars[p] != '\n');
                        assert(!indent_at(chars, p));
                        assert(word_break_ok(chars, q));
                        assert(w == "pub"@ || w == "fn"@);
                        assert(w.len() > 0);
                        assert(q > p);
                        assert(token@ == scan_word_token(w, p, q));
                        assert(self.lex_at() == q);
                        assert(scan_from(chars, p) == scan_cons(token@, scan_from(chars, q)));
                        lemma_scan_step(chars, at0, pre, token@, p, self.lex_at());
                        assert(toks_view(tokens@.push(token)) =~= pre.push(token@));
                    }
                    tokens.push(token);
                    continue ;
                },
                Result::Ok(Option::None) => {},
            }
            match self.try_get_rud_std_fn_token() {
                Result::Err(e) => {
                    return Result::Err(e);
                },
                Result::Ok(Option::Some(token)) => {
                    proof {
                        let q = word_end(chars, p);
                        let w = chars.subrange(p, q);
                        assert(chars[p] != '\n');
                        assert(word_break_ok(chars, q));
                        assert(!(w == "pub"@ || w == "fn"@));
                        assert(w == "puts"@);
                        assert(q > p);
                        assert(token@ == scan_word_token(w, p, q));
                        assert(self.lex_at() == q);
                        assert(scan_from(chars, p) == scan_cons(token@, scan_from(chars, q)));
                        lemma_scan_step(chars, at0, pre, token@, p, self.lex_at());
                        assert(toks_view(tokens@.push(token)) =~= pre.push(token@));
                    }
                    tokens.push(token);
                    continue ;
                },
                Result::Ok(Option::None) => {},
            }
            match self.try_get_identifier_token() {
                Result::Err(e) => {
                    return Result::Err(e);
                },
                Result::Ok(Option::Some(token)) => {
                    proof {
                        let q = word_end(chars, p);
                        let w = chars.subrange(p, q);
                        assert(chars[p] != '\n');
                        assert(word_break_ok(chars, q));
                        assert(!(w == "pub"@ || w == "fn"@));
                        assert(w != "puts"@);
                        assert(q > p);
                        assert(token@ == scan_word_token(w, p, q));
                        assert(self.lex_at() == q);
                        assert(scan_from(chars, p) == scan_cons(token@, scan_from(chars, q)));
                        lemma_scan_step(chars, at0, pre, token@, p, self.lex_at());
                        assert(toks_view(tokens@.push(token)) =~= pre.push(token@));
                    }
                    tokens.push(token);
                    continue ;
                },
                Result::Ok(Option::None) => {},
            }
            match self.try_get_string_lit_token() {
                Result::Err(e) => {
                    return Result::Err(e);
                },
                Result::Ok(Option::Some(token)) => {
                    proof {
                        let q = word_end(chars, p);
                        assert(chars[p] != '\n');
                        assert(word_break_ok(chars, q));
                        assert(q == p);
                        assert(chars[p] == '"');
                        assert(close_quote(chars, p + 1) is Some);
                        lemma_close_quote_bounds(chars, p + 1);
                        let e = close_quote(chars, p + 1)->0;
                        assert(token@ == (SpecToken {
                            kind: SpecTokenKind::StringLit(chars.subrange(p + 1, e)),
                            start: p,
                            end: e,
                        }));
                        assert(self.lex_at() == e + 1);
                        assert(scan_from(chars, p) == scan_cons(token@, scan_from(chars, e + 1)));
                        lemma_scan_step(chars, at0, pre, token@, p, self.lex_at());
                        assert(toks_view(tokens@.push(token)) =~= pre.push(token@));
                    }
                    tokens.push(token);
                    continue ;
                },
                Result::Ok(Option::None) => {},
            }
            if let Option::Some(token) = self.try_get_punct_token() {
                proof {
                    let q = word_end(chars, p);
                    assert(chars[p] != '\n');
                    assert(word_break_ok(chars, q));
                    assert(q == p);
                    assert(chars[p] == '(' || chars[p] == ')' || chars[p] == '=');
                    assert(scan_from(chars, p) == scan_cons(token@, scan_from(chars, p + 1)));
                    lemma_scan_step(chars, at0, pre, token@, p, self.lex_at());
                    assert(toks_view(tokens@.push(token)) =~= pre.push(token@));
                }
                tokens.push(token);
                continue ;
            }
            proof {
                assert(scan_from(chars, p) == Result::<Seq<SpecToken>, RudError>::Err(
                    RudError::ScanFailure,
                ));
            }
            return Result::Err(RudError::ScanFailure);
        }
        proof {
            assert(toks_view(tokens@) + Seq::<SpecToken>::empty() =~= toks_view(tokens@));
        }
        Result::Ok(tokens)
    }
}

} // verus!
