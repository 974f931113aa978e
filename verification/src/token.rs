use vstd::prelude::*;
use vstd::string::*;
use crate::node::{self, type_of_name, Node, NodeList, RudArg, RudType, UserDefinedFn};
use crate::error::RudError;

verus! {

/// Character-for-character comparison of two string slices.
pub fn str_eq(a: &str, b: &str) -> (r: bool)
    ensures
        r == (a@ == b@),
{
    let n = a.unicode_len();
    if n != b.unicode_len() {
        proof {
            assert(a@.len() != b@.len());
        }
        return false;
    }
    let mut i: usize = 0;
    while i < n
        invariant
            n == a@.len(),
            n == b@.len(),
            i <= n,
            forall|j: int| 0 <= j < i ==> a@[j] == b@[j],
        decreases n - i,
    {
        if a.get_char(i) != b.get_char(i) {
            return false;
        }
        i = i + 1;
    }
    proof {
        assert(a@ =~= b@);
    }
    true
}

/// The punctuation symbols the language knows of.
#[derive(Debug, Clone, Copy, PartialEq, Eq)]
pub enum Punct {
    LeftParenthesis,  // (
    RightParenthesis,  // )
    Colon,  // :
    Comma,  // ,
    Assign,  // =
    Plus,  // +
    Minus,  // -
    Mul,  // *
    Div,  // /
    Gt,  // >
    Lt,  // <
    Gteq,  // >=
    Lteq,  // <=
}

/// The reserved words of the language.
#[derive(Debug, Clone, Copy, PartialEq, Eq)]
pub enum Reserved {
    Pub,
    Fn,
}

/// Which reserved word a keyword spelling denotes.
pub open spec fn reserved_of(w: Seq<char>) -> Reserved {
    if w == "pub"@ {
        Reserved::Pub
    } else {
        Reserved::Fn
    }
}

impl Reserved {
    pub fn is_reserved_word(s: &str) -> (r: bool)
        ensures
            r == (s@ == "pub"@ || s@ == "fn"@),
    {
        str_eq(s, "pub") || str_eq(s, "fn")
    }

    pub fn from(s: &str) -> (r: Reserved)
        requires
            s@ == "pub"@ || s@ == "fn"@,
        ensures
            r == reserved_of(s@),
    {
        if str_eq(s, "pub") {
            Reserved::Pub
        } else {
            Reserved::Fn
        }
    }
}

/// The standard functions recognized by name during lexing.
#[derive(Debug, Clone, Copy, PartialEq, Eq)]
pub enum RudStdFn {
    Puts,
}

impl RudStdFn {
    pub fn is_rud_std_fn(s: &str) -> (r: bool)
        ensures
            r == (s@ == "puts"@),
    {
        str_eq(s, "puts")
    }

    pub fn from(s: &str) -> (r: RudStdFn)
        requires
            s@ == "puts"@,
        ensures
            r == RudStdFn::Puts,
    {
        RudStdFn::Puts
    }
}

/// A lexical unit: its classification and, for identifiers and string
/// literals, the carried text.
#[derive(Debug, Clone, PartialEq)]
pub enum TokenKind {
    Indent,
    Reserved(Reserved),
    Punct(Punct),
    Identifier(String),
    StringLit(String),
    RudStdFn(RudStdFn),
    LineTerm,
}

/// The mathematical value of a token kind: text is a character sequence.
pub enum SpecTokenKind {
    Indent,
    Reserved(Reserved),
    Punct(Punct),
    Identifier(Seq<char>),
    StringLit(Seq<char>),
    RudStdFn(RudStdFn),
    LineTerm,
}

impl View for TokenKind {
    type V = SpecTokenKind;

    open spec fn view(&self) -> SpecTokenKind {
        match self {
            TokenKind::Indent => SpecTokenKind::Indent,
            TokenKind::Reserved(r) => SpecTokenKind::Reserved(*r),
            TokenKind::Punct(p) => SpecTokenKind::Punct(*p),
            TokenKind::Identifier(s) => SpecTokenKind::Identifier(s@),
            TokenKind::StringLit(s) => SpecTokenKind::StringLit(s@),
            TokenKind::RudStdFn(f) => SpecTokenKind::RudStdFn(*f),
            TokenKind::LineTerm => SpecTokenKind::LineTerm,
        }
    }
}

impl TokenKind {
    pub fn is_indent(&self) -> (r: bool)
        ensures
            r == (self@ is Indent),
    {
        matches!(self, TokenKind::Indent)
    }

    pub fn is_public(&self) -> (r: bool)
        ensures
            r == (self@ == SpecTokenKind::Reserved(Reserved::Pub)),
    {
        matches!(self, TokenKind::Reserved(Reserved::Pub))
    }

    pub fn is_fn(&self) -> (r: bool)
        ensures
            r == (self@ == SpecTokenKind::Reserved(Reserved::Fn)),
    {
        matches!(self, TokenKind::Reserved(Reserved::Fn))
    }

    pub fn is_right_parenthesis(&self) -> (r: bool)
        ensures
            r == (self@ == SpecTokenKind::Punct(Punct::RightParenthesis)),
    {
        matches!(self, TokenKind::Punct(Punct::RightParenthesis))
    }

    pub fn is_comma(&self) -> (r: bool)
        ensures
            r == (self@ == SpecTokenKind::Punct(Punct::Comma)),
    {
        matches!(self, TokenKind::Punct(Punct::Comma))
    }

    pub fn is_colon(&self) -> (r: bool)
        ensures
            r == (self@ == SpecTokenKind::Punct(Punct::Colon)),
    {
        matches!(self, TokenKind::Punct(Punct::Colon))
    }

    pub fn is_identifier(&self) -> (r: bool)
        ensures
            r == (self@ is Identifier),
    {
        matches!(self, TokenKind::Identifier(_))
    }

    pub fn is_string_lit(&self) -> (r: bool)
        ensures
            r == (self@ is StringLit),
    {
        matches!(self, TokenKind::StringLit(_))
    }

    pub fn is_rud_std_fn(&self) -> (r: bool)
        ensures
            r == (self@ is RudStdFn),
    {
        matches!(self, TokenKind::RudStdFn(_))
    }

    pub fn is_line_term(&self) -> (r: bool)
        ensures
            r == (self@ is LineTerm),
    {
        matches!(self, TokenKind::LineTerm)
    }
}

impl TokenKind {
    pub fn try_get_identifier_name(&self) -> (r: &String)
        requires
            self@ is Identifier,
        ensures
            self@ == SpecTokenKind::Identifier(r@),
    {
        match self {
            TokenKind::Identifier(name) => name,
            _ => vstd::pervasive::unreached(),
        }
    }

    pub fn try_get_idnetifier_type(&self) -> (r: RudType)
        requires
            self@ is Identifier,
        ensures
            self@ matches SpecTokenKind::Identifier(w) && r == type_of_name(w),
    {
        match self {
            TokenKind::Identifier(rud_type) => RudType::try_from(rud_type.as_str()).unwrap(),
            _ => vstd::pervasive::unreached(),
        }
    }

    pub fn try_get_rud_std_fn_name(&self) -> (r: &RudStdFn)
        requires
            self@ is RudStdFn,
        ensures
            self@ == SpecTokenKind::RudStdFn(*r),
    {
        match self {
            TokenKind::RudStdFn(rud_std_fn) => rud_std_fn,
            _ => vstd::pervasive::unreached(),
        }
    }
}

/// The character-offset span of a token, inclusive on both ends.
#[derive(Debug, Clone, PartialEq)]
pub struct TokenPos {
    pub start: usize,
    pub end: usize,
}

impl TokenPos {
    pub fn new(start: usize, end: usize) -> (r: TokenPos)
        ensures
            r == (TokenPos { start, end }),
    {
        TokenPos { start, end }
    }
}

/// A classified, positioned unit of source text.
#[derive(Debug, Clone, PartialEq)]
pub struct Token {
    pub kind: TokenKind,
    pub pos: TokenPos,
}

/// The mathematical value of a token.
pub struct SpecToken {
    pub kind: SpecTokenKind,
    pub start: int,
    pub end: int,
}

impl View for Token {
    type V = SpecToken;

    open spec fn view(&self) -> SpecToken {
        SpecToken { kind: self.kind@, start: self.pos.start as int, end: self.pos.end as int }
    }
}

impl Token {
    #[inline]
    fn new(kind: TokenKind, pos: TokenPos) -> (r: Token)
        ensures
            r == (Token { kind, pos }),
    {
        Token { kind, pos }
    }
}

impl Token {
    pub fn new_indent(pos: TokenPos) -> (r: Token)
        ensures
            r == (Token { kind: TokenKind::Indent, pos }),
    {
        Token::new(TokenKind::Indent, pos)
    }

    pub fn new_reserved(reserved: Reserved, pos: TokenPos) -> (r: Token)
        ensures
            r == (Token { kind: TokenKind::Reserved(reserved), pos }),
    {
        Token::new(TokenKind::Reserved(reserved), pos)
    }

    pub fn new_punct(punct: Punct, pos: TokenPos) -> (r: Token)
        ensures
            r == (Token { kind: TokenKind::Punct(punct), pos }),
    {
        Token::new(TokenKind::Punct(punct), pos)
    }

    pub fn new_identifier(identifier: String, pos: TokenPos) -> (r: Token)
        ensures
            r@ == (SpecToken {
                kind: SpecTokenKind::Identifier(identifier@),
                start: pos.start as int,
                end: pos.end as int,
            }),
    {
        Token::new(TokenKind::Identifier(identifier), pos)
    }

    pub fn new_string_lit(string_lit: String, pos: TokenPos) -> (r: Token)
        ensures
            r@ == (SpecToken {
                kind: SpecTokenKind::StringLit(string_lit@),
                start: pos.start as int,
                end: pos.end as int,
            }),
    {
        Token::new(TokenKind::StringLit(string_lit), pos)
    }

    pub fn new_rud_std_fn(rud_std_fn: RudStdFn, pos: TokenPos) -> (r: Token)
        ensures
            r == (Token { kind: TokenKind::RudStdFn(rud_std_fn), pos }),
    {
        Token::new(TokenKind::RudStdFn(rud_std_fn), pos)
    }

    pub fn new_line_term(pos: TokenPos) -> (r: Token)
        ensures
            r == (Token { kind: TokenKind::LineTerm, pos }),
    {
        Token::new(TokenKind::LineTerm, pos)
    }
}

pub type Tokens = Vec<Token>;

pub type SplitedTokens = Vec<Tokens>;

/// The mathematical value of a token sequence.
pub open spec fn toks_view(ts: Seq<Token>) -> Seq<SpecToken> {
    ts.map_values(|t: Token| t@)
}

/// The mathematical value of a sequence of token groups.
pub open spec fn split_view(gs: Seq<Tokens>) -> Seq<Seq<SpecToken>> {
    gs.map_values(|g: Tokens| toks_view(g@))
}

/// The mathematical value of a parse result.
pub open spec fn node_result_view(r: Result<Node, RudError>) -> Result<
    crate::node::SpecNode,
    RudError,
> {
    match r {
        Result::Ok(n) => Result::Ok(crate::node::node_view(n)),
        Result::Err(e) => Result::Err(e),
    }
}

/// A group boundary: the previous token ended a logical line and the
/// current one is neither an indent nor a further line terminator.
pub open spec fn is_boundary(ts: Seq<SpecToken>, j: int) -> bool {
    &&& 0 < j < ts.len()
    &&& ts[j - 1].kind is LineTerm
    &&& !(ts[j].kind is Indent)
    &&& !(ts[j].kind is LineTerm)
}

/// The first boundary at or after `i`, or the sequence's length.
pub open spec fn next_boundary(ts: Seq<SpecToken>, i: int) -> int
    decreases ts.len() - i,
{
    if i >= ts.len() {
        ts.len() as int
    } else if is_boundary(ts, i) {
        i
    } else {
        next_boundary(ts, i + 1)
    }
}

pub proof fn lemma_next_boundary_bounds(ts: Seq<SpecToken>, i: int)
    requires
        0 <= i <= ts.len(),
    ensures
        i <= next_boundary(ts, i) <= ts.len(),
    decreases ts.len() - i,
{
    if i < ts.len() && !is_boundary(ts, i) {
        lemma_next_boundary_bounds(ts, i + 1);
    }
}

/// The partition of a token sequence into logical lines, starting at `j`.
pub open spec fn split_from(ts: Seq<SpecToken>, j: int) -> Seq<Seq<SpecToken>>
    decreases ts.len() - j,
    via split_from_decreases
{
    if j < 0 || j >= ts.len() {
        Seq::empty()
    } else {
        seq![ts.subrange(j, next_boundary(ts, j + 1))] + split_from(ts, next_boundary(ts, j + 1))
    }
}

#[via_fn]
proof fn split_from_decreases(ts: Seq<SpecToken>, j: int) {
    if 0 <= j && j < ts.len() {
        lemma_next_boundary_bounds(ts, j + 1);
    }
}

/// The partition of a whole token sequence into logical lines.
pub open spec fn split_spec(ts: Seq<SpecToken>) -> Seq<Seq<SpecToken>> {
    split_from(ts, 0)
}

/// When no boundary lies in `[i, b)` and `b` is a boundary or the end,
/// `b` is exactly the next boundary from `i`.
pub proof fn lemma_next_boundary_exact(ts: Seq<SpecToken>, i: int, b: int)
    requires
        0 <= i <= b <= ts.len(),
        forall|k: int| i <= k < b ==> !is_boundary(ts, k),
        b == ts.len() || is_boundary(ts, b),
    ensures
        next_boundary(ts, i) == b,
    decreases b - i,
{
    if i < b {
        lemma_next_boundary_exact(ts, i + 1, b);
    }
}

/// The parse of a standalone standard-function call: exactly a name, an
/// opening parenthesis, one string literal, and a closing parenthesis.
pub open spec fn parse_call_spec(ts: Seq<SpecToken>) -> Result<crate::node::SpecNode, RudError> {
    if ts.len() == 4 && (ts[0].kind is RudStdFn) && ts[1].kind == SpecTokenKind::Punct(
        Punct::LeftParenthesis,
    ) && (ts[2].kind is StringLit) && ts[3].kind == SpecTokenKind::Punct(
        Punct::RightParenthesis,
    ) {
        match ts[2].kind {
            SpecTokenKind::StringLit(s) => Result::Ok(crate::node::SpecNode::RudStdFn(s)),
            _ => Result::Err(RudError::ShapeMismatch),
        }
    } else {
        Result::Err(RudError::ShapeMismatch)
    }
}

/// The parse of a parameter list from position `p` up to and past the
/// closing parenthesis: `(name type)` pairs, optionally comma-separated.
pub open spec fn parse_args_spec(ts: Seq<SpecToken>, p: int) -> Result<
    (Seq<crate::node::SpecArg>, int),
    RudError,
>
    decreases ts.len() - p,
{
    if p < 0 || p >= ts.len() {
        Result::Err(RudError::ShapeMismatch)
    } else if ts[p].kind == SpecTokenKind::Punct(Punct::RightParenthesis) {
        Result::Ok((Seq::empty(), p + 1))
    } else {
        match ts[p].kind {
            SpecTokenKind::Identifier(name) => {
                if p + 1 >= ts.len() {
                    Result::Err(RudError::ShapeMismatch)
                } else {
                    match ts[p + 1].kind {
                        SpecTokenKind::Identifier(tyname) => {
                            if p + 2 >= ts.len() {
                                Result::Err(RudError::ShapeMismatch)
                            } else {
                                let q = if ts[p + 2].kind == SpecTokenKind::Punct(Punct::Comma) {
                                    p + 3
                                } else {
                                    p + 2
                                };
                                match parse_args_spec(ts, q) {
                                    Result::Ok((rest, e)) => Result::Ok(
                                        (
                                            seq![
                                                crate::node::SpecArg {
                                                    name,
                                                    rud_type: type_of_name(tyname),
                                                },
                                            ] + rest,
                                            e,
                                        ),
                                    ),
                                    Result::Err(err) => Result::Err(err),
                                }
                            }
                        },
                        _ => Result::Err(RudError::ShapeMismatch),
                    }
                }
            },
            _ => Result::Err(RudError::ShapeMismatch),
        }
    }
}

/// The parse of an optional `: type` return-type annotation.
pub open spec fn parse_ret_spec(ts: Seq<SpecToken>, p: int) -> Result<(RudType, int), RudError> {
    if p >= ts.len() {
        Result::Err(RudError::ShapeMismatch)
    } else if ts[p].kind == SpecTokenKind::Punct(Punct::Colon) {
        if p + 1 >= ts.len() {
            Result::Err(RudError::ShapeMismatch)
        } else {
            match ts[p + 1].kind {
                SpecTokenKind::Identifier(w) => Result::Ok((type_of_name(w), p + 2)),
                _ => Result::Err(RudError::ShapeMismatch),
            }
        }
    } else {
        Result::Ok((RudType::NoType, p))
    }
}

/// The mandatory assignment symbol before the body.
pub open spec fn parse_assign_spec(ts: Seq<SpecToken>, p: int) -> Result<int, RudError> {
    if p >= ts.len() || ts[p].kind != SpecTokenKind::Punct(Punct::Assign) {
        Result::Err(RudError::ShapeMismatch)
    } else {
        Result::Ok(p + 1)
    }
}

/// After the assignment symbol: a line terminator must be followed by an
/// indent; a one-line body starts immediately.
pub open spec fn parse_body_start_spec(ts: Seq<SpecToken>, p: int) -> Result<int, RudError> {
    if p >= ts.len() {
        Result::Err(RudError::ShapeMismatch)
    } else if ts[p].kind is LineTerm {
        if p + 1 >= ts.len() {
            Result::Err(RudError::ShapeMismatch)
        } else if ts[p + 1].kind is Indent {
            Result::Ok(p + 2)
        } else {
            Result::Err(RudError::ShapeMismatch)
        }
    } else {
        Result::Ok(p)
    }
}

/// The first closing parenthesis at or after `i`, if any.
pub open spec fn find_rparen_spec(ts: Seq<SpecToken>, i: int) -> Option<int>
    decreases ts.len() - i,
{
    if i >= ts.len() {
        Option::None
    } else if ts[i].kind == SpecTokenKind::Punct(Punct::RightParenthesis) {
        Option::Some(i)
    } else {
        find_rparen_spec(ts, i + 1)
    }
}

/// The body of a function definition: zero or one standard-function call,
/// read up to the call's closing parenthesis.
pub open spec fn parse_body_spec(ts: Seq<SpecToken>, p: int) -> Result<
    Seq<crate::node::SpecNode>,
    RudError,
> {
    match parse_body_start_spec(ts, p) {
        Result::Err(e) => Result::Err(e),
        Result::Ok(q) => {
            if q >= ts.len() {
                Result::Err(RudError::ShapeMismatch)
            } else if ts[q].kind is RudStdFn {
                if q + 1 >= ts.len() {
                    Result::Err(RudError::ShapeMismatch)
                } else {
                    match find_rparen_spec(ts, q + 2) {
                        Option::None => Result::Err(RudError::ShapeMismatch),
                        Option::Some(r) => match parse_call_spec(ts.subrange(q, r + 1)) {
                            Result::Err(e) => Result::Err(e),
                            Result::Ok(n) => Result::Ok(seq![n]),
                        },
                    }
                }
            } else {
                Result::Ok(Seq::empty())
            }
        },
    }
}

/// The tail of a function definition after the parameter list: return
/// type, assignment symbol, body.
pub open spec fn parse_fn_tail_spec(
    ts: Seq<SpecToken>,
    p: int,
    is_public: bool,
    name: Seq<char>,
    args: Seq<crate::node::SpecArg>,
) -> Result<crate::node::SpecNode, RudError> {
    match parse_ret_spec(ts, p) {
        Result::Err(e) => Result::Err(e),
        Result::Ok((rt, p1)) => match parse_assign_spec(ts, p1) {
            Result::Err(e) => Result::Err(e),
            Result::Ok(p2) => match parse_body_spec(ts, p2) {
                Result::Err(e) => Result::Err(e),
                Result::Ok(inner) => Result::Ok(
                    crate::node::SpecNode::UserDefinedFn(
                        crate::node::SpecUserFn { is_public, name, args, return_type: rt, inner },
                    ),
                ),
            },
        },
    }
}

/// The parse of a whole function definition token run.
pub open spec fn parse_fn_spec(ts: Seq<SpecToken>) -> Result<crate::node::SpecNode, RudError> {
    if ts.len() == 0 {
        Result::Err(RudError::ShapeMismatch)
    } else {
        let is_public = ts[0].kind == SpecTokenKind::Reserved(Reserved::Pub);
        let p_fn: int = if is_public {
            1
        } else {
            0
        };
        if p_fn >= ts.len() || ts[p_fn].kind != SpecTokenKind::Reserved(Reserved::Fn) {
            Result::Err(RudError::ShapeMismatch)
        } else if p_fn + 1 >= ts.len() {
            Result::Err(RudError::ShapeMismatch)
        } else {
            match ts[p_fn + 1].kind {
                SpecTokenKind::Identifier(name) => {
                    if p_fn + 2 >= ts.len() || ts[p_fn + 2].kind != SpecTokenKind::Punct(
                        Punct::LeftParenthesis,
                    ) {
                        Result::Err(RudError::ShapeMismatch)
                    } else {
                        match parse_args_spec(ts, p_fn + 3) {
                            Result::Err(e) => Result::Err(e),
                            Result::Ok((args, p_after)) => parse_fn_tail_spec(
                                ts,
                                p_after,
                                is_public,
                                name,
                                args,
                            ),
                        }
                    }
                },
                _ => Result::Err(RudError::ShapeMismatch),
            }
        }
    }
}

/// Gathered parameters prepend one at a time.
pub proof fn lemma_args_push_assoc(
    a: Seq<crate::node::SpecArg>,
    b: Seq<crate::node::SpecArg>,
    r: Result<(Seq<crate::node::SpecArg>, int), RudError>,
)
    ensures
        args_result_push(a, args_result_push(b, r)) == args_result_push(a + b, r),
{
    match r {
        Result::Ok((rest, e)) => {
            assert(a + (b + rest) =~= (a + b) + rest);
        },
        Result::Err(_) => {
        },
    }
}

/// Prepends already-gathered parameters to the outcome of the remaining
/// parameter-list parse.
pub open spec fn args_result_push(
    acc: Seq<crate::node::SpecArg>,
    r: Result<(Seq<crate::node::SpecArg>, int), RudError>,
) -> Result<(Seq<crate::node::SpecArg>, int), RudError> {
    match r {
        Result::Ok((rest, e)) => Result::Ok((acc + rest, e)),
        Result::Err(err) => Result::Err(err),
    }
}

/// Syntactic analysis over a pre-scanned token run.
pub trait Parse: Sized {
    /// The mathematical value of the token run.
    spec fn toks(&self) -> Seq<SpecToken>;

    /// Partitions the run into logical lines: a group ends at the first
    /// token after a line terminator that is neither an indent nor a
    /// further line terminator.  Concatenating the groups in order
    /// reproduces the run exactly.
    fn split(self) -> (r: SplitedTokens)
        ensures
            split_view(r@) == split_spec(self.toks()),
    ;

    /// Parses the run as a standalone standard-function call.
    fn to_rud_std_fn_node(self) -> (r: Result<Node, RudError>)
        ensures
            node_result_view(r) == parse_call_spec(self.toks()),
    ;

    /// Parses the run as a user-defined function definition.
    fn to_user_defined_fn(self) -> (r: Result<Node, RudError>)
        ensures
            node_result_view(r) == parse_fn_spec(self.toks()),
    ;
}

impl Parse for Tokens {
    open spec fn toks(&self) -> Seq<SpecToken> {
        toks_view(self@)
    }

    fn split(self) -> (r: SplitedTokens) {
        let ghost all = self@;
        let ghost sts = toks_view(self@);
        let mut last_type_is_line_term = false;
        let mut splited_tokens: SplitedTokens = Vec::new();
        let mut scrap: Tokens = Vec::new();
        let mut rest = self;
        let ghost mut g: int = 0;
        while rest.len() > 0
            invariant
                sts == toks_view(all),
                all.len() >= rest.len(),
                rest@ == all.subrange(all.len() - rest.len(), all.len() as int),
                0 <= g <= all.len() - rest.len(),
                scrap@ == all.subrange(g, all.len() - rest.len()),
                last_type_is_line_term == (all.len() - rest.len() > 0 && sts[all.len()
                    - rest.len() - 1].kind is LineTerm),
                forall|k: int| g < k < all.len() - rest.len() ==> !is_boundary(sts, k),
                scrap.len() == 0 ==> g == all.len() - rest.len(),
                all.len() - rest.len() > 0 ==> scrap.len() > 0,
                split_from(sts, 0) == split_view(splited_tokens@) + split_from(sts, g),
            decreases rest.len(),
        {
            let ghost i = all.len() - rest.len();
            let token = rest.remove(0);
            proof {
                assert(token == all[i]);
                assert(rest@ =~= all.subrange(i + 1, all.len() as int));
                assert(sts[i] == all[i]@);
            }
            if last_type_is_line_term && !token.kind.is_indent() && !token.kind.is_line_term() {
                proof {
                    assert(is_boundary(sts, i));
                    assert(scrap.len() > 0);
                    lemma_next_boundary_exact(sts, g + 1, i);
                    assert(toks_view(scrap@) =~= sts.subrange(g, i));
                    assert(split_view(splited_tokens@.push(scrap)) =~= split_view(
                        splited_tokens@,
                    ).push(toks_view(scrap@)));
                    assert(split_from(sts, g) == seq![sts.subrange(g, i)] + split_from(sts, i));
                    assert(split_view(splited_tokens@.push(scrap)) + split_from(sts, i)
                        =~= split_view(splited_tokens@) + split_from(sts, g));
                }
                splited_tokens.push(scrap);
                scrap = Vec::new();
                proof {
                    g = i;
                }
            }
            last_type_is_line_term = token.kind.is_line_term();
            scrap.push(token);
            proof {
                assert(scrap@ =~= all.subrange(g, i + 1));
            }
        }
        if scrap.len() > 0 {
            proof {
                let i = all.len() as int;
                assert(g < i);
                lemma_next_boundary_exact(sts, g + 1, i);
                assert(split_from(sts, g) == seq![sts.subrange(g, i)] + split_from(sts, i));
                assert(split_from(sts, i) =~= Seq::<Seq<SpecToken>>::empty());
                assert(toks_view(scrap@) =~= sts.subrange(g, i));
                assert(split_view(splited_tokens@.push(scrap)) =~= split_view(splited_tokens@)
                    + seq![sts.subrange(g, i)]);
                assert(split_view(splited_tokens@.push(scrap)) =~= split_from(sts, 0));
            }
            splited_tokens.push(scrap);
        } else {
            proof {
                assert(split_from(sts, g) =~= Seq::<Seq<SpecToken>>::empty());
                assert(split_view(splited_tokens@) =~= split_from(sts, 0));
            }
        }
        splited_tokens
    }

    fn to_rud_std_fn_node(self) -> (r: Result<Node, RudError>) {
        if self.len() != 4 {
            return Result::Err(RudError::ShapeMismatch);
        }
        if !self[0].kind.is_rud_std_fn() {
            return Result::Err(RudError::ShapeMismatch);
        }
        if !matches!(&self[1].kind, TokenKind::Punct(Punct::LeftParenthesis)) {
            return Result::Err(RudError::ShapeMismatch);
        }
        let string_lit = match &self[2].kind {
            TokenKind::StringLit(s) => s.clone(),
            _ => {
                return Result::Err(RudError::ShapeMismatch);
            },
        };
        if !matches!(&self[3].kind, TokenKind::Punct(Punct::RightParenthesis)) {
            return Result::Err(RudError::ShapeMismatch);
        }
        let rsf = node::RudStdFn::new_from_string(string_lit.as_str());
        Result::Ok(Node::RudStdFn(rsf))
    }

    #[verifier::rlimit(60)]
    #[verifier::loop_isolation(false)]
    fn to_user_defined_fn(self) -> (r: Result<Node, RudError>) {
        let ghost ts = toks_view(self@);
        let n = self.len();
        if n == 0 {
            return Result::Err(RudError::ShapeMismatch);
        }
        let function_is_public = self[0].kind.is_public();
        let mut pos: usize = 0;
        if function_is_public {
            pos = 1;
        }
        if pos >= n || !self[pos].kind.is_fn() {
            return Result::Err(RudError::ShapeMismatch);
        }
        pos = pos + 1;
        if pos >= n {
            return Result::Err(RudError::ShapeMismatch);
        }
        let function_name = match &self[pos].kind {
            TokenKind::Identifier(s) => s.clone(),
            _ => {
                return Result::Err(RudError::ShapeMismatch);
            },
        };
        pos = pos + 1;
        if pos >= n || !matches!(&self[pos].kind, TokenKind::Punct(Punct::LeftParenthesis)) {
            return Result::Err(RudError::ShapeMismatch);
        }
        pos = pos + 1;
        let ghost p_args0: int = pos as int;
        let mut args: Vec<RudArg> = Vec::new();
        while pos < n && !self[pos].kind.is_right_parenthesis()
            invariant
                n == self.len(),
                ts == toks_view(self@),
                pos <= n,
                args_result_push(
                    args@.map_values(|a: RudArg| a@),
                    parse_args_spec(ts, pos as int),
                ) == parse_args_spec(ts, p_args0),
            decreases n - pos,
        {
            let ghost p = pos as int;
            let ghost acc = args@.map_values(|a: RudArg| a@);
            let arg_name = match &self[pos].kind {
                TokenKind::Identifier(s) => s.clone(),
                _ => {
                    return Result::Err(RudError::ShapeMismatch);
                },
            };
            pos = pos + 1;
            if pos >= n {
                return Result::Err(RudError::ShapeMismatch);
            }
            if !self[pos].kind.is_identifier() {
                return Result::Err(RudError::ShapeMismatch);
            }
            let arg_type = self[pos].kind.try_get_idnetifier_type();
            pos = pos + 1;
            if pos >= n {
                return Result::Err(RudError::ShapeMismatch);
            }
            if self[pos].kind.is_comma() {
                pos = pos + 1;
            }
            let arg = RudArg::new(arg_name.as_str(), arg_type);
            args.push(arg);
            proof {
                let one = seq![arg@];
                assert(parse_args_spec(ts, p) == args_result_push(
                    one,
                    parse_args_spec(ts, pos as int),
                ));
                lemma_args_push_assoc(acc, one, parse_args_spec(ts, pos as int));
                assert(args@.map_values(|a: RudArg| a@) =~= acc + one);
            }
        }
        if !(pos < n) {
            return Result::Err(RudError::ShapeMismatch);
        }
        proof {
            assert(parse_args_spec(ts, pos as int) == Result::<
                (Seq<crate::node::SpecArg>, int),
                RudError,
            >::Ok((Seq::empty(), pos as int + 1)));
            assert(args@.map_values(|a: RudArg| a@) + Seq::<crate::node::SpecArg>::empty()
                =~= args@.map_values(|a: RudArg| a@));
        }
        pos = pos + 1;
        let ghost p_tail: int = pos as int;
        if pos >= n {
            return Result::Err(RudError::ShapeMismatch);
        }
        let mut return_type = RudType::NoType;
        if self[pos].kind.is_colon() {
            pos = pos + 1;
            if pos >= n {
                return Result::Err(RudError::ShapeMismatch);
            }
            if !self[pos].kind.is_identifier() {
                return Result::Err(RudError::ShapeMismatch);
            }
            return_type = self[pos].kind.try_get_idnetifier_type();
            pos = pos + 1;
        }
        if pos >= n || !matches!(&self[pos].kind, TokenKind::Punct(Punct::Assign)) {
            return Result::Err(RudError::ShapeMismatch);
        }
        pos = pos + 1;
        if pos >= n {
            return Result::Err(RudError::ShapeMismatch);
        }
        if self[pos].kind.is_line_term() {
            pos = pos + 1;
            if pos >= n {
                return Result::Err(RudError::ShapeMismatch);
            }
            if self[pos].kind.is_indent() {
                pos = pos + 1;
            } else {
                return Result::Err(RudError::ShapeMismatch);
            }
            if pos >= n {
                return Result::Err(RudError::ShapeMismatch);
            }
        }
        let mut node_list: NodeList = Vec::new();
        if self[pos].kind.is_rud_std_fn() {
            let q = pos;
            if q + 1 >= n {
                return Result::Err(RudError::ShapeMismatch);
            }
            let mut rp = q + 2;
            while rp < n && !self[rp].kind.is_right_parenthesis()
                invariant
                    n == self.len(),
                    ts == toks_view(self@),
                    q + 2 <= rp <= n,
                    find_rparen_spec(ts, q + 2) == find_rparen_spec(ts, rp as int),
                decreases n - rp,
            {
                rp = rp + 1;
            }
            if !(rp < n) {
                return Result::Err(RudError::ShapeMismatch);
            }
            let ghost group = ts.subrange(q as int, rp + 1);
            proof {
                assert(find_rparen_spec(ts, q + 2) == Option::Some(rp as int));
                assert(group.len() == rp + 1 - q);
            }
            if rp != q + 3 {
                return Result::Err(RudError::ShapeMismatch);
            }
            if !matches!(&self[q + 1].kind, TokenKind::Punct(Punct::LeftParenthesis)) {
                return Result::Err(RudError::ShapeMismatch);
            }
            let string_lit = match &self[q + 2].kind {
                TokenKind::StringLit(s) => s.clone(),
                _ => {
                    return Result::Err(RudError::ShapeMismatch);
                },
            };
            let rsf = node::RudStdFn::new_from_string(string_lit.as_str());
            node_list.push(Node::RudStdFn(rsf));
            proof {
                assert(parse_call_spec(group) == Result::<crate::node::SpecNode, RudError>::Ok(
                    crate::node::SpecNode::RudStdFn(string_lit@),
                ));
                let ns = node_list@;
                assert(ns.subrange(1, ns.len() as int) =~= Seq::<Node>::empty());
                assert(crate::node::nodes_view(Seq::<Node>::empty())
                    =~= Seq::<crate::node::SpecNode>::empty());
                assert(crate::node::nodes_view(ns) =~= seq![crate::node::node_view(ns[0])]);
            }
        } else {
            proof {
                assert(crate::node::nodes_view(node_list@) =~= Seq::<
                    crate::node::SpecNode,
                >::empty());
            }
        }
        let user_defined_fn = UserDefinedFn::new(
            function_is_public,
            function_name.as_str(),
            args,
            return_type,
            node_list,
        );
        Result::Ok(Node::UserDefinedFn(user_defined_fn))
    }
}

} // verus!
