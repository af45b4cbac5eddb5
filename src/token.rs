//! Tokens: kinds, positions and literal payloads.

use vstd::prelude::*;

verus! {

/// The kind of a token.
#[derive(Debug, Clone, Copy, PartialEq, Eq, Structural)]
pub enum TokenType {
    LeftParen,
    RightParen,
    LeftBrace,
    RightBrace,
    Comma,
    Dot,
    DotDot,
    Minus,
    Plus,
    Semicolon,
    Slash,
    Star,
    QuestionMark,
    Colon,
    Bang,
    BangEqual,
    Equal,
    EqualEqual,
    Arrow,
    Greater,
    GreaterEqual,
    Less,
    LessEqual,
    Identifier,
    String,
    Number,
    And,
    Break,
    Else,
    Enum,
    False,
    Fn,
    For,
    If,
    Let,
    Match,
    Mut,
    Null,
    Or,
    Print,
    Return,
    Struct,
    True,
    While,
    /// A character that starts no token.
    Error,
    EOF,
}

/// Where a token stands: character offsets `start..end` into the source,
/// and the 1-based line and column of its first character.
#[derive(Debug, Clone, Copy, PartialEq, Eq, Structural)]
pub struct Span {
    pub start: usize,
    pub end: usize,
    pub line: usize,
    pub column: usize,
}

/// The payload of a literal or identifier token.
#[derive(Debug, Clone, PartialEq, Eq)]
pub enum LiteralValue {
    /// A number, in millionths (see `num`).
    Number(i64),
    StringValue(String),
    Identifier(String),
}

/// One token of the source.
#[derive(Debug, Clone)]
pub struct Token {
    pub token_type: TokenType,
    pub lexeme: String,
    pub literal: Option<LiteralValue>,
    pub line_number: usize,
    pub span: Span,
}

impl Token {
    pub fn new(
        token_type: TokenType,
        lexeme: String,
        literal: Option<LiteralValue>,
        line_number: usize,
        span: Span,
    ) -> (r: Token)
        ensures
            r.token_type == token_type,
            r.lexeme == lexeme,
            r.literal == literal,
            r.line_number == line_number,
            r.span == span,
    {
        Token { token_type, lexeme, literal, line_number, span }
    }

    /// The token's text as it stands in the source.
    pub fn to_string(&self) -> (r: String)
        ensures
            r@ == self.lexeme@,
    {
        self.lexeme.clone()
    }
}

/// The kind of a one-character operator or punctuation token.
pub open spec fn single_kind(c: char) -> Option<TokenType> {
    if c == '(' {
        Some(TokenType::LeftParen)
    } else if c == ')' {
        Some(TokenType::RightParen)
    } else if c == '{' {
        Some(TokenType::LeftBrace)
    } else if c == '}' {
        Some(TokenType::RightBrace)
    } else if c == ',' {
        Some(TokenType::Comma)
    } else if c == '.' {
        Some(TokenType::Dot)
    } else if c == '-' {
        Some(TokenType::Minus)
    } else if c == '+' {
        Some(TokenType::Plus)
    } else if c == ';' {
        Some(TokenType::Semicolon)
    } else if c == '/' {
        Some(TokenType::Slash)
    } else if c == '*' {
        Some(TokenType::Star)
    } else if c == '?' {
        Some(TokenType::QuestionMark)
    } else if c == ':' {
        Some(TokenType::Colon)
    } else if c == '!' {
        Some(TokenType::Bang)
    } else if c == '=' {
        Some(TokenType::Equal)
    } else if c == '>' {
        Some(TokenType::Greater)
    } else if c == '<' {
        Some(TokenType::Less)
    } else {
        None
    }
}

/// The kind of a two-character operator token.
pub open spec fn double_kind(a: char, b: char) -> Option<TokenType> {
    if a == '!' && b == '=' {
        Some(TokenType::BangEqual)
    } else if a == '=' && b == '=' {
        Some(TokenType::EqualEqual)
    } else if a == '<' && b == '=' {
        Some(TokenType::LessEqual)
    } else if a == '>' && b == '=' {
        Some(TokenType::GreaterEqual)
    } else if a == '=' && b == '>' {
        Some(TokenType::Arrow)
    } else if a == '.' && b == '.' {
        Some(TokenType::DotDot)
    } else {
        None
    }
}

pub open spec fn is_word2(s: Seq<char>, a: char, b: char) -> bool {
    s.len() == 2 && s[0] == a && s[1] == b
}

pub open spec fn is_word3(s: Seq<char>, a: char, b: char, c: char) -> bool {
    s.len() == 3 && s[0] == a && s[1] == b && s[2] == c
}

pub open spec fn is_word4(s: Seq<char>, a: char, b: char, c: char, d: char) -> bool {
    s.len() == 4 && s[0] == a && s[1] == b && s[2] == c && s[3] == d
}

pub open spec fn is_word5(s: Seq<char>, a: char, b: char, c: char, d: char, e: char) -> bool {
    s.len() == 5 && s[0] == a && s[1] == b && s[2] == c && s[3] == d && s[4] == e
}

pub open spec fn is_word6(s: Seq<char>, a: char, b: char, c: char, d: char, e: char, f: char) -> bool {
    s.len() == 6 && s[0] == a && s[1] == b && s[2] == c && s[3] == d && s[4] == e && s[5] == f
}

/// The keyword that `s` spells, if any.
pub open spec fn keyword_kind(s: Seq<char>) -> Option<TokenType> {
    if is_word3(s, 'l', 'e', 't') {
        Some(TokenType::Let)
    } else if is_word2(s, 'i', 'f') {
        Some(TokenType::If)
    } else if is_word4(s, 'e', 'l', 's', 'e') {
        Some(TokenType::Else)
    } else if is_word5(s, 'w', 'h', 'i', 'l', 'e') {
        Some(TokenType::While)
    } else if is_word3(s, 'f', 'o', 'r') {
        Some(TokenType::For)
    } else if is_word2(s, 'f', 'n') {
        Some(TokenType::Fn)
    } else if is_word6(s, 's', 't', 'r', 'u', 'c', 't') {
        Some(TokenType::Struct)
    } else if is_word4(s, 'e', 'n', 'u', 'm') {
        Some(TokenType::Enum)
    } else if is_word5(s, 'm', 'a', 't', 'c', 'h') {
        Some(TokenType::Match)
    } else if is_word3(s, 'm', 'u', 't') {
        Some(TokenType::Mut)
    } else if is_word6(s, 'r', 'e', 't', 'u', 'r', 'n') {
        Some(TokenType::Return)
    } else if is_word5(s, 'p', 'r', 'i', 'n', 't') {
        Some(TokenType::Print)
    } else if is_word5(s, 'b', 'r', 'e', 'a', 'k') {
        Some(TokenType::Break)
    } else if is_word4(s, 't', 'r', 'u', 'e') {
        Some(TokenType::True)
    } else if is_word5(s, 'f', 'a', 'l', 's', 'e') {
        Some(TokenType::False)
    } else if is_word4(s, 'n', 'u', 'l', 'l') {
        Some(TokenType::Null)
    } else if is_word3(s, 'a', 'n', 'd') {
        Some(TokenType::And)
    } else if is_word2(s, 'o', 'r') {
        Some(TokenType::Or)
    } else {
        None
    }
}

/// The kind of the token whose text is `s`, for operators, punctuation and
/// keywords; `None` for any other text.
pub open spec fn fixed_kind(s: Seq<char>) -> Option<TokenType> {
    if s.len() == 1 {
        single_kind(s[0])
    } else if s.len() == 2 && double_kind(s[0], s[1]) is Some {
        double_kind(s[0], s[1])
    } else {
        keyword_kind(s)
    }
}

/// The keyword spelled by `s`, if any.
pub fn keyword(s: &[char]) -> (r: Option<TokenType>)
    ensures
        r == keyword_kind(s@),
{
    let n = s.len();
    if n == 3 && s[0] == 'l' && s[1] == 'e' && s[2] == 't' {
        Some(TokenType::Let)
    } else if n == 2 && s[0] == 'i' && s[1] == 'f' {
        Some(TokenType::If)
    } else if n == 4 && s[0] == 'e' && s[1] == 'l' && s[2] == 's' && s[3] == 'e' {
        Some(TokenType::Else)
    } else if n == 5 && s[0] == 'w' && s[1] == 'h' && s[2] == 'i' && s[3] == 'l' && s[4] == 'e' {
        Some(TokenType::While)
    } else if n == 3 && s[0] == 'f' && s[1] == 'o' && s[2] == 'r' {
        Some(TokenType::For)
    } else if n == 2 && s[0] == 'f' && s[1] == 'n' {
        Some(TokenType::Fn)
    } else if n == 6 && s[0] == 's' && s[1] == 't' && s[2] == 'r' && s[3] == 'u' && s[4] == 'c'
        && s[5] == 't' {
        Some(TokenType::Struct)
    } else if n == 4 && s[0] == 'e' && s[1] == 'n' && s[2] == 'u' && s[3] == 'm' {
        Some(TokenType::Enum)
    } else if n == 5 && s[0] == 'm' && s[1] == 'a' && s[2] == 't' && s[3] == 'c' && s[4] == 'h' {
        Some(TokenType::Match)
    } else if n == 3 && s[0] == 'm' && s[1] == 'u' && s[2] == 't' {
        Some(TokenType::Mut)
    } else if n == 6 && s[0] == 'r' && s[1] == 'e' && s[2] == 't' && s[3] == 'u' && s[4] == 'r'
        && s[5] == 'n' {
        Some(TokenType::Return)
    } else if n == 5 && s[0] == 'p' && s[1] == 'r' && s[2] == 'i' && s[3] == 'n' && s[4] == 't' {
        Some(TokenType::Print)
    } else if n == 5 && s[0] == 'b' && s[1] == 'r' && s[2] == 'e' && s[3] == 'a' && s[4] == 'k' {
        Some(TokenType::Break)
    } else if n == 4 && s[0] == 't' && s[1] == 'r' && s[2] == 'u' && s[3] == 'e' {
        Some(TokenType::True)
    } else if n == 5 && s[0] == 'f' && s[1] == 'a' && s[2] == 'l' && s[3] == 's' && s[4] == 'e' {
        Some(TokenType::False)
    } else if n == 4 && s[0] == 'n' && s[1] == 'u' && s[2] == 'l' && s[3] == 'l' {
        Some(TokenType::Null)
    } else if n == 3 && s[0] == 'a' && s[1] == 'n' && s[2] == 'd' {
        Some(TokenType::And)
    } else if n == 2 && s[0] == 'o' && s[1] == 'r' {
        Some(TokenType::Or)
    } else {
        None
    }
}

/// The keywords of the language with their token kinds.
pub fn get_keywords_hashmap() -> (r: Vec<(&'static str, TokenType)>)
    ensures
        r@.len() == 18,
        forall|i: int| 0 <= i < r@.len() ==> keyword_kind(#[trigger] r@[i].0@) == Some(r@[i].1),
{
    proof {
        reveal_strlit("let");
        reveal_strlit("if");
        reveal_strlit("else");
        reveal_strlit("while");
        reveal_strlit("for");
        reveal_strlit("fn");
        reveal_strlit("struct");
        reveal_strlit("enum");
        reveal_strlit("match");
        reveal_strlit("mut");
        reveal_strlit("return");
        reveal_strlit("print");
        reveal_strlit("break");
        reveal_strlit("true");
        reveal_strlit("false");
        reveal_strlit("null");
        reveal_strlit("and");
        reveal_strlit("or");
    }
    vec![
        ("let", TokenType::Let),
        ("if", TokenType::If),
        ("else", TokenType::Else),
        ("while", TokenType::While),
        ("for", TokenType::For),
        ("fn", TokenType::Fn),
        ("struct", TokenType::Struct),
        ("enum", TokenType::Enum),
        ("match", TokenType::Match),
        ("mut", TokenType::Mut),
        ("return", TokenType::Return),
        ("print", TokenType::Print),
        ("break", TokenType::Break),
        ("true", TokenType::True),
        ("false", TokenType::False),
        ("null", TokenType::Null),
        ("and", TokenType::And),
        ("or", TokenType::Or),
    ]
}

/// Two payloads that hold the same value.
pub open spec fn literal_same(a: Option<LiteralValue>, b: Option<LiteralValue>) -> bool {
    match (a, b) {
        (None, None) => true,
        (Some(LiteralValue::Number(x)), Some(LiteralValue::Number(y))) => x == y,
        (Some(LiteralValue::StringValue(x)), Some(LiteralValue::StringValue(y))) => x@ == y@,
        (Some(LiteralValue::Identifier(x)), Some(LiteralValue::Identifier(y))) => x@ == y@,
        _ => false,
    }
}

/// Two tokens that hold the same values.
pub open spec fn token_same(a: Token, b: Token) -> bool {
    &&& a.token_type == b.token_type
    &&& a.lexeme@ == b.lexeme@
    &&& literal_same(a.literal, b.literal)
    &&& a.line_number == b.line_number
    &&& a.span == b.span
}

impl LiteralValue {
    pub fn duplicate(&self) -> (r: LiteralValue)
        ensures
            literal_same(Some(r), Some(*self)),
    {
        match self {
            LiteralValue::Number(x) => LiteralValue::Number(*x),
            LiteralValue::StringValue(s) => LiteralValue::StringValue(s.clone()),
            LiteralValue::Identifier(s) => LiteralValue::Identifier(s.clone()),
        }
    }
}

impl Token {
    pub fn duplicate(&self) -> (r: Token)
        ensures
            token_same(r, *self),
    {
        let literal = match &self.literal {
            None => None,
            Some(l) => Some(l.duplicate()),
        };
        Token {
            token_type: self.token_type,
            lexeme: self.lexeme.clone(),
            literal,
            line_number: self.line_number,
            span: self.span,
        }
    }
}

} // verus!
