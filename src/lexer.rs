//! The lexer: source text to tokens.
//!
//! Whitespace, line comments and nested block comments are skipped. Every
//! lexical error of one pass is collected; an unknown character becomes an
//! `Error` token and scanning goes on.

use vstd::prelude::*;
use crate::num::{digits_value, pow10, MAX_UNITS, SCALE, FRACTION_DIGITS};
use crate::text::{digits_of, is_alpha, is_alpha_spec, is_digit, is_digit_spec, push_char, with_number};
use vstd::string::StringExecFns;
use crate::token::{
    double_kind, fixed_kind, keyword, keyword_kind, single_kind, token_same, LiteralValue, Span,
    Token, TokenType,
};

verus! {

/// What went wrong in a lexical error.
#[derive(Debug, Clone, Copy, PartialEq, Eq, Structural)]
pub enum LexErrorKind {
    UnterminatedString,
    UnterminatedComment,
    UnrecognizedChar(char),
    NumberTooLarge,
    TooManyFractionDigits,
}

/// A lexical error with the place it was found.
#[derive(Debug, Clone, Copy, PartialEq, Eq, Structural)]
pub struct LexError {
    pub kind: LexErrorKind,
    pub line: usize,
    pub span: Span,
}

/// The character an escape sequence `\c` stands for.
pub open spec fn escaped(c: char) -> char {
    if c == 'n' {
        '\n'
    } else if c == 't' {
        '\t'
    } else if c == 'r' {
        '\r'
    } else {
        c
    }
}

/// Scanning a string literal's body from index `i`: the characters it
/// stands for, and the index of the closing quote; `None` when the input
/// ends first.
pub open spec fn string_body(src: Seq<char>, i: int) -> Option<(Seq<char>, int)>
    decreases src.len() - i,
{
    if i < 0 || i >= src.len() {
        None
    } else if src[i] == '"' {
        Some((Seq::<char>::empty(), i))
    } else if src[i] == '\\' {
        if i + 1 >= src.len() {
            None
        } else {
            match string_body(src, i + 2) {
                Some((s, e)) => Some((seq![escaped(src[i + 1])] + s, e)),
                None => None,
            }
        }
    } else {
        match string_body(src, i + 1) {
            Some((s, e)) => Some((seq![src[i]] + s, e)),
            None => None,
        }
    }
}

/// Text of a number literal whose whole part is `s[..k]`: digits,
/// optionally followed by `.` and one to six digits.
pub open spec fn number_parts(s: Seq<char>, k: int) -> bool {
    &&& 0 < k <= s.len()
    &&& forall|i: int| 0 <= i < k ==> is_digit_spec(#[trigger] s[i])
    &&& k < s.len() ==> {
        &&& s[k] == '.'
        &&& k + 1 < s.len() <= k + 1 + FRACTION_DIGITS
        &&& forall|i: int| k < i < s.len() ==> is_digit_spec(#[trigger] s[i])
    }
}

/// The value in millionths of a number literal whose whole part is `s[..k]`.
pub open spec fn number_units(s: Seq<char>, k: int) -> int {
    let whole = digits_value(s.subrange(0, k)) * (SCALE as nat);
    if k < s.len() {
        let frac = s.subrange(k + 1, s.len() as int);
        (whole + digits_value(frac) * pow10((FRACTION_DIGITS - frac.len()) as nat)) as int
    } else {
        whole as int
    }
}

pub open spec fn ident_text(s: Seq<char>) -> bool {
    &&& s.len() > 0
    &&& is_alpha_spec(s[0])
    &&& forall|i: int| 0 <= i < s.len() ==> is_alpha_spec(#[trigger] s[i]) || is_digit_spec(s[i])
}

/// What a token of kind `tt` with payload `lit` and text `lx`, standing
/// at `start..end`, must satisfy.
pub open spec fn kind_ok(
    src: Seq<char>,
    tt: TokenType,
    lit: Option<LiteralValue>,
    start: int,
    end: int,
    lx: Seq<char>,
) -> bool {
    &&& (fixed_kind(lx) matches Some(k) ==> tt == k)
    &&& (tt is Identifier ==> {
        &&& ident_text(lx)
        &&& keyword_kind(lx) is None
        &&& lit matches Some(LiteralValue::Identifier(s))
        &&& s@ == lx
    })
    &&& (tt is Number ==> exists|k: int|
        {
            &&& #[trigger] number_parts(lx, k)
            &&& 0 <= number_units(lx, k) <= MAX_UNITS
            &&& lit == Some(LiteralValue::Number(number_units(lx, k) as i64))
        })
    &&& (tt is String ==> {
        &&& 0 <= start < src.len()
        &&& src[start] == '"'
        &&& string_body(src, start + 1) matches Some((body, e))
        &&& e + 1 == end
        &&& lit matches Some(LiteralValue::StringValue(s))
        &&& s@ == body
    })
    &&& (tt is EOF ==> start == end == src.len())
}

/// A token agrees with the source: its lexeme is the source text its span
/// covers, and its kind and payload are the ones that text denotes.
pub open spec fn token_ok(src: Seq<char>, t: Token) -> bool {
    &&& t.span.start <= t.span.end <= src.len()
    &&& t.lexeme@ == src.subrange(t.span.start as int, t.span.end as int)
    &&& t.line_number == t.span.line
    &&& t.span.line >= 1
    &&& kind_ok(src, t.token_type, t.literal, t.span.start as int, t.span.end as int, t.lexeme@)
}

/// Skipping a block comment whose text continues at `i`, at nesting
/// `depth`: the index just after the `*/` that closes it, or `None` when
/// the input ends first.
pub open spec fn comment_end(src: Seq<char>, i: int, depth: nat) -> Option<int>
    decreases src.len() - i,
{
    if depth == 0 {
        Some(i)
    } else if i < 0 || i >= src.len() {
        None
    } else if i + 1 < src.len() && src[i] == '/' && src[i + 1] == '*' {
        comment_end(src, i + 2, depth + 1)
    } else if i + 1 < src.len() && src[i] == '*' && src[i + 1] == '/' {
        comment_end(src, i + 2, (depth - 1) as nat)
    } else {
        comment_end(src, i + 1, depth)
    }
}

/// The tokens stand in source order, without overlapping.
pub open spec fn ordered(ts: Seq<Token>) -> bool {
    forall|i: int, j: int| 0 <= i < j < ts.len() ==> #[trigger] ts[i].span.end <= #[trigger] ts[j].span.start
}

/// Every token agrees with the source, they stand in source order, and
/// the last one is `EOF`.
pub open spec fn all_tokens_ok(src: Seq<char>, ts: Seq<Token>) -> bool {
    &&& ts.len() >= 1
    &&& ts.last().token_type is EOF
    &&& forall|i: int| 0 <= i < ts.len() ==> token_ok(src, #[trigger] ts[i])
    &&& ordered(ts)
}

/// `x + 1`, staying at `usize::MAX`.
pub open spec fn sat_inc(x: nat) -> nat {
    if x < usize::MAX {
        x + 1
    } else {
        x
    }
}

/// The 1-based line of index `i` of the source.
pub open spec fn line_at(src: Seq<char>, i: int) -> nat
    decreases i,
{
    if i <= 0 || i > src.len() {
        1
    } else if src[i - 1] == '\n' {
        sat_inc(line_at(src, i - 1))
    } else {
        line_at(src, i - 1)
    }
}

/// The 1-based column of index `i` of the source.
pub open spec fn col_at(src: Seq<char>, i: int) -> nat
    decreases i,
{
    if i <= 0 || i > src.len() {
        1
    } else if src[i - 1] == '\n' {
        1
    } else {
        sat_inc(col_at(src, i - 1))
    }
}

/// The end of the run of digits starting at `i`.
pub open spec fn digit_end(src: Seq<char>, i: int) -> int
    decreases src.len() - i,
{
    if 0 <= i < src.len() && is_digit_spec(src[i]) {
        digit_end(src, i + 1)
    } else {
        i
    }
}

/// The end of the run of letters, digits and `_` starting at `i`.
pub open spec fn ident_end(src: Seq<char>, i: int) -> int
    decreases src.len() - i,
{
    if 0 <= i < src.len() && (is_alpha_spec(src[i]) || is_digit_spec(src[i])) {
        ident_end(src, i + 1)
    } else {
        i
    }
}

/// The index of the newline that ends the line holding `i`, or the length.
pub open spec fn line_end(src: Seq<char>, i: int) -> int
    decreases src.len() - i,
{
    if 0 <= i < src.len() && src[i] != '\n' {
        line_end(src, i + 1)
    } else {
        i
    }
}

/// The payload of a token, with strings as character sequences.
pub enum LitView {
    Number(i64),
    Str(Seq<char>),
    Ident(Seq<char>),
}

pub open spec fn lit_view(l: Option<LiteralValue>) -> Option<LitView> {
    match l {
        None => None,
        Some(LiteralValue::Number(u)) => Some(LitView::Number(u)),
        Some(LiteralValue::StringValue(s)) => Some(LitView::Str(s@)),
        Some(LiteralValue::Identifier(s)) => Some(LitView::Ident(s@)),
    }
}

/// A token with its strings as character sequences.
pub struct TokenView {
    pub token_type: TokenType,
    pub lexeme: Seq<char>,
    pub literal: Option<LitView>,
    pub line_number: usize,
    pub span: Span,
}

pub open spec fn tview(t: Token) -> TokenView {
    TokenView {
        token_type: t.token_type,
        lexeme: t.lexeme@,
        literal: lit_view(t.literal),
        line_number: t.line_number,
        span: t.span,
    }
}

pub open spec fn tviews(ts: Seq<Token>) -> Seq<TokenView> {
    Seq::new(ts.len(), |i: int| tview(ts[i]))
}

/// The span from `a` to `b`, placed at `a`.
pub open spec fn span_of(src: Seq<char>, a: int, b: int) -> Span {
    Span { start: a as usize, end: b as usize, line: line_at(src, a) as usize, column: col_at(src, a) as usize }
}

pub open spec fn tok(src: Seq<char>, a: int, b: int, k: TokenType, lit: Option<LitView>) -> TokenView {
    TokenView {
        token_type: k,
        lexeme: src.subrange(a, b),
        literal: lit,
        line_number: line_at(src, a) as usize,
        span: span_of(src, a, b),
    }
}

pub open spec fn lex_err(src: Seq<char>, a: int, b: int, k: LexErrorKind) -> LexError {
    LexError { kind: k, line: line_at(src, a) as usize, span: span_of(src, a, b) }
}

/// One step of the scan from index `a`: where it ends, the token it
/// yields and the error it records, if any.
pub struct Step {
    pub end: int,
    pub token: Option<TokenView>,
    pub error: Option<LexError>,
}

pub open spec fn skip(end: int) -> Step {
    Step { end, token: None, error: None }
}

pub open spec fn emit(src: Seq<char>, a: int, b: int, k: TokenType, lit: Option<LitView>) -> Step {
    Step { end: b, token: Some(tok(src, a, b, k, lit)), error: None }
}

pub open spec fn fail(src: Seq<char>, a: int, b: int, k: LexErrorKind) -> Step {
    Step { end: b, token: None, error: Some(lex_err(src, a, b, k)) }
}

/// A number literal at `a`: its whole digits, then `.` and digits when a
/// digit follows the `.`.
pub open spec fn number_step(src: Seq<char>, a: int) -> Step {
    let k1 = digit_end(src, a);
    let has_frac = k1 + 1 < src.len() && src[k1] == '.' && is_digit_spec(src[k1 + 1]);
    let k2 = if has_frac { digit_end(src, k1 + 1) } else { k1 };
    let w = digits_value(src.subrange(a, k1));
    let count = if has_frac { k2 - (k1 + 1) } else { 0 };
    let f = if has_frac { digits_value(src.subrange(k1 + 1, k2)) } else { 0 };
    if w > WHOLE_LIMIT {
        fail(src, a, k2, LexErrorKind::NumberTooLarge)
    } else if f > WHOLE_LIMIT || count > FRACTION_DIGITS {
        fail(src, a, k2, LexErrorKind::TooManyFractionDigits)
    } else {
        let units = w * (SCALE as nat) + f * pow10((FRACTION_DIGITS - count) as nat);
        if units > MAX_UNITS {
            fail(src, a, k2, LexErrorKind::NumberTooLarge)
        } else {
            emit(src, a, k2, TokenType::Number, Some(LitView::Number(units as i64)))
        }
    }
}

/// A one-character token, or the two-character one when `second` follows.
pub open spec fn maybe_double(src: Seq<char>, a: int, second: char) -> Step {
    if a + 1 < src.len() && src[a + 1] == second {
        emit(src, a, a + 2, double_kind(src[a], second)->0, None)
    } else {
        emit(src, a, a + 1, single_kind(src[a])->0, None)
    }
}

/// An identifier or keyword at `a`.
pub open spec fn ident_step(src: Seq<char>, a: int) -> Step {
    let b = ident_end(src, a);
    let w = src.subrange(a, b);
    match keyword_kind(w) {
        Some(k) => emit(src, a, b, k, None),
        None => emit(src, a, b, TokenType::Identifier, Some(LitView::Ident(w))),
    }
}

/// A string literal whose opening quote is at `a`.
pub open spec fn string_step(src: Seq<char>, a: int) -> Step {
    match string_body(src, a + 1) {
        Some((body, e)) => emit(src, a, e + 1, TokenType::String, Some(LitView::Str(body))),
        None => fail(src, a, src.len() as int, LexErrorKind::UnterminatedString),
    }
}

/// The step of the scan at index `a`.
pub open spec fn step(src: Seq<char>, a: int) -> Step {
    let c = src[a];
    if is_digit_spec(c) {
        number_step(src, a)
    } else if is_alpha_spec(c) {
        ident_step(src, a)
    } else if c == '.' {
        maybe_double(src, a, '.')
    } else if c == '!' || c == '<' || c == '>' {
        maybe_double(src, a, '=')
    } else if c == '=' {
        if a + 1 < src.len() && src[a + 1] == '>' {
            maybe_double(src, a, '>')
        } else {
            maybe_double(src, a, '=')
        }
    } else if c == '/' {
        if a + 1 < src.len() && src[a + 1] == '/' {
            skip(line_end(src, a + 1))
        } else if a + 1 < src.len() && src[a + 1] == '*' {
            match comment_end(src, a + 2, 1) {
                Some(e) => skip(e),
                None => fail(src, a, src.len() as int, LexErrorKind::UnterminatedComment),
            }
        } else {
            emit(src, a, a + 1, TokenType::Slash, None)
        }
    } else if c == '"' {
        string_step(src, a)
    } else if c == ' ' || c == '\r' || c == '\t' || c == '\n' {
        skip(a + 1)
    } else if single_kind(c) is Some {
        emit(src, a, a + 1, single_kind(c)->0, None)
    } else {
        Step {
            end: a + 1,
            token: Some(tok(src, a, a + 1, TokenType::Error, None)),
            error: Some(lex_err(src, a, a + 1, LexErrorKind::UnrecognizedChar(c))),
        }
    }
}

pub open spec fn opt_seq<T>(o: Option<T>) -> Seq<T> {
    match o {
        Some(x) => seq![x],
        None => Seq::empty(),
    }
}

/// `s`, with `o` added at the end when it holds a value.
pub open spec fn app<T>(s: Seq<T>, o: Option<T>) -> Seq<T> {
    match o {
        Some(x) => s.push(x),
        None => s,
    }
}

/// The `EOF` token at the end of the source.
pub open spec fn eof_token(src: Seq<char>) -> TokenView {
    tok(src, src.len() as int, src.len() as int, TokenType::EOF, None)
}

/// The tokens and errors of a scan from index `a` to the end.
pub open spec fn lex_from(src: Seq<char>, a: int) -> (Seq<TokenView>, Seq<LexError>)
    decreases src.len() - a,
{
    if a < 0 || a >= src.len() {
        (seq![eof_token(src)], Seq::empty())
    } else {
        let s = step(src, a);
        if s.end <= a || s.end > src.len() {
            (seq![eof_token(src)], Seq::empty())
        } else {
            let (ts, es) = lex_from(src, s.end);
            (opt_seq(s.token) + ts, opt_seq(s.error) + es)
        }
    }
}

/// The tokens and errors of the whole source.
pub open spec fn lex(src: Seq<char>) -> (Seq<TokenView>, Seq<LexError>) {
    lex_from(src, 0)
}

/// Scans source text into tokens.
pub struct Lexer {
    source: Vec<char>,
    tokens: Vec<Token>,
    errors: Vec<LexError>,
    start: usize,
    current: usize,
    line: usize,
    column: usize,
    start_line: usize,
    start_column: usize,
}

impl Lexer {
    pub closed spec fn source_view(&self) -> Seq<char> {
        self.source@
    }

    pub closed spec fn tokens_view(&self) -> Seq<Token> {
        self.tokens@
    }

    pub closed spec fn errors_view(&self) -> Seq<LexError> {
        self.errors@
    }

    pub closed spec fn wf(&self) -> bool {
        &&& self.start <= self.current <= self.source@.len()
        &&& self.line >= 1
        &&& self.column >= 1
        &&& self.start_line >= 1
        &&& self.line as nat == line_at(self.source@, self.current as int)
        &&& self.column as nat == col_at(self.source@, self.current as int)
        &&& self.start_line as nat == line_at(self.source@, self.start as int)
        &&& self.start_column as nat == col_at(self.source@, self.start as int)
        &&& forall|i: int|
            0 <= i < self.tokens@.len() ==> token_ok(self.source@, #[trigger] self.tokens@[i])
                && self.tokens@[i].span.end <= self.current
        &&& ordered(self.tokens@)
    }

    /// Where the scan stands.
    pub closed spec fn position(&self) -> int {
        self.current as int
    }

    /// `n` did the work of step `st` on `o`.
    pub closed spec fn did(&self, o: &Lexer, st: Step) -> bool {
        &&& self.current == st.end
        &&& self.start == o.start
        &&& self.source@ == o.source@
        &&& tviews(self.tokens@) == app(tviews(o.tokens@), st.token)
        &&& self.errors@ == app(o.errors@, st.error)
    }

    /// Every token so far ends before the one being scanned starts.
    pub closed spec fn ready(&self) -> bool {
        forall|i: int| 0 <= i < self.tokens@.len() ==> (#[trigger] self.tokens@[i]).span.end <= self.start
    }

    pub fn new(source: &str) -> (r: Lexer)
        ensures
            r.wf(),
            r.source_view() == source@,
            r.tokens_view().len() == 0,
            r.errors_view().len() == 0,
            r.position() == 0,
    {
        Lexer {
            source: crate::text::chars_of(source),
            tokens: Vec::new(),
            errors: Vec::new(),
            start: 0,
            current: 0,
            line: 1,
            column: 1,
            start_line: 1,
            start_column: 1,
        }
    }

    /// The tokens scanned so far.
    pub fn tokens(&self) -> (r: &Vec<Token>)
        ensures
            r@ == self.tokens_view(),
    {
        &self.tokens
    }

    /// The errors found so far.
    pub fn errors(&self) -> (r: &Vec<LexError>)
        ensures
            r@ == self.errors_view(),
    {
        &self.errors
    }

    /// The line the scan has reached.
    pub fn line(&self) -> (r: usize)
        requires
            self.wf(),
        ensures
            r as nat == line_at(self.source_view(), self.position()),
    {
        self.line
    }

    fn is_at_end(&self) -> (r: bool)
        ensures
            r == (self.current >= self.source@.len()),
    {
        self.current >= self.source.len()
    }

    fn peek(&self) -> (c: char)
        ensures
            self.current < self.source@.len() ==> c == self.source@[self.current as int],
            self.current >= self.source@.len() ==> c == '\0',
    {
        if self.current < self.source.len() {
            self.source[self.current]
        } else {
            '\0'
        }
    }

    fn peek_next(&self) -> (c: char)
        ensures
            self.current + 1 < self.source@.len() ==> c == self.source@[self.current + 1],
            self.current + 1 >= self.source@.len() ==> c == '\0',
    {
        if self.current < self.source.len() && self.current + 1 < self.source.len() {
            self.source[self.current + 1]
        } else {
            '\0'
        }
    }

    /// Consumes one character, keeping line and column up to date.
    fn advance(&mut self)
        requires
            old(self).wf(),
            old(self).current < old(self).source@.len(),
        ensures
            final(self).wf(),
            final(self).current == old(self).current + 1,
            final(self).start == old(self).start,
            final(self).source@ == old(self).source@,
            final(self).tokens@ == old(self).tokens@,
            final(self).errors@ == old(self).errors@,
            final(self).start_line == old(self).start_line,
            final(self).start_column == old(self).start_column,
    {
        let _ = self.source.len();
        let c = self.source[self.current];
        self.current = self.current + 1;
        proof {
            reveal_with_fuel(line_at, 2);
            reveal_with_fuel(col_at, 2);
        }
        if c == '\n' {
            if self.line < usize::MAX {
                self.line = self.line + 1;
            }
            self.column = 1;
        } else if self.column < usize::MAX {
            self.column = self.column + 1;
        }
    }

    fn span(&self) -> (s: Span)
        ensures
            s.start == self.start,
            s.end == self.current,
            s.line == self.start_line,
            s.column == self.start_column,
    {
        Span { start: self.start, end: self.current, line: self.start_line, column: self.start_column }
    }

    /// The source text from `start` to `current`.
    fn lexeme(&self) -> (r: String)
        requires
            self.wf(),
        ensures
            r@ == self.source@.subrange(self.start as int, self.current as int),
    {
        let mut s = String::new();
        let mut i = self.start;
        while i < self.current
            invariant
                self.wf(),
                self.start <= i <= self.current,
                s@ == self.source@.subrange(self.start as int, i as int),
            decreases self.current - i,
        {
            push_char(&mut s, self.source[i]);
            i = i + 1;
            proof {
                assert(s@ =~= self.source@.subrange(self.start as int, i as int));
            }
        }
        s
    }

    fn add_token(&mut self, token_type: TokenType, literal: Option<LiteralValue>)
        requires
            old(self).wf(),
            old(self).ready(),
            kind_ok(
                old(self).source@,
                token_type,
                literal,
                old(self).start as int,
                old(self).current as int,
                old(self).source@.subrange(old(self).start as int, old(self).current as int),
            ),
        ensures
            final(self).wf(),
            final(self).tokens@.len() == old(self).tokens@.len() + 1,
            final(self).tokens@.last().token_type == token_type,
            final(self).start == old(self).start,
            final(self).current == old(self).current,
            final(self).source@ == old(self).source@,
            final(self).errors@ == old(self).errors@,
            tviews(final(self).tokens@) == tviews(old(self).tokens@).push(
                tok(
                    old(self).source@,
                    old(self).start as int,
                    old(self).current as int,
                    token_type,
                    lit_view(literal),
                ),
            ),
    {
        let lexeme = self.lexeme();
        let span = self.span();
        let t = Token { token_type, lexeme, literal, line_number: self.start_line, span };
        self.tokens.push(t);
        proof {
            assert(tviews(self.tokens@) =~= tviews(old(self).tokens@).push(tview(t)));
        }
    }

    fn add_error(&mut self, kind: LexErrorKind)
        requires
            old(self).wf(),
        ensures
            final(self).wf(),
            final(self).tokens@ == old(self).tokens@,
            final(self).errors@ == old(self).errors@.push(
                lex_err(old(self).source@, old(self).start as int, old(self).current as int, kind),
            ),
            final(self).start == old(self).start,
            final(self).current == old(self).current,
            final(self).source@ == old(self).source@,
    {
        let span = self.span();
        self.errors.push(LexError { kind, line: self.start_line, span });
    }
}

proof fn lemma_digits_step(src: Seq<char>, a: int, b: int)
    requires
        0 <= a < b <= src.len(),
    ensures
        digits_value(src.subrange(a, b)) == 10 * digits_value(src.subrange(a, b - 1)) + (if (
        src[b - 1] as int) - ('0' as int) < 0 {
            0
        } else {
            ((src[b - 1] as int) - ('0' as int)) as nat
        }),
{
    assert(src.subrange(a, b).drop_last() =~= src.subrange(a, b - 1));
}

fn pow10_exec(k: u64) -> (r: u64)
    requires
        k <= 6,
    ensures
        r == pow10(k as nat),
        r <= 1_000_000,
{
    proof {
        reveal_with_fuel(pow10, 7);
    }
    match k {
        0 => 1,
        1 => 10,
        2 => 100,
        3 => 1000,
        4 => 10_000,
        5 => 100_000,
        _ => 1_000_000,
    }
}

/// Numbers whose whole part is above this do not fit.
pub const WHOLE_LIMIT: u64 = 9_223_372_036_854;

impl Lexer {
    /// Reads a run of digits from `current`, returning its value, or
    /// `None` when it is above `WHOLE_LIMIT`.
    fn digit_run(&mut self) -> (r: Option<u64>)
        requires
            old(self).wf(),
        ensures
            final(self).wf(),
            final(self).current >= old(self).current,
            final(self).start == old(self).start,
            final(self).start_line == old(self).start_line,
            final(self).start_column == old(self).start_column,
            final(self).source@ == old(self).source@,
            final(self).tokens@ == old(self).tokens@,
            final(self).errors@ == old(self).errors@,
            forall|i: int|
                old(self).current <= i < final(self).current ==> is_digit_spec(
                    #[trigger] final(self).source@[i],
                ),
            final(self).current < final(self).source@.len() ==> !is_digit_spec(
                final(self).source@[final(self).current as int],
            ),
            r matches Some(v) ==> v == digits_value(
                final(self).source@.subrange(old(self).current as int, final(self).current as int),
            ) && v <= WHOLE_LIMIT,
            r is None ==> digits_value(
                final(self).source@.subrange(old(self).current as int, final(self).current as int),
            ) > WHOLE_LIMIT,
            final(self).current == digit_end(old(self).source@, old(self).current as int),
    {
        let a = self.current;
        let mut v: u64 = 0;
        let mut big = false;
        proof {
            assert(self.source@.subrange(a as int, a as int).len() == 0);
        }
        while !self.is_at_end() && is_digit(self.peek())
            invariant
                self.wf(),
                a <= self.current,
                self.start == old(self).start,
                self.start_line == old(self).start_line,
                self.start_column == old(self).start_column,
                self.source@ == old(self).source@,
                self.tokens@ == old(self).tokens@,
                self.errors@ == old(self).errors@,
                forall|i: int| a <= i < self.current ==> is_digit_spec(#[trigger] self.source@[i]),
                digit_end(self.source@, a as int) == digit_end(self.source@, self.current as int),
                !big ==> v == digits_value(self.source@.subrange(a as int, self.current as int))
                    && v <= WHOLE_LIMIT,
                big ==> digits_value(self.source@.subrange(a as int, self.current as int))
                    > WHOLE_LIMIT,
            decreases self.source@.len() - self.current,
        {
            let c = self.peek();
            let d = (c as u32 - '0' as u32) as u64;
            self.advance();
            proof {
                lemma_digits_step(self.source@, a as int, self.current as int);
            }
            if !big {
                if v > (WHOLE_LIMIT - d) / 10 {
                    big = true;
                } else {
                    v = v * 10 + d;
                }
            }
        }
        if big {
            None
        } else {
            Some(v)
        }
    }
}

impl Lexer {
    /// Scans a number literal starting at `start`.
    fn number(&mut self)
        requires
            old(self).wf(),
            old(self).start == old(self).current < old(self).source@.len(),
            is_digit_spec(old(self).source@[old(self).start as int]),
        ensures
            final(self).wf(),
            final(self).current > old(self).current,
            final(self).source@ == old(self).source@,
            final(self).start == old(self).start,
            final(self).did(old(self), number_step(old(self).source@, old(self).start as int)),
    {
        let ghost src = self.source@;
        let st = self.start;
        let whole = self.digit_run();
        let wend = self.current;
        let k = wend - st;
        let mut frac: u64 = 0;
        let mut count: usize = 0;
        let mut frac_ok = true;
        let mut fs: usize = wend;
        let ghost mut hf = false;
        if self.peek() == '.' && is_digit(self.peek_next()) {
            proof {
                hf = true;
            }
            self.advance();
            fs = self.current;
            let f = self.digit_run();
            assert(f matches Some(v) ==> v <= WHOLE_LIMIT);
            count = self.current - fs;
            match f {
                Some(v) => {
                    frac = v;
                },
                None => {
                    frac_ok = false;
                },
            }
            if count > FRACTION_DIGITS {
                frac_ok = false;
            }
        }
        let ghost lx = src.subrange(st as int, self.current as int);
        proof {
            let k1 = digit_end(src, st as int);
            assert(wend == k1);
            assert(hf == (k1 + 1 < src.len() && src[k1] == '.' && is_digit_spec(src[k1 + 1])));
            if hf {
                assert(self.current == digit_end(src, k1 + 1));
                assert(frac_ok <==> !(digits_value(src.subrange(k1 + 1, self.current as int)) > WHOLE_LIMIT
                    || count > FRACTION_DIGITS));
                assert(frac_ok ==> frac == digits_value(src.subrange(k1 + 1, self.current as int)));
            } else {
                assert(self.current == k1);
            }
        }
        match whole {
            Some(w) => {
                if !frac_ok {
                    self.add_error(LexErrorKind::TooManyFractionDigits);
                } else {
                    let p = pow10_exec((FRACTION_DIGITS - count) as u64);
                    proof {
                        assert(w as u128 * 1_000_000u128 <= 9_223_372_036_854u128 * 1_000_000u128)
                            by (nonlinear_arith)
                            requires w <= 9_223_372_036_854u64;
                        assert(frac as u128 * p as u128 <= 9_223_372_036_854u128 * 1_000_000u128)
                            by (nonlinear_arith)
                            requires frac <= 9_223_372_036_854u64, p <= 1_000_000u64;
                    }
                    let units: u128 = w as u128 * (SCALE as u128) + frac as u128 * p as u128;
                    proof {
                        let k1 = digit_end(src, st as int);
                        let ff = if hf { digits_value(src.subrange(k1 + 1, self.current as int)) } else { 0 };
                        assert(frac as nat == ff);
                        assert(digits_value(src.subrange(st as int, k1)) == w);
                        assert(units == w * (SCALE as nat) + ff * pow10((FRACTION_DIGITS - count) as nat));
                    }
                    if units > MAX_UNITS as u128 {
                        self.add_error(LexErrorKind::NumberTooLarge);
                    } else {
                        proof {
                            assert(lx.subrange(0, k as int) =~= src.subrange(st as int, wend as int));
                            if count > 0 {
                                assert(lx.subrange(k + 1, lx.len() as int) =~= src.subrange(
                                    fs as int,
                                    self.current as int,
                                ));
                                assert(lx[k as int] == '.');
                            }
                            assert(number_parts(lx, k as int));
                            assert(number_units(lx, k as int) == units);
                        }
                        self.add_token(TokenType::Number, Some(LiteralValue::Number(units as i64)));
                    }
                }
            },
            None => {
                self.add_error(LexErrorKind::NumberTooLarge);
            },
        }
    }
}

impl Lexer {
    /// Scans a string literal; `start` is at its opening quote and
    /// `current` just after it.
    fn string(&mut self)
        requires
            old(self).wf(),
            old(self).current == old(self).start + 1 <= old(self).source@.len(),
            old(self).source@[old(self).start as int] == '"',
            old(self).ready(),
        ensures
            final(self).wf(),
            final(self).current > old(self).start,
            final(self).source@ == old(self).source@,
            final(self).start == old(self).start,
            final(self).did(old(self), string_step(old(self).source@, old(self).start as int)),
    {
        let ghost src = self.source@;
        let ghost st = self.start as int;
        let mut body = String::new();
        loop
            invariant
                self.wf(),
                self.start == st,
                st == old(self).start,
                src == old(self).source@,
                src[st] == '"',
                self.tokens@ == old(self).tokens@,
                self.errors@ == old(self).errors@,
                self.ready(),
                st < self.current <= src.len(),
                self.source@ == src,
                match string_body(src, self.current as int) {
                    Some((b, e)) => string_body(src, st + 1) == Some((body@ + b, e)),
                    None => string_body(src, st + 1) is None,
                },
            decreases src.len() - self.current,
        {
            if self.is_at_end() {
                self.add_error(LexErrorKind::UnterminatedString);
                return;
            }
            let c = self.peek();
            if c == '"' {
                self.advance();
                proof {
                    assert(body@ + Seq::<char>::empty() =~= body@);
                    let lx = src.subrange(st, self.current as int);
                    assert(lx[0] == '"');
                    assert(string_body(src, st + 1) == Some((body@, self.current - 1)));
                    assert(fixed_kind(lx) is None);
                }
                self.add_token(TokenType::String, Some(LiteralValue::StringValue(body)));
                return;
            } else if c == '\\' {
                self.advance();
                if self.is_at_end() {
                    self.add_error(LexErrorKind::UnterminatedString);
                    return;
                }
                let e = self.peek();
                let x = if e == 'n' {
                    '\n'
                } else if e == 't' {
                    '\t'
                } else if e == 'r' {
                    '\r'
                } else {
                    e
                };
                self.advance();
                let ghost before = body@;
                push_char(&mut body, x);
                proof {
                    match string_body(src, self.current as int) {
                        Some((b, e2)) => {
                            assert(seq![x] + b =~= seq![x] + b);
                            assert(before + (seq![x] + b) =~= body@ + b);
                        },
                        None => {},
                    }
                }
            } else {
                self.advance();
                let ghost before = body@;
                push_char(&mut body, c);
                proof {
                    match string_body(src, self.current as int) {
                        Some((b, e2)) => {
                            assert(before + (seq![c] + b) =~= body@ + b);
                        },
                        None => {},
                    }
                }
            }
        }
    }

    /// Scans an identifier or keyword starting at `start`.
    fn identifier(&mut self)
        requires
            old(self).wf(),
            old(self).start == old(self).current < old(self).source@.len(),
            is_alpha_spec(old(self).source@[old(self).start as int]),
        ensures
            final(self).wf(),
            final(self).current > old(self).current,
            final(self).source@ == old(self).source@,
            final(self).start == old(self).start,
            final(self).did(old(self), ident_step(old(self).source@, old(self).start as int)),
    {
        let ghost src = self.source@;
        let st = self.start;
        self.advance();
        assert(ident_end(src, st as int) == ident_end(src, self.current as int));
        while !self.is_at_end() && (is_alpha(self.peek()) || is_digit(self.peek()))
            invariant
                self.wf(),
                self.start == st,
                st == old(self).start,
                src == old(self).source@,
                self.tokens@ == old(self).tokens@,
                self.errors@ == old(self).errors@,
                ident_end(src, st as int) == ident_end(src, self.current as int),
                st < self.current <= src.len(),
                self.source@ == src,
                forall|i: int|
                    st <= i < self.current ==> is_alpha_spec(#[trigger] src[i]) || is_digit_spec(
                        src[i],
                    ),
            decreases src.len() - self.current,
        {
            self.advance();
        }
        let mut word: Vec<char> = Vec::new();
        let mut i = st;
        while i < self.current
            invariant
                self.wf(),
                self.source@ == src,
                self.tokens@ == old(self).tokens@,
                self.start == st,
                st <= i <= self.current,
                word@ == src.subrange(st as int, i as int),
            decreases self.current - i,
        {
            word.push(self.source[i]);
            i = i + 1;
            proof {
                assert(word@ =~= src.subrange(st as int, i as int));
            }
        }
        let ghost lx = src.subrange(st as int, self.current as int);
        assert(word@ == lx);
        assert(is_alpha_spec(lx[0]));
        match keyword(word.as_slice()) {
            Some(k) => {
                self.add_token(k, None);
            },
            None => {
                let text = crate::text::string_of(word.as_slice());
                self.add_token(TokenType::Identifier, Some(LiteralValue::Identifier(text)));
            },
        }
    }

    /// Skips a block comment; `current` is just after its opening `/*`.
    /// Block comments nest. Returns false when the input ends first.
    fn block_comment(&mut self) -> (r: bool)
        requires
            old(self).wf(),
        ensures
            final(self).wf(),
            final(self).current >= old(self).current,
            final(self).source@ == old(self).source@,
            final(self).start == old(self).start,
            final(self).tokens@ == old(self).tokens@,
            final(self).errors@ == old(self).errors@,
            final(self).start_line == old(self).start_line,
            final(self).start_column == old(self).start_column,
            r == comment_end(old(self).source@, old(self).current as int, 1) is Some,
            r ==> final(self).current == comment_end(old(self).source@, old(self).current as int, 1)->0,
            !r ==> final(self).current == old(self).source@.len(),
    {
        let ghost target = comment_end(self.source@, self.current as int, 1);
        let ghost c0 = self.current;
        let mut depth: usize = 1;
        while depth > 0
            invariant
                self.wf(),
                self.current >= old(self).current,
                self.source@ == old(self).source@,
                self.start == old(self).start,
                self.tokens@ == old(self).tokens@,
                self.errors@ == old(self).errors@,
                self.start_line == old(self).start_line,
                self.start_column == old(self).start_column,
                c0 == old(self).current,
                target == comment_end(self.source@, c0 as int, 1),
                target == comment_end(self.source@, self.current as int, depth as nat),
                depth <= self.current - c0 + 1,
            decreases self.source@.len() - self.current,
        {
            if self.is_at_end() {
                return false;
            }
            let c = self.peek();
            let d = self.peek_next();
            if c == '/' && d == '*' {
                self.advance();
                self.advance();
                depth = depth + 1;
            } else if c == '*' && d == '/' {
                self.advance();
                self.advance();
                depth = depth - 1;
            } else {
                self.advance();
            }
        }
        true
    }
}

impl Lexer {
    fn add_single(&mut self, k: TokenType)
        requires
            old(self).wf(),
            old(self).current == old(self).start + 1,
            old(self).current <= old(self).source@.len(),
            single_kind(old(self).source@[old(self).start as int]) == Some(k),
            old(self).ready(),
        ensures
            final(self).wf(),
            final(self).current == old(self).current,
            final(self).source@ == old(self).source@,
            final(self).start == old(self).start,
            final(self).did(
                old(self),
                emit(old(self).source@, old(self).start as int, old(self).start + 1, k, None),
            ),
    {
        proof {
            let lx = self.source@.subrange(self.start as int, self.current as int);
            assert(lx.len() == 1 && lx[0] == self.source@[self.start as int]);
        }
        self.add_token(k, None);
    }

    /// Scans a one- or two-character operator whose first character is
    /// consumed; a second character `second` makes it `two`.
    fn add_maybe_double(&mut self, second: char, one: TokenType, two: TokenType)
        requires
            old(self).wf(),
            old(self).current == old(self).start + 1,
            old(self).current <= old(self).source@.len(),
            single_kind(old(self).source@[old(self).start as int]) == Some(one),
            double_kind(old(self).source@[old(self).start as int], second) == Some(two),
            old(self).ready(),
        ensures
            final(self).wf(),
            final(self).current > old(self).start,
            final(self).source@ == old(self).source@,
            final(self).start == old(self).start,
            final(self).did(old(self), maybe_double(old(self).source@, old(self).start as int, second)),
    {
        if !self.is_at_end() && self.peek() == second {
            self.advance();
            proof {
                let lx = self.source@.subrange(self.start as int, self.current as int);
                assert(lx.len() == 2 && lx[0] == self.source@[self.start as int] && lx[1] == second);
            }
            self.add_token(two, None);
        } else {
            self.add_single(one);
        }
    }

    /// Scans one token, or skips whitespace or a comment, from `start`.
    fn scan_token(&mut self)
        requires
            old(self).wf(),
            old(self).start == old(self).current < old(self).source@.len(),
        ensures
            final(self).wf(),
            final(self).current > old(self).current,
            final(self).source@ == old(self).source@,
            final(self).did(old(self), step(old(self).source@, old(self).start as int)),
    {
        let c = self.peek();
        if is_digit(c) {
            self.number();
            return;
        }
        if is_alpha(c) {
            self.identifier();
            return;
        }
        self.advance();
        match c {
            '(' => self.add_single(TokenType::LeftParen),
            ')' => self.add_single(TokenType::RightParen),
            '{' => self.add_single(TokenType::LeftBrace),
            '}' => self.add_single(TokenType::RightBrace),
            ',' => self.add_single(TokenType::Comma),
            '+' => self.add_single(TokenType::Plus),
            '-' => self.add_single(TokenType::Minus),
            ';' => self.add_single(TokenType::Semicolon),
            '*' => self.add_single(TokenType::Star),
            '?' => self.add_single(TokenType::QuestionMark),
            ':' => self.add_single(TokenType::Colon),
            '.' => self.add_maybe_double('.', TokenType::Dot, TokenType::DotDot),
            '!' => self.add_maybe_double('=', TokenType::Bang, TokenType::BangEqual),
            '<' => self.add_maybe_double('=', TokenType::Less, TokenType::LessEqual),
            '>' => self.add_maybe_double('=', TokenType::Greater, TokenType::GreaterEqual),
            '=' => {
                if !self.is_at_end() && self.peek() == '>' {
                    self.add_maybe_double('>', TokenType::Equal, TokenType::Arrow);
                } else {
                    self.add_maybe_double('=', TokenType::Equal, TokenType::EqualEqual);
                }
            },
            '/' => {
                if !self.is_at_end() && self.peek() == '/' {
                    while !self.is_at_end() && self.peek() != '\n'
                        invariant
                            self.wf(),
                            self.current > old(self).current,
                            self.source@ == old(self).source@,
                            self.start == old(self).start,
                            self.tokens@ == old(self).tokens@,
                            self.errors@ == old(self).errors@,
                            line_end(self.source@, old(self).current + 1) == line_end(
                                self.source@,
                                self.current as int,
                            ),
                        decreases self.source@.len() - self.current,
                    {
                        self.advance();
                    }
                } else if !self.is_at_end() && self.peek() == '*' {
                    self.advance();
                    if !self.block_comment() {
                        self.add_error(LexErrorKind::UnterminatedComment);
                    }
                } else {
                    self.add_single(TokenType::Slash);
                }
            },
            '"' => self.string(),
            ' ' | '\r' | '\t' | '\n' => {},
            _ => {
                proof {
                    let lx = self.source@.subrange(self.start as int, self.current as int);
                    assert(lx.len() == 1 && lx[0] == c);
                }
                self.add_token(TokenType::Error, None);
                self.add_error(LexErrorKind::UnrecognizedChar(c));
            },
        }
    }

    /// Scans the whole source. The tokens end with one `EOF` token; every
    /// lexical error is collected.
    pub fn scan_all(&mut self)
        requires
            old(self).wf(),
        ensures
            final(self).wf(),
            final(self).source_view() == old(self).source_view(),
            all_tokens_ok(final(self).source_view(), final(self).tokens_view()),
            tviews(final(self).tokens_view()) == tviews(old(self).tokens_view()) + lex_from(
                old(self).source_view(),
                old(self).position(),
            ).0,
            final(self).errors_view() == old(self).errors_view() + lex_from(
                old(self).source_view(),
                old(self).position(),
            ).1,
            final(self).position() == final(self).source_view().len(),
    {
        let ghost src = self.source@;
        let ghost c0 = self.current as int;
        self.start = self.current;
        self.start_line = self.line;
        self.start_column = self.column;
        proof {
            assert(tviews(old(self).tokens@) + lex_from(src, c0).0 =~= tviews(self.tokens@) + lex_from(src, self.current as int).0);
            assert(old(self).errors@ + lex_from(src, c0).1 =~= self.errors@ + lex_from(src, self.current as int).1);
        }
        while !self.is_at_end()
            invariant
                self.wf(),
                self.start == self.current,
                self.source@ == src,
                src == old(self).source@,
                tviews(old(self).tokens@) + lex_from(src, c0).0 == tviews(self.tokens@) + lex_from(src, self.current as int).0,
                old(self).errors@ + lex_from(src, c0).1 == self.errors@ + lex_from(src, self.current as int).1,
            decreases self.source@.len() - self.current,
        {
            let ghost t0 = tviews(self.tokens@);
            let ghost e0 = self.errors@;
            let ghost cur = self.current as int;
            self.scan_token();
            proof {
                let st = step(src, cur);
                let (ts, es) = lex_from(src, st.end);
                assert(lex_from(src, cur) == (opt_seq(st.token) + ts, opt_seq(st.error) + es));
                assert(app(t0, st.token) + ts =~= t0 + (opt_seq(st.token) + ts));
                assert(app(e0, st.error) + es =~= e0 + (opt_seq(st.error) + es));
            }
            self.start = self.current;
            self.start_line = self.line;
            self.start_column = self.column;
        }
        proof {
            let lx = self.source@.subrange(self.start as int, self.current as int);
            assert(lx.len() == 0);
        }
        let ghost t1 = tviews(self.tokens@);
        self.add_token(TokenType::EOF, None);
        proof {
            assert forall|i: int| 0 <= i < self.tokens@.len() implies token_ok(
                self.source@,
                #[trigger] self.tokens@[i],
            ) by {}
            assert(lex_from(src, self.current as int) == (seq![eof_token(src)], Seq::<LexError>::empty()));
            assert(t1.push(eof_token(src)) =~= t1 + seq![eof_token(src)]);
            assert(self.errors@ + Seq::<LexError>::empty() =~= self.errors@);
        }
    }
}

/// The description of a lexical error.
pub open spec fn lex_message(e: LexError) -> Seq<char> {
    let n = digits_of(e.line as nat);
    match e.kind {
        LexErrorKind::UnterminatedString => "Unterminated string at line: "@ + n,
        LexErrorKind::UnterminatedComment => "Unterminated multi line comment in line "@ + n,
        LexErrorKind::UnrecognizedChar(c) => "Unrecognized char: "@.push(c) + (" at line: "@ + n),
        LexErrorKind::NumberTooLarge => "Number literal too large in line "@ + n,
        LexErrorKind::TooManyFractionDigits => "Too many digits after the decimal point in line "@ + n,
    }
}

/// The descriptions of errors, each followed by a newline.
pub open spec fn lex_messages(es: Seq<LexError>) -> Seq<char>
    decreases es.len(),
{
    if es.len() == 0 {
        Seq::empty()
    } else {
        lex_messages(es.drop_last()) + lex_message(es.last()) + "\n"@
    }
}

impl LexError {
    /// A readable description of the error, with its line.
    pub fn message(&self) -> (r: String)
        ensures
            r@ == lex_message(*self),
    {
        let line = self.line as u64;
        match self.kind {
            LexErrorKind::UnterminatedString => with_number("Unterminated string at line: ", line),
            LexErrorKind::UnterminatedComment => with_number(
                "Unterminated multi line comment in line ",
                line,
            ),
            LexErrorKind::UnrecognizedChar(c) => {
                let mut s = String::from_str("Unrecognized char: ");
                push_char(&mut s, c);
                s.append(&with_number(" at line: ", line));
                s
            },
            LexErrorKind::NumberTooLarge => with_number("Number literal too large in line ", line),
            LexErrorKind::TooManyFractionDigits => with_number(
                "Too many digits after the decimal point in line ",
                line,
            ),
        }
    }
}

/// Copies of the tokens, each holding the same values.
pub fn duplicate_tokens(ts: &Vec<Token>) -> (r: Vec<Token>)
    ensures
        r@.len() == ts@.len(),
        forall|i: int| 0 <= i < ts@.len() ==> token_same(#[trigger] r@[i], ts@[i]),
        tviews(r@) == tviews(ts@),
{
    let mut out: Vec<Token> = Vec::new();
    let mut i: usize = 0;
    while i < ts.len()
        invariant
            i <= ts@.len(),
            out@.len() == i,
            forall|j: int| 0 <= j < i ==> token_same(#[trigger] out@[j], ts@[j]),
        decreases ts@.len() - i,
    {
        out.push(ts[i].duplicate());
        i += 1;
    }
    proof {
        assert forall|j: int| 0 <= j < ts@.len() implies tviews(out@)[j] == tviews(ts@)[j] by {
            assert(token_same(out@[j], ts@[j]));
        }
        assert(tviews(out@) =~= tviews(ts@));
    }
    out
}

proof fn lemma_same_tokens_ok(src: Seq<char>, a: Seq<Token>, b: Seq<Token>)
    requires
        all_tokens_ok(src, a),
        a.len() == b.len(),
        forall|i: int| 0 <= i < a.len() ==> token_same(#[trigger] b[i], a[i]),
    ensures
        all_tokens_ok(src, b),
{
    assert forall|i: int| 0 <= i < b.len() implies token_ok(src, #[trigger] b[i]) by {
        assert(token_same(b[i], a[i]));
        assert(token_ok(src, a[i]));
        let t = b[i];
        if t.token_type is Number {
            let k = choose|k: int| #[trigger]
                number_parts(a[i].lexeme@, k) && 0 <= number_units(a[i].lexeme@, k) <= MAX_UNITS
                    && a[i].literal == Some(LiteralValue::Number(number_units(a[i].lexeme@, k) as i64));
            assert(number_parts(t.lexeme@, k));
        }
    }
    assert(token_same(b[b.len() - 1], a[a.len() - 1]));
}

impl Lexer {
    /// Scans the whole source. On success, the tokens, which agree with the
    /// source and end with `EOF`; otherwise every error message, each
    /// followed by a newline.
    pub fn scan_tokens(&mut self) -> (r: Result<Vec<Token>, String>)
        requires
            old(self).wf(),
        ensures
            final(self).wf(),
            final(self).source_view() == old(self).source_view(),
            all_tokens_ok(final(self).source_view(), final(self).tokens_view()),
            r is Ok <==> final(self).errors_view().len() == 0,
            r matches Ok(ts) ==> all_tokens_ok(final(self).source_view(), ts@),
            r matches Ok(ts) ==> tviews(ts@) == tviews(final(self).tokens_view()),
            r matches Err(m) ==> m@ == lex_messages(final(self).errors_view()),
            tviews(final(self).tokens_view()) == tviews(old(self).tokens_view()) + lex_from(
                old(self).source_view(),
                old(self).position(),
            ).0,
            final(self).errors_view() == old(self).errors_view() + lex_from(
                old(self).source_view(),
                old(self).position(),
            ).1,
    {
        self.scan_all();
        if self.errors.len() == 0 {
            let ts = duplicate_tokens(&self.tokens);
            proof {
                lemma_same_tokens_ok(self.source@, self.tokens@, ts@);
            }
            Ok(ts)
        } else {
            let mut joined = String::new();
            let mut i: usize = 0;
            while i < self.errors.len()
                invariant
                    i <= self.errors@.len(),
                    joined@ == lex_messages(self.errors@.subrange(0, i as int)),
                decreases self.errors@.len() - i,
            {
                proof {
                    assert(self.errors@.subrange(0, i + 1).drop_last() =~= self.errors@.subrange(0, i as int));
                }
                let m = self.errors[i].message();
                joined.append(m.as_str());
                joined.append("\n");
                i += 1;
            }
            proof {
                assert(self.errors@.subrange(0, i as int) =~= self.errors@);
            }
            Err(joined)
        }
    }
}

impl Lexer {
    /// Scans the whole source and returns every token, an `Error` token
    /// standing for each character that starts none; the errors stay
    /// available from `errors`.
    pub fn tokenize(&mut self) -> (r: Vec<Token>)
        requires
            old(self).wf(),
        ensures
            final(self).wf(),
            final(self).source_view() == old(self).source_view(),
            all_tokens_ok(final(self).source_view(), r@),
            tviews(r@) == tviews(old(self).tokens_view()) + lex_from(
                old(self).source_view(),
                old(self).position(),
            ).0,
            final(self).errors_view() == old(self).errors_view() + lex_from(
                old(self).source_view(),
                old(self).position(),
            ).1,
    {
        self.scan_all();
        let ts = duplicate_tokens(&self.tokens);
        proof {
            lemma_same_tokens_ok(self.source@, self.tokens@, ts@);
        }
        ts
    }
}

} // verus!
