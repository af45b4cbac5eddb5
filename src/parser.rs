//! The parser: tokens to statements, by recursive descent.
//!
//! Precedence, lowest first: assignment, `or`, `and`, the ternary
//! `c ? a : b`, equality, comparison, `+ -`, `* /`, prefix `! -`, then
//! calls, groupings, literals and names. A `for` loop is rewritten into a
//! `while` loop. After an error the parser skips to the next statement
//! boundary and goes on, so that one pass reports several errors.

use std::rc::Rc;
use vstd::prelude::*;
use crate::ast::{BinaryOp, Expr, FunctionDecl, Program, Stmt, UnaryOp};
use crate::token::{LiteralValue, Span, Token, TokenType};
use crate::value::LiteralValueAst;
use vstd::string::StringExecFns;

verus! {

/// Nesting budget of one parse: each level of nested parentheses, blocks,
/// prefix operators or right-hand sides of `=` uses one unit.
pub const MAX_NESTING: usize = 256;

/// The most arguments a call may have.
pub const MAX_ARGUMENTS: usize = 255;

/// A parse error: what was expected, and where.
#[derive(Debug)]
pub struct ParserError {
    pub message: String,
    pub span: Span,
}

/// Parses a token list into a program.
pub struct Parser {
    tokens: Vec<Token>,
    current: usize,
    errors: Vec<ParserError>,
    next_id: usize,
}

/// The statement a desugared `for` loop runs after its initializer.
pub open spec fn loop_part(s: Stmt, has_init: bool) -> Stmt {
    if has_init {
        match s {
            Stmt::Block { statements } => if statements@.len() == 2 {
                statements@[1]
            } else {
                s
            },
            _ => s,
        }
    } else {
        s
    }
}

/// The shape of the `while` loop that `for (init; cond; incr) body`
/// stands for: a block of the initializer and the loop when there is an
/// initializer, and a loop body that ends with the increment when there
/// is one.
pub open spec fn is_for_loop(s: Stmt, has_init: bool, has_incr: bool) -> bool {
    &&& has_init ==> (s matches Stmt::Block { statements } && statements@.len() == 2)
    &&& loop_part(s, has_init) is WhileStmt
    &&& has_incr ==> (loop_part(s, has_init) matches Stmt::WhileStmt { body, .. } && (
    *body matches Stmt::Block { statements } && statements@.len() == 2
        && statements@[1] is Expression))
}

impl Parser {
    pub closed spec fn wf(&self) -> bool {
        &&& self.tokens@.len() >= 1
        &&& self.tokens@.last().token_type is EOF
        &&& self.current < self.tokens@.len()
        &&& self.next_id <= self.current
    }

    pub closed spec fn position(&self) -> int {
        self.current as int
    }

    pub closed spec fn error_count(&self) -> int {
        self.errors@.len() as int
    }

    /// The token `current` stands on.
    pub closed spec fn peek_spec(&self) -> Token {
        self.tokens@[self.current as int]
    }

    /// A parser over `tokens`; an `EOF` token is added when the list does
    /// not end with one.
    pub fn new(tokens: Vec<Token>) -> (r: Parser)
        ensures
            r.wf(),
            r.position() == 0,
            r.error_count() == 0,
    {
        let mut tokens = tokens;
        let n = tokens.len();
        if n == 0 || tokens[n - 1].token_type != TokenType::EOF {
            let (line, end) = if n == 0 {
                (1, 0)
            } else {
                (tokens[n - 1].span.line, tokens[n - 1].span.end)
            };
            if n < usize::MAX {
                tokens.push(
                    Token {
                        token_type: TokenType::EOF,
                        lexeme: String::new(),
                        literal: None,
                        line_number: line,
                        span: Span { start: end, end, line, column: 1 },
                    },
                );
            } else {
                tokens.pop();
                tokens.push(
                    Token {
                        token_type: TokenType::EOF,
                        lexeme: String::new(),
                        literal: None,
                        line_number: line,
                        span: Span { start: end, end, line, column: 1 },
                    },
                );
            }
        }
        Parser { tokens, current: 0, errors: Vec::new(), next_id: 0 }
    }

    fn peek_type(&self) -> (r: TokenType)
        requires
            self.wf(),
        ensures
            r == self.peek_spec().token_type,
    {
        self.tokens[self.current].token_type
    }

    fn is_at_end(&self) -> (r: bool)
        requires
            self.wf(),
        ensures
            r == (self.peek_spec().token_type is EOF),
    {
        self.peek_type() == TokenType::EOF
    }

    fn check(&self, t: TokenType) -> (r: bool)
        requires
            self.wf(),
        ensures
            r == (self.peek_spec().token_type == t),
    {
        self.peek_type() == t
    }

    /// Moves past the current token, unless it is `EOF`.
    fn advance(&mut self)
        requires
            old(self).wf(),
        ensures
            final(self).wf(),
            final(self).tokens@ == old(self).tokens@,
            final(self).errors@ == old(self).errors@,
            final(self).next_id == old(self).next_id,
            !(old(self).peek_spec().token_type is EOF) ==> final(self).current == old(self).current
                + 1,
            old(self).peek_spec().token_type is EOF ==> final(self).current == old(self).current,
    {
        let _ = self.tokens.len();
        if !self.is_at_end() {
            self.current = self.current + 1;
        }
    }

    /// Consumes the current token when it has kind `t`.
    fn match_token(&mut self, t: TokenType) -> (r: bool)
        requires
            old(self).wf(),
        ensures
            final(self).wf(),
            final(self).tokens@ == old(self).tokens@,
            final(self).errors@ == old(self).errors@,
            final(self).next_id == old(self).next_id,
            r == (old(self).peek_spec().token_type == t && !(t is EOF)),
            r ==> final(self).current == old(self).current + 1,
            !r ==> final(self).current == old(self).current,
    {
        if t != TokenType::EOF && self.check(t) {
            self.advance();
            true
        } else {
            false
        }
    }

    fn error_here(&self, message: &str) -> (r: ParserError)
        requires
            self.wf(),
    {
        ParserError { message: String::from_str(message), span: self.tokens[self.current].span }
    }

    /// Consumes a token of kind `t`, or fails with `message`.
    fn consume(&mut self, t: TokenType, message: &str) -> (r: Result<(), ParserError>)
        requires
            old(self).wf(),
            !(t is EOF),
        ensures
            final(self).wf(),
            final(self).tokens@ == old(self).tokens@,
            final(self).errors@ == old(self).errors@,
            final(self).next_id == old(self).next_id,
            r is Ok == (old(self).peek_spec().token_type == t),
            r is Ok ==> final(self).current == old(self).current + 1,
            r is Err ==> final(self).current == old(self).current,
    {
        if self.match_token(t) {
            Ok(())
        } else {
            Err(self.error_here(message))
        }
    }

    /// A fresh node id.
    fn fresh_id(&mut self) -> (r: usize)
        requires
            old(self).wf(),
            old(self).next_id < old(self).current,
        ensures
            final(self).wf(),
            final(self).tokens@ == old(self).tokens@,
            final(self).errors@ == old(self).errors@,
            final(self).current == old(self).current,
            final(self).next_id == old(self).next_id + 1,
            r == old(self).next_id,
    {
        let r = self.next_id;
        self.next_id = self.next_id + 1;
        r
    }
}

/// The binary operator a token kind stands for.
pub open spec fn binary_op_of(t: TokenType) -> Option<BinaryOp> {
    match t {
        TokenType::Plus => Some(BinaryOp::Add),
        TokenType::Minus => Some(BinaryOp::Subtract),
        TokenType::Star => Some(BinaryOp::Multiply),
        TokenType::Slash => Some(BinaryOp::Divide),
        TokenType::EqualEqual => Some(BinaryOp::Equals),
        TokenType::BangEqual => Some(BinaryOp::NotEquals),
        TokenType::Less => Some(BinaryOp::LessThan),
        TokenType::LessEqual => Some(BinaryOp::LessEq),
        TokenType::Greater => Some(BinaryOp::GreaterThan),
        TokenType::GreaterEqual => Some(BinaryOp::GreaterEq),
        TokenType::And => Some(BinaryOp::And),
        TokenType::Or => Some(BinaryOp::Or),
        _ => None,
    }
}

fn binary_op(t: TokenType) -> (r: BinaryOp)
    requires
        binary_op_of(t) is Some,
    ensures
        Some(r) == binary_op_of(t),
{
    match t {
        TokenType::Plus => BinaryOp::Add,
        TokenType::Minus => BinaryOp::Subtract,
        TokenType::Star => BinaryOp::Multiply,
        TokenType::Slash => BinaryOp::Divide,
        TokenType::EqualEqual => BinaryOp::Equals,
        TokenType::BangEqual => BinaryOp::NotEquals,
        TokenType::Less => BinaryOp::LessThan,
        TokenType::LessEqual => BinaryOp::LessEq,
        TokenType::Greater => BinaryOp::GreaterThan,
        TokenType::GreaterEqual => BinaryOp::GreaterEq,
        TokenType::And => BinaryOp::And,
        _ => BinaryOp::Or,
    }
}

/// The operator kinds of each binary precedence level, loosest first.
pub open spec fn level_has(level: u8, t: TokenType) -> bool {
    match level {
        0 => t is Or,
        1 => t is And,
        2 => t is EqualEqual || t is BangEqual,
        3 => t is Less || t is LessEqual || t is Greater || t is GreaterEqual,
        4 => t is Plus || t is Minus,
        _ => t is Star || t is Slash,
    }
}

impl Parser {
    /// The parser moved on from `o`: same tokens and errors, not backward.
    pub closed spec fn moved_on(&self, o: &Parser) -> bool {
        &&& self.wf()
        &&& self.tokens@ == o.tokens@
        &&& self.errors@ == o.errors@
        &&& self.current >= o.current
    }

    fn too_deep(&self) -> (r: ParserError)
        requires
            self.wf(),
    {
        self.error_here("Expression nested too deeply")
    }

    fn operator_at(&self, level: u8) -> (r: bool)
        requires
            self.wf(),
        ensures
            r == (level_has(level, self.peek_spec().token_type)),
    {
        let t = self.peek_type();
        match level {
            0 => t == TokenType::Or,
            1 => t == TokenType::And,
            2 => t == TokenType::EqualEqual || t == TokenType::BangEqual,
            3 => t == TokenType::Less || t == TokenType::LessEqual || t == TokenType::Greater || t
                == TokenType::GreaterEqual,
            4 => t == TokenType::Plus || t == TokenType::Minus,
            _ => t == TokenType::Star || t == TokenType::Slash,
        }
    }

    fn expression(&mut self, d: usize) -> (r: Result<Expr, ParserError>)
        requires
            old(self).wf(),
        ensures
            final(self).moved_on(old(self)),
            r matches Ok(e) ==> parsed_shape(e),
        decreases d, 22u8,
    {
        self.assignment(d)
    }

    fn assignment(&mut self, d: usize) -> (r: Result<Expr, ParserError>)
        requires
            old(self).wf(),
        ensures
            final(self).moved_on(old(self)),
            r matches Ok(e) ==> parsed_shape(e),
        decreases d, 21u8,
    {
        let expr = self.binary_level(d, 0)?;
        if self.check(TokenType::Equal) {
            let err = self.error_here("Invalid assignment target");
            self.advance();
            if d == 0 {
                return Err(self.too_deep());
            }
            let value = self.assignment(d - 1)?;
            match expr {
                Expr::Variable { name, id, line } => Ok(
                    Expr::Assign { name, value: Box::new(value), id, line },
                ),
                _ => Err(err),
            }
        } else {
            Ok(expr)
        }
    }

    /// One binary precedence level; `level` 2 and above sit below the
    /// ternary operator.
    fn binary_level(&mut self, d: usize, level: u8) -> (r: Result<Expr, ParserError>)
        requires
            old(self).wf(),
            level <= 5,
        ensures
            final(self).moved_on(old(self)),
            r matches Ok(e) ==> shaped(e, shape_level(level)),
        decreases d, 20u8 - 2 * level,
    {
        let mut expr = if level == 1 {
            self.ternary(d)?
        } else if level == 5 {
            self.unary(d)?
        } else {
            self.binary_level(d, level + 1)?
        };
        proof {
            lemma_lift(expr, shape_level(level));
        }
        while self.operator_at(level)
            invariant
                self.moved_on(old(self)),
                level <= 5,
                shaped(expr, shape_level(level)),
            decreases self.tokens@.len() - self.current,
        {
            let t = self.peek_type();
            let line = self.tokens[self.current].line_number;
            self.advance();
            let op = binary_op(t);
            let right = if level == 1 {
                self.ternary(d)?
            } else if level == 5 {
                self.unary(d)?
            } else {
                self.binary_level(d, level + 1)?
            };
            assert(op_level(op) == shape_level(level));
            if level <= 1 {
                expr = Expr::Logical { left: Box::new(expr), op, right: Box::new(right) };
            } else {
                expr = Expr::Binary { left: Box::new(expr), op, right: Box::new(right), line };
            }
        }
        Ok(expr)
    }

    fn ternary(&mut self, d: usize) -> (r: Result<Expr, ParserError>)
        requires
            old(self).wf(),
        ensures
            final(self).moved_on(old(self)),
            r matches Ok(e) ==> shaped(e, 2),
        decreases d, 17u8,
    {
        let condition = self.binary_level(d, 2)?;
        if self.match_token(TokenType::QuestionMark) {
            if d == 0 {
                return Err(self.too_deep());
            }
            let expr_true = self.expression(d - 1)?;
            self.consume(TokenType::Colon, "Expected ':' after true expression")?;
            let expr_false = self.expression(d - 1)?;
            Ok(
                Expr::Ternary {
                    condition: Box::new(condition),
                    expr_true: Box::new(expr_true),
                    expr_false: Box::new(expr_false),
                },
            )
        } else {
            proof {
                lemma_lift(condition, 2);
            }
            Ok(condition)
        }
    }

    fn unary(&mut self, d: usize) -> (r: Result<Expr, ParserError>)
        requires
            old(self).wf(),
        ensures
            final(self).moved_on(old(self)),
            r matches Ok(e) ==> shaped(e, 7),
        decreases d, 9u8,
    {
        let t = self.peek_type();
        if t == TokenType::Bang || t == TokenType::Minus {
            let line = self.tokens[self.current].line_number;
            self.advance();
            if d == 0 {
                return Err(self.too_deep());
            }
            let value = self.unary(d - 1)?;
            let op = if t == TokenType::Bang {
                UnaryOp::Not
            } else {
                UnaryOp::Negate
            };
            Ok(Expr::Unary { op, value: Box::new(value), line })
        } else {
            let r = self.call(d);
            proof {
                if r is Ok {
                    lemma_lift(r->Ok_0, 7);
                }
            }
            r
        }
    }

    fn call(&mut self, d: usize) -> (r: Result<Expr, ParserError>)
        requires
            old(self).wf(),
        ensures
            final(self).moved_on(old(self)),
            r matches Ok(e) ==> shaped(e, 8),
        decreases d, 8u8,
    {
        let mut expr = self.primary(d)?;
        while self.check(TokenType::LeftParen)
            invariant
                self.moved_on(old(self)),
                shaped(expr, 8),
            decreases self.tokens@.len() - self.current,
        {
            let line = self.tokens[self.current].line_number;
            let ghost c0 = self.current;
            self.advance();
            if d == 0 {
                return Err(self.too_deep());
            }
            let mut arguments: Vec<Expr> = Vec::new();
            if !self.check(TokenType::RightParen) {
                loop
                    invariant
                        self.moved_on(old(self)),
                        self.current > c0,
                        d > 0,
                    decreases self.tokens@.len() - self.current,
                {
                    let arg = self.expression(d - 1)?;
                    arguments.push(arg);
                    if arguments.len() >= MAX_ARGUMENTS {
                        return Err(self.error_here("Function cant have more than 255 arguments"));
                    }
                    if !self.match_token(TokenType::Comma) {
                        break;
                    }
                }
            }
            self.consume(TokenType::RightParen, "Expected ')' after arguments")?;
            expr = Expr::Call { callee: Box::new(expr), arguments, line };
        }
        Ok(expr)
    }

    fn primary(&mut self, d: usize) -> (r: Result<Expr, ParserError>)
        requires
            old(self).wf(),
        ensures
            final(self).moved_on(old(self)),
            r matches Ok(e) ==> shaped(e, 8),
            r is Ok ==> {
                let t = old(self).peek_spec().token_type;
                t is LeftParen || t is True || t is False || t is Null || t is Number || t is String
                    || t is Identifier || t is Fn
            },
            old(self).peek_spec().token_type is True ==> (r matches Ok(Expr::Literal { value })
                && value@ == crate::value::ValueView::Bool(true)),
            old(self).peek_spec().token_type is False ==> (r matches Ok(Expr::Literal { value })
                && value@ == crate::value::ValueView::Bool(false)),
            old(self).peek_spec().token_type is Null ==> (r matches Ok(Expr::Literal { value })
                && value@ == crate::value::ValueView::Null),
            old(self).peek_spec().token_type is Number ==> (old(self).peek_spec().literal matches Some(
                LiteralValue::Number(u),
            ) ==> (r matches Ok(Expr::Literal { value }) && value@
                == crate::value::ValueView::Number(u as int))),
            old(self).peek_spec().token_type is String ==> (old(self).peek_spec().literal matches Some(
                LiteralValue::StringValue(s),
            ) ==> (r matches Ok(Expr::Literal { value }) && value@ == crate::value::ValueView::Str(
                s@,
            ))),
            old(self).peek_spec().token_type is Identifier ==> (r matches Ok(
                Expr::Variable { name, .. },
            ) && name@ == old(self).peek_spec().lexeme@),
        decreases d, 7u8,
    {
        let t = self.peek_type();
        let line = self.tokens[self.current].line_number;
        match t {
            TokenType::LeftParen => {
                self.advance();
                if d == 0 {
                    return Err(self.too_deep());
                }
                let expr = self.expression(d - 1)?;
                self.consume(TokenType::RightParen, "Expected ')'")?;
                Ok(Expr::Grouping { expression: Box::new(expr) })
            },
            TokenType::True => {
                self.advance();
                Ok(Expr::Literal { value: LiteralValueAst::True })
            },
            TokenType::False => {
                self.advance();
                Ok(Expr::Literal { value: LiteralValueAst::False })
            },
            TokenType::Null => {
                self.advance();
                Ok(Expr::Literal { value: LiteralValueAst::Null })
            },
            TokenType::Number => {
                let v = match &self.tokens[self.current].literal {
                    Some(LiteralValue::Number(u)) => Some(*u),
                    _ => None,
                };
                match v {
                    Some(u) => {
                        self.advance();
                        Ok(Expr::Literal { value: LiteralValueAst::Number(u) })
                    },
                    None => Err(self.error_here("Number token without a value")),
                }
            },
            TokenType::String => {
                let v = match &self.tokens[self.current].literal {
                    Some(LiteralValue::StringValue(s)) => Some(s.clone()),
                    _ => None,
                };
                match v {
                    Some(s) => {
                        self.advance();
                        Ok(Expr::Literal { value: LiteralValueAst::StringValue(s) })
                    },
                    None => Err(self.error_here("String token without a value")),
                }
            },
            TokenType::Identifier => {
                let name = self.tokens[self.current].lexeme.clone();
                self.advance();
                let id = self.fresh_id();
                Ok(Expr::Variable { name, id, line })
            },
            TokenType::Fn => {
                self.advance();
                if d == 0 {
                    return Err(self.too_deep());
                }
                let decl = self.function_rest(d - 1, String::from_str("anon_function"), line)?;
                Ok(Expr::AnonFunction { decl: Rc::new(decl) })
            },
            _ => Err(self.error_here("Expected expression")),
        }
    }
}

impl Parser {
    /// The rest of a function after `fn` and its name: parameters and body.
    fn function_rest(&mut self, d: usize, name: String, line: usize) -> (r: Result<
        FunctionDecl,
        ParserError,
    >)
        requires
            old(self).wf(),
        ensures
            final(self).moved_on(old(self)),
            r matches Ok(f) ==> f.name@ == name@,
        decreases d, 48u8,
    {
        self.consume(TokenType::LeftParen, "Expected '(' after function name")?;
        let mut params: Vec<String> = Vec::new();
        if !self.check(TokenType::RightParen) {
            loop
                invariant
                    self.moved_on(old(self)),
                decreases self.tokens@.len() - self.current,
            {
                if !self.check(TokenType::Identifier) {
                    return Err(self.error_here("Expected parameter name"));
                }
                params.push(self.tokens[self.current].lexeme.clone());
                self.advance();
                if params.len() >= MAX_ARGUMENTS {
                    return Err(self.error_here("Function cant have more than 255 parameters"));
                }
                if !self.match_token(TokenType::Comma) {
                    break;
                }
            }
        }
        self.consume(TokenType::RightParen, "Expected ')' after parameters")?;
        self.consume(TokenType::LeftBrace, "Expected '{' before function body")?;
        let body = self.block_body(d)?;
        Ok(FunctionDecl { name, params, body, line })
    }

    /// Declarations up to the closing `}`, which is consumed.
    fn block_body(&mut self, d: usize) -> (r: Result<Vec<Stmt>, ParserError>)
        requires
            old(self).wf(),
        ensures
            final(self).moved_on(old(self)),
        decreases d, 45u8,
    {
        if d == 0 {
            return Err(self.too_deep());
        }
        let mut statements: Vec<Stmt> = Vec::new();
        while !self.check(TokenType::RightBrace) && !self.is_at_end()
            invariant
                self.moved_on(old(self)),
                d > 0,
            decreases self.tokens@.len() - self.current,
        {
            let before = self.current;
            let s = self.declaration(d - 1)?;
            statements.push(s);
            if self.current == before {
                return Err(self.error_here("Expected a statement"));
            }
        }
        self.consume(TokenType::RightBrace, "Expected '}' after a block")?;
        Ok(statements)
    }

    fn declaration(&mut self, d: usize) -> (r: Result<Stmt, ParserError>)
        requires
            old(self).wf(),
        ensures
            final(self).moved_on(old(self)),
            r matches Ok(st) ==> stmt_shape(st),
        decreases d, 50u8,
    {
        if self.match_token(TokenType::Let) {
            self.var_declaration(d)
        } else if self.check(TokenType::Fn) && self.current < self.tokens.len() - 1
            && self.tokens[self.current + 1].token_type == TokenType::Identifier {
            let line = self.tokens[self.current].line_number;
            self.advance();
            let name = self.tokens[self.current].lexeme.clone();
            self.advance();
            let decl = self.function_rest(d, name, line)?;
            Ok(Stmt::Function { decl: Rc::new(decl) })
        } else {
            self.statement(d)
        }
    }

    /// A `let` declaration after the keyword; without an initializer the
    /// variable starts as `null`.
    fn var_declaration(&mut self, d: usize) -> (r: Result<Stmt, ParserError>)
        requires
            old(self).wf(),
        ensures
            final(self).moved_on(old(self)),
            r matches Ok(st) ==> stmt_shape(st),
        decreases d, 44u8,
    {
        if !self.check(TokenType::Identifier) {
            return Err(self.error_here("Expected variable name"));
        }
        let name = self.tokens[self.current].lexeme.clone();
        let line = self.tokens[self.current].line_number;
        self.advance();
        let initializer = if self.match_token(TokenType::Equal) {
            self.expression(d)?
        } else {
            let e = Expr::Literal { value: LiteralValueAst::Null };
            proof {
                lemma_lift_to(e, 8, 0);
            }
            e
        };
        self.match_token(TokenType::Semicolon);
        Ok(Stmt::Let { name, initializer, line })
    }

    fn expression_statement(&mut self, d: usize) -> (r: Result<Stmt, ParserError>)
        requires
            old(self).wf(),
        ensures
            final(self).moved_on(old(self)),
            r matches Ok(st) ==> stmt_shape(st),
        decreases d, 44u8,
    {
        let expression = self.expression(d)?;
        self.match_token(TokenType::Semicolon);
        Ok(Stmt::Expression { expression })
    }

    fn statement(&mut self, d: usize) -> (r: Result<Stmt, ParserError>)
        requires
            old(self).wf(),
        ensures
            final(self).moved_on(old(self)),
            r matches Ok(st) ==> stmt_shape(st),
        decreases d, 47u8,
    {
        let line = self.tokens[self.current].line_number;
        if self.match_token(TokenType::Print) {
            let expression = self.expression(d)?;
            self.consume(TokenType::Semicolon, "Expected ';' after value.")?;
            Ok(Stmt::Print { expression })
        } else if self.match_token(TokenType::LeftBrace) {
            let statements = self.block_body(d)?;
            Ok(Stmt::Block { statements })
        } else if self.match_token(TokenType::If) {
            if d == 0 {
                return Err(self.too_deep());
            }
            self.consume(TokenType::LeftParen, "Expected '(' after 'if'")?;
            let predicate = self.expression(d)?;
            self.consume(TokenType::RightParen, "Expected ')' after if-predicate")?;
            let then = self.statement(d - 1)?;
            let els = if self.match_token(TokenType::Else) {
                Some(Box::new(self.statement(d - 1)?))
            } else {
                None
            };
            Ok(Stmt::IfStmt { predicate, then: Box::new(then), els })
        } else if self.match_token(TokenType::While) {
            if d == 0 {
                return Err(self.too_deep());
            }
            self.consume(TokenType::LeftParen, "Expected '(' after 'while'")?;
            let condition = self.expression(d)?;
            self.consume(TokenType::RightParen, "Expected ')' after condition")?;
            let body = self.statement(d - 1)?;
            Ok(Stmt::WhileStmt { condition, body: Box::new(body) })
        } else if self.match_token(TokenType::For) {
            self.for_statement(d)
        } else if self.match_token(TokenType::Break) {
            self.match_token(TokenType::Semicolon);
            Ok(Stmt::BreakStmt)
        } else if self.match_token(TokenType::Return) {
            let value = if self.check(TokenType::Semicolon) || self.check(TokenType::RightBrace)
                || self.is_at_end() {
                None
            } else {
                Some(self.expression(d)?)
            };
            self.match_token(TokenType::Semicolon);
            Ok(Stmt::ReturnStmt { value, line })
        } else {
            self.expression_statement(d)
        }
    }

    /// A `for` loop after the keyword, rewritten into a `while` loop: the
    /// initializer runs once before it, a missing condition is `true`, and
    /// the increment ends the loop body.
    fn for_statement(&mut self, d: usize) -> (r: Result<Stmt, ParserError>)
        requires
            old(self).wf(),
        ensures
            final(self).moved_on(old(self)),
            r matches Ok(st) ==> stmt_shape(st),
            r matches Ok(s) ==> exists|has_init: bool, has_incr: bool|
                is_for_loop(s, has_init, has_incr),
        decreases d, 46u8,
    {
        if d == 0 {
            return Err(self.too_deep());
        }
        self.consume(TokenType::LeftParen, "Expected '(' after 'for'.")?;
        let initializer = if self.match_token(TokenType::Semicolon) {
            None
        } else if self.match_token(TokenType::Let) {
            Some(self.var_declaration(d)?)
        } else {
            Some(self.expression_statement(d)?)
        };
        let condition = if !self.check(TokenType::Semicolon) {
            Some(self.expression(d)?)
        } else {
            None
        };
        self.consume(TokenType::Semicolon, "Expected ';' after loop condition.")?;
        let increment = if !self.check(TokenType::RightParen) {
            Some(self.expression(d)?)
        } else {
            None
        };
        self.consume(TokenType::RightParen, "Expected ')' after for clauses.")?;
        let body = self.statement(d - 1)?;
        let has_incr = increment.is_some();
        let body = match increment {
            Some(incr) => Stmt::Block {
                statements: vec![body, Stmt::Expression { expression: incr }],
            },
            None => body,
        };
        let condition = match condition {
            Some(c) => c,
            None => {
                let e = Expr::Literal { value: LiteralValueAst::True };
                proof {
                    lemma_lift_to(e, 8, 0);
                }
                e
            },
        };
        let looped = Stmt::WhileStmt { condition, body: Box::new(body) };
        let has_init = initializer.is_some();
        let r = match initializer {
            Some(init) => Stmt::Block { statements: vec![init, looped] },
            None => looped,
        };
        assert(is_for_loop(r, has_init, has_incr));
        Ok(r)
    }

    /// Skips tokens to the next statement boundary: past a `;`, or up to a
    /// token that starts a declaration or statement.
    fn synchronize(&mut self)
        requires
            old(self).wf(),
        ensures
            final(self).moved_on(old(self)),
            !(old(self).peek_spec().token_type is EOF) ==> final(self).current > old(self).current,
    {
        self.advance();
        while !self.is_at_end()
            invariant
                self.moved_on(old(self)),
                !(old(self).peek_spec().token_type is EOF) ==> self.current > old(self).current,
            decreases self.tokens@.len() - self.current,
        {
            if self.tokens[self.current - 1].token_type == TokenType::Semicolon {
                return;
            }
            let t = self.peek_type();
            if t == TokenType::Fn || t == TokenType::Let || t == TokenType::If || t
                == TokenType::While || t == TokenType::For || t == TokenType::Print || t
                == TokenType::Return || t == TokenType::Struct || t == TokenType::Enum {
                return;
            }
            self.advance();
        }
    }

    /// Parses every declaration. A program comes back only when there was
    /// no error; otherwise every error found, in order.
    pub fn parse(&mut self) -> (r: Result<Program, Vec<ParserError>>)
        requires
            old(self).wf(),
        ensures
            final(self).wf(),
            r is Ok <==> final(self).error_count() == 0,
            r matches Err(es) ==> es@.len() == final(self).error_count() && es@.len() > 0,
            r matches Ok(p) ==> forall|i: int|
                0 <= i < p.statements@.len() ==> stmt_shape(#[trigger] p.statements@[i]),
            old(self).error_count() > 0 ==> r is Err,
    {
        let mut statements: Vec<Stmt> = Vec::new();
        while !self.is_at_end()
            invariant
                self.wf(),
                self.errors@.len() >= old(self).errors@.len(),
                forall|i: int| 0 <= i < statements@.len() ==> stmt_shape(#[trigger] statements@[i]),
            decreases self.tokens@.len() - self.current,
        {
            let before = self.current;
            match self.declaration(MAX_NESTING) {
                Ok(s) => {
                    statements.push(s);
                    if self.current == before {
                        let e = self.error_here("Expected a statement");
                        self.errors.push(e);
                        self.synchronize();
                    }
                },
                Err(e) => {
                    self.errors.push(e);
                    if self.current == before {
                        self.synchronize();
                    } else if !self.is_at_end() {
                        self.synchronize();
                    }
                },
            }
        }
        if self.errors.len() == 0 {
            Ok(Program { statements, node_count: self.next_id })
        } else {
            let mut es: Vec<ParserError> = Vec::new();
            std::mem::swap(&mut es, &mut self.errors);
            let n = es.len();
            let mut i: usize = 0;
            while i < n
                invariant
                    self.wf(),
                    i <= n,
                    n == es@.len(),
                    self.errors@.len() == i,
                decreases n - i,
            {
                let e = &es[i];
                self.errors.push(ParserError { message: e.message.clone(), span: e.span });
                i += 1;
            }
            Err(es)
        }
    }
}

/// The precedence level of an infix operator: `or` 0, `and` 1, equality 3,
/// comparison 4, `+ -` 5, `* /` 6 (level 2 is the ternary operator).
pub open spec fn op_level(op: BinaryOp) -> int {
    match op {
        BinaryOp::Or => 0,
        BinaryOp::And => 1,
        BinaryOp::Equals | BinaryOp::NotEquals => 3,
        BinaryOp::LessThan | BinaryOp::LessEq | BinaryOp::GreaterThan | BinaryOp::GreaterEq => 4,
        BinaryOp::Add | BinaryOp::Subtract => 5,
        BinaryOp::Multiply | BinaryOp::Divide => 6,
        _ => 9,
    }
}

/// `e` has the shape of an expression parsed at precedence `level`: at an
/// infix level, a left-leaning chain of that level's operators whose right
/// operands sit one level tighter; at level 2, a ternary whose condition
/// sits at level 3; at level 7, prefix operators; at level 8, a literal,
/// name, grouping, call or function. Anything else at a level is an
/// expression of the next one.
pub open spec fn shaped(e: Expr, level: int) -> bool
    decreases e, 9 - level,
{
    if level < 0 || level > 8 {
        false
    } else if level == 8 {
        e is Literal || e is Variable || e is Grouping || e is Call || e is AnonFunction
    } else if level == 7 {
        match e {
            Expr::Unary { value, .. } => shaped(*value, 7),
            _ => shaped(e, 8),
        }
    } else if level == 2 {
        match e {
            Expr::Ternary { condition, .. } => shaped(*condition, 3),
            _ => shaped(e, 3),
        }
    } else {
        match e {
            Expr::Logical { left, op, right } => if level <= 1 && op_level(op) == level {
                shaped(*left, level) && shaped(*right, level + 1)
            } else {
                shaped(e, level + 1)
            },
            Expr::Binary { left, op, right, .. } => if level >= 3 && op_level(op) == level {
                shaped(*left, level) && shaped(*right, level + 1)
            } else {
                shaped(e, level + 1)
            },
            _ => shaped(e, level + 1),
        }
    }
}

/// The expressions a statement holds directly have the shape of parsed
/// expressions.
pub open spec fn stmt_shape(s: Stmt) -> bool {
    match s {
        Stmt::Expression { expression } => parsed_shape(expression),
        Stmt::Print { expression } => parsed_shape(expression),
        Stmt::Let { initializer, .. } => parsed_shape(initializer),
        Stmt::IfStmt { predicate, .. } => parsed_shape(predicate),
        Stmt::WhileStmt { condition, .. } => parsed_shape(condition),
        Stmt::ReturnStmt { value, .. } => match value {
            Some(e) => parsed_shape(e),
            None => true,
        },
        _ => true,
    }
}

/// The shape of a whole parsed expression: an assignment to a name, or an
/// expression at the loosest level.
pub open spec fn parsed_shape(e: Expr) -> bool {
    e is Assign || shaped(e, 0)
}

/// The shape level of binary precedence level `level` of the parser.
pub open spec fn shape_level(level: u8) -> int {
    if level <= 1 {
        level as int
    } else {
        level as int + 1
    }
}

/// An infix node of a looser level is no expression of a tighter one.
proof fn lemma_infix_too_loose(e: Expr, l: int)
    requires
        0 <= l <= 8,
        (e matches Expr::Logical { op, .. } && op_level(op) < l) || (e matches Expr::Binary {
            op,
            ..
        } && op_level(op) < l),
    ensures
        !shaped(e, l),
    decreases 9 - l,
{
    if l < 8 && l != 7 && l != 2 {
        lemma_infix_too_loose(e, l + 1);
    } else if l == 2 {
        lemma_infix_too_loose(e, 3);
    } else if l == 7 {
        lemma_infix_too_loose(e, 8);
    }
}

/// A ternary is no expression of a level tighter than its own.
proof fn lemma_ternary_too_loose(e: Expr, l: int)
    requires
        3 <= l <= 8,
        e is Ternary,
    ensures
        !shaped(e, l),
    decreases 9 - l,
{
    if l < 8 {
        lemma_ternary_too_loose(e, l + 1);
    }
}

/// An expression of a level is one of every looser level.
proof fn lemma_lift(e: Expr, l: int)
    requires
        0 <= l <= 7,
        shaped(e, l + 1),
    ensures
        shaped(e, l),
{
    if l == 7 {
        assert(!(e is Unary));
    } else if l == 2 {
        if e is Ternary {
            lemma_ternary_too_loose(e, 3);
        }
    } else {
        match e {
            Expr::Logical { op, .. } => {
                if op_level(op) == l {
                    lemma_infix_too_loose(e, l + 1);
                }
            },
            Expr::Binary { op, .. } => {
                if op_level(op) == l {
                    lemma_infix_too_loose(e, l + 1);
                }
            },
            _ => {},
        }
    }
}

/// An expression of a level is one of every looser level.
proof fn lemma_lift_to(e: Expr, from: int, to: int)
    requires
        0 <= to <= from <= 8,
        shaped(e, from),
    ensures
        shaped(e, to),
    decreases from - to,
{
    if to < from {
        lemma_lift(e, from - 1);
        lemma_lift_to(e, from - 1, to);
    }
}

} // verus!
