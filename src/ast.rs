//! Syntax trees of expressions and statements.

use std::rc::Rc;
use vstd::prelude::*;
use crate::value::LiteralValueAst;
use crate::text::{digits_of, with_number};
use crate::value::value_text;
use vstd::string::StringExecFns;

verus! {

/// Prefix operators.
#[derive(Debug, Clone, Copy, PartialEq, Eq, Structural)]
pub enum UnaryOp {
    /// `-`
    Negate,
    /// `!`
    Not,
    /// `~`, which no expression of this language produces.
    BitNot,
}

/// Infix operators. `And` and `Or` are the logical operators; the
/// remainder, bitwise and shift operators are not produced by the parser.
#[derive(Debug, Clone, Copy, PartialEq, Eq, Structural)]
pub enum BinaryOp {
    Add,
    Subtract,
    Multiply,
    Divide,
    Modulo,
    Equals,
    NotEquals,
    LessThan,
    LessEq,
    GreaterThan,
    GreaterEq,
    And,
    Or,
    BitAnd,
    BitOr,
    BitXor,
    ShiftLeft,
    ShiftRight,
}

/// An expression. Variable references and assignments carry an `id`,
/// unique within a program, that names the node for scope resolution.
#[allow(inconsistent_fields)]
#[derive(Debug)]
pub enum Expr {
    AnonFunction { decl: Rc<FunctionDecl> },
    Assign { name: String, value: Box<Expr>, id: usize, line: usize },
    Logical { left: Box<Expr>, op: BinaryOp, right: Box<Expr> },
    Call { callee: Box<Expr>, arguments: Vec<Expr>, line: usize },
    Binary { left: Box<Expr>, op: BinaryOp, right: Box<Expr>, line: usize },
    Grouping { expression: Box<Expr> },
    Literal { value: LiteralValueAst },
    Unary { op: UnaryOp, value: Box<Expr>, line: usize },
    Ternary { condition: Box<Expr>, expr_true: Box<Expr>, expr_false: Box<Expr> },
    Variable { name: String, id: usize, line: usize },
}

/// A statement.
#[derive(Debug)]
pub enum Stmt {
    Expression { expression: Expr },
    Print { expression: Expr },
    Let { name: String, initializer: Expr, line: usize },
    Block { statements: Vec<Stmt> },
    IfStmt { predicate: Expr, then: Box<Stmt>, els: Option<Box<Stmt>> },
    WhileStmt { condition: Expr, body: Box<Stmt> },
    BreakStmt,
    Function { decl: Rc<FunctionDecl> },
    ReturnStmt { value: Option<Expr>, line: usize },
}

/// A function: its name (`anon_function` for an anonymous one), its
/// parameter names and its body.
#[derive(Debug)]
pub struct FunctionDecl {
    pub name: String,
    pub params: Vec<String>,
    pub body: Vec<Stmt>,
    pub line: usize,
}

/// A parsed program: its statements, and how many node ids it uses.
#[derive(Debug)]
pub struct Program {
    pub statements: Vec<Stmt>,
    pub node_count: usize,
}

/// The first `n` of `es`, rendered at depth `d` and joined by `sep`.
pub open spec fn exprs_text(es: Seq<Expr>, n: int, d: nat, sep: Seq<char>) -> Seq<char>
    decreases d, 1nat, n,
{
    if n <= 0 || n > es.len() {
        Seq::empty()
    } else if n == 1 {
        expr_text(es[0], d)
    } else {
        exprs_text(es, n - 1, d, sep) + sep + expr_text(es[n - 1], d)
    }
}

/// The rendering of an expression, with `...` below depth `depth`.
pub open spec fn expr_text(e: Expr, depth: nat) -> Seq<char>
    decreases depth, 0nat, 0int,
{
    if depth == 0 {
        "..."@
    } else {
        let d = (depth - 1) as nat;
        match e {
            Expr::AnonFunction { decl } => "anon "@ + digits_of(decl.params@.len()),
            Expr::Assign { name, value, .. } => "("@ + name@ + " = "@ + expr_text(*value, d) + ")"@,
            Expr::Logical { left, op, right } => expr_text(*left, d) + " "@ + binop_text(op) + " "@
                + expr_text(*right, d),
            Expr::Binary { left, op, right, .. } => expr_text(*left, d) + " "@ + binop_text(op) + " "@
                + expr_text(*right, d),
            Expr::Call { callee, arguments, .. } => "("@ + expr_text(*callee, d) + " ["@ + exprs_text(
                arguments@,
                arguments@.len() as int,
                d,
                ", "@,
            ) + "])"@,
            Expr::Grouping { expression } => "(group "@ + expr_text(*expression, d) + ")"@,
            Expr::Literal { value } => value_text(value@),
            Expr::Unary { op, value, .. } => "("@ + unop_text(op) + " "@ + expr_text(*value, d) + ")"@,
            Expr::Ternary { condition, expr_true, expr_false } => expr_text(*condition, d) + " ? "@
                + expr_text(*expr_true, d) + " : "@ + expr_text(*expr_false, d),
            Expr::Variable { name, .. } => name@,
        }
    }
}

/// The first `n` of `ss`, rendered at depth `d` and joined by `; `.
pub open spec fn stmts_text(ss: Seq<Stmt>, n: int, d: nat) -> Seq<char>
    decreases d, 1nat, n,
{
    if n <= 0 || n > ss.len() {
        Seq::empty()
    } else if n == 1 {
        stmt_text(ss[0], d)
    } else {
        stmts_text(ss, n - 1, d) + "; "@ + stmt_text(ss[n - 1], d)
    }
}

/// The rendering of a statement, with `...` below depth `depth`.
pub open spec fn stmt_text(s: Stmt, depth: nat) -> Seq<char>
    decreases depth, 0nat, 0int,
{
    if depth == 0 {
        "..."@
    } else {
        let d = (depth - 1) as nat;
        match s {
            Stmt::Expression { expression } => expr_text(expression, d),
            Stmt::Print { expression } => "(print "@ + expr_text(expression, d) + ")"@,
            Stmt::Let { name, initializer, .. } => "(let "@ + name@ + " = "@ + expr_text(initializer, d)
                + ")"@,
            Stmt::Block { statements } => "["@ + stmts_text(statements@, statements@.len() as int, d)
                + "]"@,
            Stmt::IfStmt { predicate, then, els } => "(if "@ + expr_text(predicate, d) + " "@ + stmt_text(
                *then,
                d,
            ) + match els {
                Some(e) => " else "@ + stmt_text(*e, d),
                None => Seq::empty(),
            } + ")"@,
            Stmt::WhileStmt { condition, body } => "(while "@ + expr_text(condition, d) + " "@
                + stmt_text(*body, d) + ")"@,
            Stmt::BreakStmt => "break"@,
            Stmt::Function { decl } => "(fn "@ + decl.name@ + (" "@ + digits_of(decl.params@.len()))
                + ")"@,
            Stmt::ReturnStmt { value, .. } => match value {
                Some(e) => "(return "@ + expr_text(e, d) + ")"@,
                None => "(return)"@,
            },
        }
    }
}

/// How deep the renderings go.
pub const RENDER_DEPTH: usize = 10_000;

/// The text of an infix operator.
pub open spec fn binop_text(op: BinaryOp) -> Seq<char> {
    match op {
        BinaryOp::Add => seq!['+'],
        BinaryOp::Subtract => seq!['-'],
        BinaryOp::Multiply => seq!['*'],
        BinaryOp::Divide => seq!['/'],
        BinaryOp::Modulo => seq!['%'],
        BinaryOp::Equals => seq!['=', '='],
        BinaryOp::NotEquals => seq!['!', '='],
        BinaryOp::LessThan => seq!['<'],
        BinaryOp::LessEq => seq!['<', '='],
        BinaryOp::GreaterThan => seq!['>'],
        BinaryOp::GreaterEq => seq!['>', '='],
        BinaryOp::And => seq!['a', 'n', 'd'],
        BinaryOp::Or => seq!['o', 'r'],
        BinaryOp::BitAnd => seq!['&'],
        BinaryOp::BitOr => seq!['|'],
        BinaryOp::BitXor => seq!['^'],
        BinaryOp::ShiftLeft => seq!['<', '<'],
        BinaryOp::ShiftRight => seq!['>', '>'],
    }
}

/// The text of a prefix operator.
pub open spec fn unop_text(op: UnaryOp) -> Seq<char> {
    match op {
        UnaryOp::Negate => seq!['-'],
        UnaryOp::Not => seq!['!'],
        UnaryOp::BitNot => seq!['~'],
    }
}

impl BinaryOp {
    /// The operator as written in source.
    pub fn lexeme(&self) -> (r: &'static str)
        ensures
            r@ == binop_text(*self),
    {
        proof {
            reveal_strlit("+");
            reveal_strlit("-");
            reveal_strlit("*");
            reveal_strlit("/");
            reveal_strlit("%");
            reveal_strlit("==");
            reveal_strlit("!=");
            reveal_strlit("<");
            reveal_strlit("<=");
            reveal_strlit(">");
            reveal_strlit(">=");
            reveal_strlit("and");
            reveal_strlit("or");
            reveal_strlit("&");
            reveal_strlit("|");
            reveal_strlit("^");
            reveal_strlit("<<");
            reveal_strlit(">>");
        }
        match self {
            BinaryOp::Add => "+",
            BinaryOp::Subtract => "-",
            BinaryOp::Multiply => "*",
            BinaryOp::Divide => "/",
            BinaryOp::Modulo => "%",
            BinaryOp::Equals => "==",
            BinaryOp::NotEquals => "!=",
            BinaryOp::LessThan => "<",
            BinaryOp::LessEq => "<=",
            BinaryOp::GreaterThan => ">",
            BinaryOp::GreaterEq => ">=",
            BinaryOp::And => "and",
            BinaryOp::Or => "or",
            BinaryOp::BitAnd => "&",
            BinaryOp::BitOr => "|",
            BinaryOp::BitXor => "^",
            BinaryOp::ShiftLeft => "<<",
            BinaryOp::ShiftRight => ">>",
        }
    }
}

impl UnaryOp {
    /// The operator as written in source.
    pub fn lexeme(&self) -> (r: &'static str)
        ensures
            r@ == unop_text(*self),
    {
        proof {
            reveal_strlit("-");
            reveal_strlit("!");
            reveal_strlit("~");
        }
        match self {
            UnaryOp::Negate => "-",
            UnaryOp::Not => "!",
            UnaryOp::BitNot => "~",
        }
    }
}

impl Expr {
    /// A readable rendering: infix operators between their operands,
    /// `(group e)` for parentheses, `(op e)` for prefix operators.
    pub fn to_string(&self) -> (r: String)
        ensures
            r@ == expr_text(*self, RENDER_DEPTH as nat),
    {
        self.render(RENDER_DEPTH)
    }

    /// The rendering, with `...` for what lies deeper than `depth`.
    fn render(&self, depth: usize) -> (r: String)
        ensures
            r@ == expr_text(*self, depth as nat),
        decreases depth,
    {
        if depth == 0 {
            return String::from_str("...");
        }
        let d = depth - 1;
        match self {
            Expr::AnonFunction { decl } => with_number("anon ", decl.params.len() as u64),
            Expr::Assign { name, value, .. } => {
                let mut s = String::from_str("(");
                s.append(name.as_str());
                s.append(" = ");
                s.append(value.render(d).as_str());
                s.append(")");
                s
            },
            Expr::Logical { left, op, right } | Expr::Binary { left, op, right, .. } => {
                let mut s = left.render(d);
                s.append(" ");
                s.append(op.lexeme());
                s.append(" ");
                s.append(right.render(d).as_str());
                s
            },
            Expr::Call { callee, arguments, .. } => {
                let mut s = String::from_str("(");
                s.append(callee.render(d).as_str());
                s.append(" [");
                let ghost pre = s@;
                let mut i: usize = 0;
                while i < arguments.len()
                    invariant
                        d < depth,
                        d == depth - 1,
                        i <= arguments@.len(),
                        s@ == pre + exprs_text(arguments@, i as int, d as nat, ", "@),
                    decreases arguments@.len() - i,
                {
                    let ghost before = s@;
                    if i > 0 {
                        s.append(", ");
                    }
                    let t = arguments[i].render(d);
                    s.append(t.as_str());
                    proof {
                        if i == 0 {
                            assert(exprs_text(arguments@, 1, d as nat, ", "@) == expr_text(arguments@[0], d as nat));
                            assert(s@ =~= pre + exprs_text(arguments@, 1, d as nat, ", "@));
                        } else {
                            assert(s@ =~= pre + exprs_text(arguments@, i + 1, d as nat, ", "@));
                        }
                    }
                    i += 1;
                }
                s.append("])");
                s
            },
            Expr::Grouping { expression } => {
                let mut s = String::from_str("(group ");
                s.append(expression.render(d).as_str());
                s.append(")");
                s
            },
            Expr::Literal { value } => value.to_string(),
            Expr::Unary { op, value, .. } => {
                let mut s = String::from_str("(");
                s.append(op.lexeme());
                s.append(" ");
                s.append(value.render(d).as_str());
                s.append(")");
                s
            },
            Expr::Ternary { condition, expr_true, expr_false } => {
                let mut s = condition.render(d);
                s.append(" ? ");
                s.append(expr_true.render(d).as_str());
                s.append(" : ");
                s.append(expr_false.render(d).as_str());
                s
            },
            Expr::Variable { name, .. } => name.clone(),
        }
    }
}

impl Stmt {
    /// A readable rendering; an expression statement renders as its
    /// expression.
    pub fn to_string(&self) -> (r: String)
        ensures
            r@ == stmt_text(*self, RENDER_DEPTH as nat),
    {
        self.render(RENDER_DEPTH)
    }

    /// The rendering, with `...` for what lies deeper than `depth`.
    fn render(&self, depth: usize) -> (r: String)
        ensures
            r@ == stmt_text(*self, depth as nat),
        decreases depth,
    {
        if depth == 0 {
            return String::from_str("...");
        }
        let d = depth - 1;
        match self {
            Stmt::Expression { expression } => expression.render(d),
            Stmt::Print { expression } => {
                let mut s = String::from_str("(print ");
                s.append(expression.render(d).as_str());
                s.append(")");
                s
            },
            Stmt::Let { name, initializer, .. } => {
                let mut s = String::from_str("(let ");
                s.append(name.as_str());
                s.append(" = ");
                s.append(initializer.render(d).as_str());
                s.append(")");
                s
            },
            Stmt::Block { statements } => {
                let mut s = String::from_str("[");
                let ghost pre = s@;
                let mut i: usize = 0;
                while i < statements.len()
                    invariant
                        d < depth,
                        d == depth - 1,
                        i <= statements@.len(),
                        s@ == pre + stmts_text(statements@, i as int, d as nat),
                    decreases statements@.len() - i,
                {
                    if i > 0 {
                        s.append("; ");
                    }
                    let t = statements[i].render(d);
                    s.append(t.as_str());
                    proof {
                        if i == 0 {
                            assert(s@ =~= pre + stmts_text(statements@, 1, d as nat));
                        } else {
                            assert(s@ =~= pre + stmts_text(statements@, i + 1, d as nat));
                        }
                    }
                    i += 1;
                }
                s.append("]");
                s
            },
            Stmt::IfStmt { predicate, then, els } => {
                let mut s = String::from_str("(if ");
                s.append(predicate.render(d).as_str());
                s.append(" ");
                s.append(then.render(d).as_str());
                let ghost mid = s@;
                match els {
                    Some(e) => {
                        s.append(" else ");
                        s.append(e.render(d).as_str());
                        proof {
                            assert(s@ =~= mid + (" else "@ + stmt_text(**e, d as nat)));
                        }
                    },
                    None => {
                        proof {
                            assert(s@ =~= mid + Seq::<char>::empty());
                        }
                    },
                }
                s.append(")");
                s
            },
            Stmt::WhileStmt { condition, body } => {
                let mut s = String::from_str("(while ");
                s.append(condition.render(d).as_str());
                s.append(" ");
                s.append(body.render(d).as_str());
                s.append(")");
                s
            },
            Stmt::BreakStmt => String::from_str("break"),
            Stmt::Function { decl } => {
                let mut s = String::from_str("(fn ");
                s.append(decl.name.as_str());
                s.append(with_number(" ", decl.params.len() as u64).as_str());
                s.append(")");
                s
            },
            Stmt::ReturnStmt { value, .. } => match value {
                Some(e) => {
                    let mut s = String::from_str("(return ");
                    s.append(e.render(d).as_str());
                    s.append(")");
                    s
                },
                None => String::from_str("(return)"),
            },
        }
    }
}

} // verus!
