//! The tree-walking evaluator.
//!
//! Every statement returns a control signal: normal completion, `Break`
//! (absorbed by the nearest enclosing loop) or `Return` (absorbed by the
//! nearest enclosing call). A runtime error ends the whole run. Nesting of
//! evaluation is bounded by a depth budget, and each loop by an iteration
//! budget, so that a run always ends, with an error when a budget runs out.
//!
//! What a run does is stated by the spec functions `eval`, `exec` and their
//! companions, over the state `State`: the frames, the pin mark of the
//! arena and the lines printed so far. Reading the clock has no stated
//! result, so the semantics of a run that reads it is `Unknown`.

use std::rc::Rc;
use vstd::prelude::*;
use crate::ast::{BinaryOp, Expr, FunctionDecl, Stmt};
use crate::env::{bind_in, global_frame, lookup, owner, Environment, FrameView};
use crate::text::{digits_of, with_number};
use vstd::string::StringExecFns;
use crate::ast::{binop_text, unop_text};
use crate::value::{type_text, binary_spec, truthy, unary_spec, value_text, CallTarget, LiteralValueAst, OpError, ValueView};

verus! {

/// Depth budget of one run.
pub const MAX_DEPTH: usize = 200;

/// Iteration budget of one loop.
pub const MAX_ITERATIONS: u64 = 1_000_000_000_000;

/// The signal a statement completes with.
#[derive(Debug)]
pub enum ControlFlow {
    Break,
    /// Normal completion.
    Normal,
    Return(LiteralValueAst),
}

/// What went wrong at run time.
#[derive(Debug, Clone, Copy, PartialEq, Eq, Structural)]
pub enum RuntimeErrorKind {
    /// A name that no enclosing frame binds was read or assigned.
    Undefined,
    /// An operator was applied to operands it does not take.
    TypeMismatch,
    /// A string and a number were combined by an arithmetic or ordering operator.
    StringAndNumber,
    /// A callable was used as a truth value.
    CallableTruth,
    Overflow,
    DivisionByZero,
    /// Something other than a callable was called.
    NotCallable,
    /// A call had the wrong number of arguments.
    Arity { expected: usize, got: usize },
    /// The depth budget ran out.
    TooDeep,
    /// A loop ran out of its iteration budget.
    TooManyIterations,
    /// A callable's scope is gone.
    LostScope,
}

/// A runtime error: its kind, the name it concerns (a variable, a callable
/// or an operator's type; may be empty) and the line.
#[derive(Debug)]
pub struct RuntimeError {
    pub kind: RuntimeErrorKind,
    pub name: String,
    pub line: usize,
}

pub enum SignalView {
    Normal,
    Break,
    Return(ValueView),
}

/// The state a run works on: the frames of the arena, its pin mark, and the
/// lines printed so far.
pub struct State {
    pub frames: Seq<FrameView>,
    pub pinned: int,
    pub out: Seq<Seq<char>>,
}

/// The outcome of a step: the state after it and its result or error
/// (kind and line), or `Unknown` when it read the clock.
pub enum Outcome<T> {
    Done(State, Result<T, (RuntimeErrorKind, Seq<char>, int)>),
    Unknown,
}

/// An error with no name.
pub open spec fn err<T>(st: State, k: RuntimeErrorKind, line: int) -> Outcome<T> {
    Outcome::Done(st, Err((k, Seq::empty(), line)))
}

/// An error naming the variable, callable, operator or type it concerns.
pub open spec fn err_named<T>(st: State, k: RuntimeErrorKind, name: Seq<char>, line: int) -> Outcome<T> {
    Outcome::Done(st, Err((k, name, line)))
}

pub open spec fn op_error_kind(e: OpError) -> RuntimeErrorKind {
    match e {
        OpError::TypeMismatch => RuntimeErrorKind::TypeMismatch,
        OpError::StringAndNumber => RuntimeErrorKind::StringAndNumber,
        OpError::CallableTruth => RuntimeErrorKind::CallableTruth,
        OpError::Overflow => RuntimeErrorKind::Overflow,
        OpError::DivisionByZero => RuntimeErrorKind::DivisionByZero,
    }
}

/// `st` with frame `f` added, enclosed by `parent`.
pub open spec fn push_frame(st: State, parent: int) -> State {
    State {
        frames: st.frames.push(FrameView { bindings: Seq::empty(), enclosing: Some(parent) }),
        ..st
    }
}

/// `st` after frame `f` ends: unless a closure may hold it, it is dropped
/// with every frame above it.
pub open spec fn release(st: State, f: int) -> State {
    if st.pinned <= f <= st.frames.len() {
        State { frames: st.frames.subrange(0, f), ..st }
    } else {
        st
    }
}

pub open spec fn pin(st: State, f: int) -> State {
    if st.pinned <= f {
        State { pinned: f + 1, ..st }
    } else {
        st
    }
}

pub open spec fn define(st: State, f: int, name: Seq<char>, v: ValueView) -> State {
    State { frames: bind_in(st.frames, f, name, v), ..st }
}

/// The callable a function declaration makes in frame `env`.
pub open spec fn closure_of(decl: Rc<FunctionDecl>, env: int) -> ValueView {
    ValueView::Callable {
        name: decl.name@,
        arity: decl.params@.len(),
        target: CallTarget::Script { decl, closure: env as usize },
    }
}

/// Binds `params[i..]` to `args[i..]` in frame `f`.
pub open spec fn bind_params(st: State, f: int, params: Seq<Seq<char>>, args: Seq<ValueView>, i: int) -> State
    decreases params.len() - i,
{
    if i < 0 || i >= params.len() || i >= args.len() {
        st
    } else {
        bind_params(define(st, f, params[i], args[i]), f, params, args, i + 1)
    }
}

pub open spec fn param_names(decl: FunctionDecl) -> Seq<Seq<char>> {
    Seq::new(decl.params@.len(), |i: int| decl.params@[i]@)
}

/// The result of evaluating `e` in frame `env`.
pub open spec fn eval(st: State, e: Expr, env: int, fuel: nat) -> Outcome<ValueView>
    decreases fuel, 0nat,
{
    if fuel == 0 {
        err(st, RuntimeErrorKind::TooDeep, expr_line(e))
    } else {
        let f = (fuel - 1) as nat;
        match e {
            Expr::Literal { value } => Outcome::Done(st, Ok(value@)),
            Expr::Grouping { expression } => eval(st, *expression, env, f),
            Expr::Variable { name, line, .. } => match lookup(st.frames, env, name@) {
                Some(v) => Outcome::Done(st, Ok(v)),
                None => err_named(st, RuntimeErrorKind::Undefined, name@, line as int),
            },
            Expr::Assign { name, value, line, .. } => match eval(st, *value, env, f) {
                Outcome::Done(s1, Ok(v)) => if owner(s1.frames, env, name@) is Some {
                    Outcome::Done(
                        define(s1, owner(s1.frames, env, name@)->0, name@, v),
                        Ok(v),
                    )
                } else {
                    err_named(s1, RuntimeErrorKind::Undefined, name@, line as int)
                },
                other => other,
            },
            Expr::AnonFunction { decl } => Outcome::Done(pin(st, env), Ok(closure_of(decl, env))),
            Expr::Logical { left, op, right } => match eval(st, *left, env, f) {
                Outcome::Done(s1, Ok(lv)) => match truthy(lv) {
                    None => err(s1, RuntimeErrorKind::CallableTruth, expr_line(*left)),
                    Some(t) => if op is Or {
                        if t {
                            Outcome::Done(s1, Ok(ValueView::Bool(true)))
                        } else {
                            eval(s1, *right, env, f)
                        }
                    } else {
                        if !t {
                            Outcome::Done(s1, Ok(lv))
                        } else {
                            eval(s1, *right, env, f)
                        }
                    },
                },
                other => other,
            },
            Expr::Binary { left, op, right, line } => match eval(st, *left, env, f) {
                Outcome::Done(s1, Ok(lv)) => match eval(s1, *right, env, f) {
                    Outcome::Done(s2, Ok(rv)) => match binary_spec(op, lv, rv) {
                        Ok(v) => Outcome::Done(s2, Ok(v)),
                        Err(oe) => err_named(s2, op_error_kind(oe), binop_text(op), line as int),
                    },
                    other => other,
                },
                other => other,
            },
            Expr::Unary { op, value, line } => match eval(st, *value, env, f) {
                Outcome::Done(s1, Ok(v)) => match unary_spec(op, v) {
                    Ok(w) => Outcome::Done(s1, Ok(w)),
                    Err(oe) => err_named(s1, op_error_kind(oe), unop_text(op), line as int),
                },
                other => other,
            },
            Expr::Ternary { condition, expr_true, expr_false } => match eval(st, *condition, env, f) {
                Outcome::Done(s1, Ok(c)) => match truthy(c) {
                    None => err(s1, RuntimeErrorKind::CallableTruth, expr_line(*condition)),
                    Some(t) => if t {
                        eval(s1, *expr_true, env, f)
                    } else {
                        eval(s1, *expr_false, env, f)
                    },
                },
                other => other,
            },
            Expr::Call { callee, arguments, line } => match eval(st, *callee, env, f) {
                Outcome::Done(s1, Ok(cv)) => match cv {
                    ValueView::Callable { name, arity, .. } => if arguments@.len() != arity {
                        err_named(s1, RuntimeErrorKind::Arity { expected: arity as usize, got: arguments@.len() as usize }, name, line as int)
                    } else {
                        match eval_args(s1, arguments@, 0, env, f, Seq::empty()) {
                            Outcome::Done(s2, Ok(args)) => invoke(s2, cv, args, f, line as int),
                            Outcome::Done(s2, Err(x)) => Outcome::Done(s2, Err(x)),
                            Outcome::Unknown => Outcome::Unknown,
                        }
                    },
                    _ => err_named(s1, RuntimeErrorKind::NotCallable, type_text(cv), line as int),
                },
                other => other,
            },
        }
    }
}

/// Evaluates `args[i..]` left to right, after the values `acc`.
pub open spec fn eval_args(st: State, args: Seq<Expr>, i: int, env: int, fuel: nat, acc: Seq<ValueView>) -> Outcome<Seq<ValueView>>
    decreases fuel, args.len() - i,
{
    if i < 0 || i >= args.len() {
        Outcome::Done(st, Ok(acc))
    } else {
        match eval(st, args[i], env, fuel) {
            Outcome::Done(s1, Ok(v)) => eval_args(s1, args, i + 1, env, fuel, acc.push(v)),
            Outcome::Done(s1, Err(x)) => Outcome::Done(s1, Err(x)),
            Outcome::Unknown => Outcome::Unknown,
        }
    }
}

/// Calls a callable with argument values.
pub open spec fn invoke(st: State, callee: ValueView, args: Seq<ValueView>, fuel: nat, line: int) -> Outcome<ValueView>
    decreases fuel, 0nat,
{
    match callee {
        ValueView::Callable { target, .. } => match target {
            CallTarget::Clock => Outcome::Unknown,
            CallTarget::Script { decl, closure } => if closure >= st.frames.len() {
                err(st, RuntimeErrorKind::LostScope, line)
            } else if fuel == 0 {
                err(st, RuntimeErrorKind::TooDeep, line)
            } else {
                let fr = st.frames.len() as int;
                let s1 = bind_params(push_frame(st, closure as int), fr, param_names(*decl), args, 0);
                match exec_list(s1, decl.body@, 0, fr, (fuel - 1) as nat) {
                    Outcome::Done(s2, Ok(sig)) => Outcome::Done(release(s2, fr), Ok(match sig {
                        SignalView::Return(v) => v,
                        _ => ValueView::Null,
                    })),
                    Outcome::Done(s2, Err(x)) => Outcome::Done(release(s2, fr), Err(x)),
                    Outcome::Unknown => Outcome::Unknown,
                }
            },
        },
        _ => err_named(st, RuntimeErrorKind::NotCallable, type_text(callee), line),
    }
}

/// Executes `ss[i..]` in frame `env`, stopping at the first signal other
/// than normal completion.
pub open spec fn exec_list(st: State, ss: Seq<Stmt>, i: int, env: int, fuel: nat) -> Outcome<SignalView>
    decreases fuel, ss.len() - i,
{
    if i < 0 || i >= ss.len() {
        Outcome::Done(st, Ok(SignalView::Normal))
    } else {
        match exec(st, ss[i], env, fuel) {
            Outcome::Done(s1, Ok(SignalView::Normal)) => exec_list(s1, ss, i + 1, env, fuel),
            other => other,
        }
    }
}

/// Runs a `while` loop with `iters` iterations left in its budget.
pub open spec fn run_while(st: State, cond: Expr, body: Stmt, env: int, fuel: nat, iters: nat) -> Outcome<SignalView>
    decreases fuel, iters + 1,
{
    match eval(st, cond, env, fuel) {
        Outcome::Done(s1, Ok(c)) => match truthy(c) {
            None => err(s1, RuntimeErrorKind::CallableTruth, expr_line(cond)),
            Some(false) => Outcome::Done(s1, Ok(SignalView::Normal)),
            Some(true) => if iters == 0 {
                err(s1, RuntimeErrorKind::TooManyIterations, expr_line(cond))
            } else {
                match exec(s1, body, env, fuel) {
                    Outcome::Done(s2, Ok(SignalView::Normal)) => run_while(s2, cond, body, env, fuel, (iters - 1) as nat),
                    Outcome::Done(s2, Ok(SignalView::Break)) => Outcome::Done(s2, Ok(SignalView::Normal)),
                    other => other,
                }
            },
        },
        Outcome::Done(s1, Err(x)) => Outcome::Done(s1, Err(x)),
        Outcome::Unknown => Outcome::Unknown,
    }
}

/// The result of executing `s` in frame `env`.
pub open spec fn exec(st: State, s: Stmt, env: int, fuel: nat) -> Outcome<SignalView>
    decreases fuel, 0nat,
{
    if fuel == 0 {
        err(st, RuntimeErrorKind::TooDeep, 0)
    } else {
        let f = (fuel - 1) as nat;
        match s {
            Stmt::Expression { expression } => match eval(st, expression, env, f) {
                Outcome::Done(s1, Ok(_)) => Outcome::Done(s1, Ok(SignalView::Normal)),
                Outcome::Done(s1, Err(x)) => Outcome::Done(s1, Err(x)),
                Outcome::Unknown => Outcome::Unknown,
            },
            Stmt::Print { expression } => match eval(st, expression, env, f) {
                Outcome::Done(s1, Ok(v)) => Outcome::Done(
                    State { out: s1.out.push(value_text(v)), ..s1 },
                    Ok(SignalView::Normal),
                ),
                Outcome::Done(s1, Err(x)) => Outcome::Done(s1, Err(x)),
                Outcome::Unknown => Outcome::Unknown,
            },
            Stmt::Let { name, initializer, .. } => match eval(st, initializer, env, f) {
                Outcome::Done(s1, Ok(v)) => Outcome::Done(define(s1, env, name@, v), Ok(SignalView::Normal)),
                Outcome::Done(s1, Err(x)) => Outcome::Done(s1, Err(x)),
                Outcome::Unknown => Outcome::Unknown,
            },
            Stmt::Block { statements } => {
                let fr = st.frames.len() as int;
                match exec_list(push_frame(st, env), statements@, 0, fr, f) {
                    Outcome::Done(s1, r) => Outcome::Done(release(s1, fr), r),
                    Outcome::Unknown => Outcome::Unknown,
                }
            },
            Stmt::IfStmt { predicate, then, els } => match eval(st, predicate, env, f) {
                Outcome::Done(s1, Ok(c)) => match truthy(c) {
                    None => err(s1, RuntimeErrorKind::CallableTruth, expr_line(predicate)),
                    Some(true) => exec(s1, *then, env, f),
                    Some(false) => match els {
                        Some(e) => exec(s1, *e, env, f),
                        None => Outcome::Done(s1, Ok(SignalView::Normal)),
                    },
                },
                Outcome::Done(s1, Err(x)) => Outcome::Done(s1, Err(x)),
                Outcome::Unknown => Outcome::Unknown,
            },
            Stmt::WhileStmt { condition, body } => run_while(st, condition, *body, env, f, MAX_ITERATIONS as nat),
            Stmt::BreakStmt => Outcome::Done(st, Ok(SignalView::Break)),
            Stmt::Function { decl } => Outcome::Done(
                define(pin(st, env), env, decl.name@, closure_of(decl, env)),
                Ok(SignalView::Normal),
            ),
            Stmt::ReturnStmt { value, .. } => match value {
                None => Outcome::Done(st, Ok(SignalView::Return(ValueView::Null))),
                Some(e) => match eval(st, e, env, f) {
                    Outcome::Done(s1, Ok(v)) => Outcome::Done(s1, Ok(SignalView::Return(v))),
                    Outcome::Done(s1, Err(x)) => Outcome::Done(s1, Err(x)),
                    Outcome::Unknown => Outcome::Unknown,
                },
            },
        }
    }
}

/// The line an expression stands on, as far as it records one.
pub open spec fn expr_line(e: Expr) -> int {
    match e {
        Expr::Assign { line, .. } => line as int,
        Expr::Call { line, .. } => line as int,
        Expr::Binary { line, .. } => line as int,
        Expr::Unary { line, .. } => line as int,
        Expr::Variable { line, .. } => line as int,
        _ => 0,
    }
}

pub open spec fn outcome_ok<T>(o: Outcome<T>, st: State, r: Result<T, (RuntimeErrorKind, Seq<char>, int)>) -> bool {
    match o {
        Outcome::Done(s, x) => st == s && r == x,
        Outcome::Unknown => true,
    }
}

pub open spec fn err_view(e: RuntimeError) -> (RuntimeErrorKind, Seq<char>, int) {
    (e.kind, e.name@, e.line as int)
}

pub open spec fn vres(r: Result<LiteralValueAst, RuntimeError>) -> Result<ValueView, (RuntimeErrorKind, Seq<char>, int)> {
    match r {
        Ok(v) => Ok(v@),
        Err(e) => Err(err_view(e)),
    }
}

pub open spec fn signal_view(c: ControlFlow) -> SignalView {
    match c {
        ControlFlow::Break => SignalView::Break,
        ControlFlow::Normal => SignalView::Normal,
        ControlFlow::Return(v) => SignalView::Return(v@),
    }
}

pub open spec fn sres(r: Result<ControlFlow, RuntimeError>) -> Result<SignalView, (RuntimeErrorKind, Seq<char>, int)> {
    match r {
        Ok(c) => Ok(signal_view(c)),
        Err(e) => Err(err_view(e)),
    }
}

pub open spec fn values_view(vs: Seq<LiteralValueAst>) -> Seq<ValueView> {
    Seq::new(vs.len(), |i: int| vs[i]@)
}

/// Relies on SystemTime::now and Duration::as_micros: the time since the
/// Unix epoch, in microseconds; `None` for a clock set before the epoch.
#[verifier::external_body]
fn unix_time_micros() -> (r: Option<i64>) {
    match std::time::SystemTime::now().duration_since(std::time::UNIX_EPOCH) {
        Ok(d) => Some(d.as_micros() as i64),
        Err(_) => None,
    }
}

fn exec_line(e: &Expr) -> (r: usize)
    ensures
        r as int == expr_line(*e),
{
    match e {
        Expr::Assign { line, .. } => *line,
        Expr::Call { line, .. } => *line,
        Expr::Binary { line, .. } => *line,
        Expr::Unary { line, .. } => *line,
        Expr::Variable { line, .. } => *line,
        _ => 0,
    }
}

fn error(kind: RuntimeErrorKind, line: usize) -> (r: RuntimeError)
    ensures
        r.kind == kind,
        r.line == line,
        r.name@ == Seq::<char>::empty(),
{
    RuntimeError { kind, name: String::new(), line }
}

fn named_error(kind: RuntimeErrorKind, name: &String, line: usize) -> (r: RuntimeError)
    ensures
        r.kind == kind,
        r.line == line,
        r.name@ == name@,
{
    RuntimeError { kind, name: name.clone(), line }
}

fn op_error(e: OpError, op: &str, line: usize) -> (r: RuntimeError)
    ensures
        r.kind == op_error_kind(e),
        r.line == line,
        r.name@ == op@,
{
    let kind = match e {
        OpError::TypeMismatch => RuntimeErrorKind::TypeMismatch,
        OpError::StringAndNumber => RuntimeErrorKind::StringAndNumber,
        OpError::CallableTruth => RuntimeErrorKind::CallableTruth,
        OpError::Overflow => RuntimeErrorKind::Overflow,
        OpError::DivisionByZero => RuntimeErrorKind::DivisionByZero,
    };
    RuntimeError { kind, name: String::from_str(op), line }
}

/// Runs statements against an arena of frames, collecting printed lines.
pub struct Interpreter {
    pub environment: Environment,
    pub output: Vec<String>,
}

impl Interpreter {
    pub open spec fn state(&self) -> State {
        State {
            frames: self.environment.view_frames(),
            pinned: self.environment.pinned as int,
            out: Seq::new(self.output@.len(), |i: int| self.output@[i]@),
        }
    }

    pub open spec fn wf(&self) -> bool {
        self.environment.wf()
    }

    pub open spec fn frame_count(&self) -> int {
        self.environment.frames@.len() as int
    }

    /// An interpreter with only the global frame, and no output.
    pub fn new() -> (r: Interpreter)
        ensures
            r.wf(),
            r.state() == initial_state(),
    {
        let r = Interpreter { environment: Environment::new(), output: Vec::new() };
        proof {
            assert(r.state().out =~= Seq::<Seq<char>>::empty());
        }
        r
    }

    /// Runs statements in the global frame, as one top-level list: a
    /// `return` or `break` at the top ends it. Printed lines are added to
    /// `output`. The frames stay for later runs, as in a REPL session.
    pub fn interpret(&mut self, stmts: &Vec<Stmt>) -> (r: Result<ControlFlow, RuntimeError>)
        requires
            old(self).wf(),
        ensures
            final(self).wf(),
            outcome_ok(
                exec_list(old(self).state(), stmts@, 0, 0, MAX_DEPTH as nat),
                final(self).state(),
                sres(r),
            ),
    {
        self.exec_list(stmts, 0, MAX_DEPTH)
    }

    /// Evaluates an expression in the global frame.
    pub fn evaluate(&mut self, e: &Expr) -> (r: Result<LiteralValueAst, RuntimeError>)
        requires
            old(self).wf(),
        ensures
            final(self).wf(),
            outcome_ok(eval(old(self).state(), *e, 0, MAX_DEPTH as nat), final(self).state(), vres(r)),
    {
        self.eval(e, 0, MAX_DEPTH)
    }

    /// The lines printed so far.
    pub fn output(&self) -> (r: &Vec<String>)
        ensures
            r@ == self.output@,
    {
        &self.output
    }

    fn eval(&mut self, e: &Expr, env: usize, fuel: usize) -> (r: Result<LiteralValueAst, RuntimeError>)
        requires
            old(self).wf(),
            env < old(self).frame_count(),
        ensures
            final(self).wf(),
            final(self).frame_count() >= old(self).frame_count(),
            outcome_ok(eval(old(self).state(), *e, env as int, fuel as nat), final(self).state(), vres(r)),
        decreases fuel, 1nat,
    {
        if fuel == 0 {
            return Err(error(RuntimeErrorKind::TooDeep, exec_line(e)));
        }
        let f = fuel - 1;
        match e {
            Expr::Literal { value } => Ok(value.duplicate()),
            Expr::Grouping { expression } => self.eval(expression, env, f),
            Expr::Variable { name, line, .. } => match self.environment.get(env, name.as_str()) {
                Some(v) => Ok(v),
                None => Err(named_error(RuntimeErrorKind::Undefined, name, *line)),
            },
            Expr::AnonFunction { decl } => {
                self.environment.pin(env);
                Ok(LiteralValueAst::Callable {
                    name: decl.name.clone(),
                    arity: decl.params.len(),
                    target: CallTarget::Script { decl: Rc::clone(decl), closure: env },
                })
            },
            Expr::Assign { .. } => self.eval_assign(e, env, fuel),
            Expr::Logical { .. } => self.eval_logical(e, env, fuel),
            Expr::Binary { .. } => self.eval_binary(e, env, fuel),
            Expr::Unary { .. } => self.eval_unary(e, env, fuel),
            Expr::Ternary { .. } => self.eval_ternary(e, env, fuel),
            Expr::Call { .. } => self.eval_call(e, env, fuel),
        }
    }

    fn eval_assign(&mut self, e: &Expr, env: usize, fuel: usize) -> (r: Result<LiteralValueAst, RuntimeError>)
        requires
            old(self).wf(),
            env < old(self).frame_count(),
            fuel > 0,
            e is Assign,
        ensures
            final(self).wf(),
            final(self).frame_count() >= old(self).frame_count(),
            outcome_ok(eval(old(self).state(), *e, env as int, fuel as nat), final(self).state(), vres(r)),
        decreases fuel, 0nat,
    {
        let f = fuel - 1;
        match e {
            Expr::Assign { name, value, line, .. } => {
                let v = self.eval(value, env, f)?;
                let keep = v.duplicate();
                if self.environment.assign(env, name.as_str(), v) {
                    Ok(keep)
                } else {
                    Err(named_error(RuntimeErrorKind::Undefined, name, *line))
                }
            },
            // excluded by the precondition
            _ => Err(error(RuntimeErrorKind::TypeMismatch, 0)),
        }
    }

    fn eval_logical(&mut self, e: &Expr, env: usize, fuel: usize) -> (r: Result<LiteralValueAst, RuntimeError>)
        requires
            old(self).wf(),
            env < old(self).frame_count(),
            fuel > 0,
            e is Logical,
        ensures
            final(self).wf(),
            final(self).frame_count() >= old(self).frame_count(),
            outcome_ok(eval(old(self).state(), *e, env as int, fuel as nat), final(self).state(), vres(r)),
        decreases fuel, 0nat,
    {
        let f = fuel - 1;
        match e {
            Expr::Logical { left, op, right } => {
                let lv = self.eval(left, env, f)?;
                match lv.truthiness() {
                    None => Err(error(RuntimeErrorKind::CallableTruth, exec_line(left))),
                    Some(t) => {
                        if *op == BinaryOp::Or {
                            if t {
                                Ok(LiteralValueAst::True)
                            } else {
                                self.eval(right, env, f)
                            }
                        } else {
                            if !t {
                                Ok(lv)
                            } else {
                                self.eval(right, env, f)
                            }
                        }
                    },
                }
            },
            // excluded by the precondition
            _ => Err(error(RuntimeErrorKind::TypeMismatch, 0)),
        }
    }

    fn eval_binary(&mut self, e: &Expr, env: usize, fuel: usize) -> (r: Result<LiteralValueAst, RuntimeError>)
        requires
            old(self).wf(),
            env < old(self).frame_count(),
            fuel > 0,
            e is Binary,
        ensures
            final(self).wf(),
            final(self).frame_count() >= old(self).frame_count(),
            outcome_ok(eval(old(self).state(), *e, env as int, fuel as nat), final(self).state(), vres(r)),
        decreases fuel, 0nat,
    {
        let f = fuel - 1;
        match e {
            Expr::Binary { left, op, right, line } => {
                let lv = self.eval(left, env, f)?;
                let rv = self.eval(right, env, f)?;
                match crate::value::binary(*op, &lv, &rv) {
                    Ok(v) => Ok(v),
                    Err(oe) => Err(op_error(oe, op.lexeme(), *line)),
                }
            },
            // excluded by the precondition
            _ => Err(error(RuntimeErrorKind::TypeMismatch, 0)),
        }
    }

    fn eval_unary(&mut self, e: &Expr, env: usize, fuel: usize) -> (r: Result<LiteralValueAst, RuntimeError>)
        requires
            old(self).wf(),
            env < old(self).frame_count(),
            fuel > 0,
            e is Unary,
        ensures
            final(self).wf(),
            final(self).frame_count() >= old(self).frame_count(),
            outcome_ok(eval(old(self).state(), *e, env as int, fuel as nat), final(self).state(), vres(r)),
        decreases fuel, 0nat,
    {
        let f = fuel - 1;
        match e {
            Expr::Unary { op, value, line } => {
                let v = self.eval(value, env, f)?;
                match crate::value::unary(*op, &v) {
                    Ok(w) => Ok(w),
                    Err(oe) => Err(op_error(oe, op.lexeme(), *line)),
                }
            },
            // excluded by the precondition
            _ => Err(error(RuntimeErrorKind::TypeMismatch, 0)),
        }
    }

    fn eval_ternary(&mut self, e: &Expr, env: usize, fuel: usize) -> (r: Result<LiteralValueAst, RuntimeError>)
        requires
            old(self).wf(),
            env < old(self).frame_count(),
            fuel > 0,
            e is Ternary,
        ensures
            final(self).wf(),
            final(self).frame_count() >= old(self).frame_count(),
            outcome_ok(eval(old(self).state(), *e, env as int, fuel as nat), final(self).state(), vres(r)),
        decreases fuel, 0nat,
    {
        let f = fuel - 1;
        match e {
            Expr::Ternary { condition, expr_true, expr_false } => {
                let c = self.eval(condition, env, f)?;
                match c.truthiness() {
                    None => Err(error(RuntimeErrorKind::CallableTruth, exec_line(condition))),
                    Some(t) => {
                        if t {
                            self.eval(expr_true, env, f)
                        } else {
                            self.eval(expr_false, env, f)
                        }
                    },
                }
            },
            // excluded by the precondition
            _ => Err(error(RuntimeErrorKind::TypeMismatch, 0)),
        }
    }

    fn eval_call(&mut self, e: &Expr, env: usize, fuel: usize) -> (r: Result<LiteralValueAst, RuntimeError>)
        requires
            old(self).wf(),
            env < old(self).frame_count(),
            fuel > 0,
            e is Call,
        ensures
            final(self).wf(),
            final(self).frame_count() >= old(self).frame_count(),
            outcome_ok(eval(old(self).state(), *e, env as int, fuel as nat), final(self).state(), vres(r)),
        decreases fuel, 0nat,
    {
        let f = fuel - 1;
        match e {
            Expr::Call { callee, arguments, line } => {
                let cv = self.eval(callee, env, f)?;
                let arity = match &cv {
                    LiteralValueAst::Callable { arity, .. } => *arity,
                    _ => {
                        return Err(RuntimeError {
                            kind: RuntimeErrorKind::NotCallable,
                            name: String::from_str(cv.to_type()),
                            line: *line,
                        });
                    },
                };
                if arguments.len() != arity {
                    let name = match &cv {
                        LiteralValueAst::Callable { name, .. } => name.clone(),
                        _ => String::new(),
                    };
                    return Err(RuntimeError {
                        kind: RuntimeErrorKind::Arity { expected: arity, got: arguments.len() },
                        name,
                        line: *line,
                    });
                }
                let ghost s1 = self.state();
                let ghost target = eval_args(s1, arguments@, 0, env as int, f as nat, Seq::empty());
                let ghost whole = eval(old(self).state(), *e, env as int, fuel as nat);
                assert(whole is Unknown || whole == (match target {
                    Outcome::Done(s2, Ok(args)) => invoke(s2, cv@, args, f as nat, *line as int),
                    Outcome::Done(s2, Err(x)) => Outcome::Done(s2, Err(x)),
                    Outcome::Unknown => Outcome::Unknown,
                }));
                let mut args: Vec<LiteralValueAst> = Vec::new();
                proof {
                    assert(values_view(args@) =~= Seq::<ValueView>::empty());
                }
                let mut i: usize = 0;
                while i < arguments.len()
                    invariant
                        self.wf(),
                        env < self.frame_count(),
                        self.frame_count() >= old(self).frame_count(),
                        i <= arguments@.len(),
                        f == fuel - 1,
                        whole == eval(old(self).state(), *e, env as int, fuel as nat),
                        whole is Unknown || whole == (match target {
                            Outcome::Done(s2, Ok(args)) => invoke(s2, cv@, args, f as nat, *line as int),
                            Outcome::Done(s2, Err(x)) => Outcome::Done(s2, Err(x)),
                            Outcome::Unknown => Outcome::Unknown,
                        }),
                        target is Unknown || target == eval_args(
                            self.state(),
                            arguments@,
                            i as int,
                            env as int,
                            f as nat,
                            values_view(args@),
                        ),
                    decreases arguments@.len() - i,
                {
                    let ghost si = self.state();
                    let ghost acc = values_view(args@);
                    let res = self.eval(&arguments[i], env, f);
                    match res {
                        Ok(v) => {
                            proof {
                                assert(values_view(args@.push(v)) =~= values_view(args@).push(v@));
                            }
                            args.push(v);
                            i += 1;
                        },
                        Err(x) => {
                            proof {
                                if !(target is Unknown) {
                                    assert(target == eval_args(si, arguments@, i as int, env as int, f as nat, acc));
                                    match eval(si, arguments@[i as int], env as int, f as nat) {
                                        Outcome::Done(s3, r3) => {
                                            assert(r3 is Err);
                                            assert(target == Outcome::<Seq<ValueView>>::Done(s3, Err(r3->Err_0)));
                                        },
                                        Outcome::Unknown => {},
                                    }
                                }
                            }
                            return Err(x);
                        },
                    }
                }
                self.invoke(&cv, args, f, *line)
            },
            // excluded by the precondition
            _ => Err(error(RuntimeErrorKind::TypeMismatch, 0)),
        }
    }

    /// Calls `callee` with `args`.
    fn invoke(&mut self, callee: &LiteralValueAst, args: Vec<LiteralValueAst>, fuel: usize, line: usize) -> (r: Result<LiteralValueAst, RuntimeError>)
        requires
            old(self).wf(),
        ensures
            final(self).wf(),
            final(self).frame_count() >= old(self).frame_count(),
            outcome_ok(invoke(old(self).state(), callee@, values_view(args@), fuel as nat, line as int), final(self).state(), vres(r)),
        decreases fuel, 1nat,
    {
        match callee {
            LiteralValueAst::Callable { target, .. } => match target {
                CallTarget::Clock => {
                    // a clock set before the epoch reads as zero
                    let t = match unix_time_micros() {
                        Some(t) => t,
                        None => 0,
                    };
                    Ok(LiteralValueAst::Number(t))
                },
                CallTarget::Script { decl, closure } => {
                    if *closure >= self.environment.frames.len() {
                        return Err(error(RuntimeErrorKind::LostScope, line));
                    }
                    if fuel == 0 {
                        return Err(error(RuntimeErrorKind::TooDeep, line));
                    }
                    let ghost st0 = self.state();
                    let fr = self.environment.push_frame(*closure);
                    proof {
                        assert(self.state() =~= push_frame(st0, *closure as int));
                    }
                    let ghost s_pushed = self.state();
                    let mut i: usize = 0;
                    while i < decl.params.len() && i < args.len()
                        invariant
                            self.wf(),
                            fr < self.frame_count(),
                            fr == st0.frames.len(),
                            self.frame_count() == st0.frames.len() + 1,
                            bind_params(s_pushed, fr as int, param_names(**decl), values_view(args@), 0) == bind_params(
                                self.state(),
                                fr as int,
                                param_names(**decl),
                                values_view(args@),
                                i as int,
                            ),
                        decreases decl.params@.len() - i,
                    {
                        let ghost si = self.state();
                        self.environment.define(fr, decl.params[i].clone(), args[i].duplicate());
                        proof {
                            assert(self.state() =~= define(si, fr as int, param_names(**decl)[i as int], values_view(args@)[i as int]));
                        }
                        i += 1;
                    }
                    let res = self.exec_list(&decl.body, fr, fuel - 1);
                    let ghost s2 = self.state();
                    self.environment.release(fr);
                    proof {
                        assert(self.state() =~= release(s2, fr as int));
                    }
                    match res {
                        Ok(ControlFlow::Return(v)) => Ok(v),
                        Ok(_) => Ok(LiteralValueAst::Null),
                        Err(e) => Err(e),
                    }
                },
            },
            _ => Err(RuntimeError {
                kind: RuntimeErrorKind::NotCallable,
                name: String::from_str(callee.to_type()),
                line,
            }),
        }
    }

    /// Executes `ss` in order in frame `env`, stopping at the first signal
    /// other than normal completion.
    fn exec_list(&mut self, ss: &Vec<Stmt>, env: usize, fuel: usize) -> (r: Result<ControlFlow, RuntimeError>)
        requires
            old(self).wf(),
            env < old(self).frame_count(),
        ensures
            final(self).wf(),
            final(self).frame_count() >= old(self).frame_count(),
            outcome_ok(exec_list(old(self).state(), ss@, 0, env as int, fuel as nat), final(self).state(), sres(r)),
        decreases fuel, 2nat,
    {
        let ghost target = exec_list(old(self).state(), ss@, 0, env as int, fuel as nat);
        let mut i: usize = 0;
        while i < ss.len()
            invariant
                self.wf(),
                env < self.frame_count(),
                self.frame_count() >= old(self).frame_count(),
                i <= ss@.len(),
                target == exec_list(old(self).state(), ss@, 0, env as int, fuel as nat),
                target is Unknown || target == exec_list(self.state(), ss@, i as int, env as int, fuel as nat),
            decreases ss@.len() - i,
        {
            let ghost si = self.state();
            let res = self.exec(&ss[i], env, fuel);
            match res {
                Ok(ControlFlow::Normal) => {
                    i += 1;
                },
                _ => {
                    return res;
                },
            }
        }
        Ok(ControlFlow::Normal)
    }

    fn exec(&mut self, s: &Stmt, env: usize, fuel: usize) -> (r: Result<ControlFlow, RuntimeError>)
        requires
            old(self).wf(),
            env < old(self).frame_count(),
        ensures
            final(self).wf(),
            final(self).frame_count() >= old(self).frame_count(),
            outcome_ok(exec(old(self).state(), *s, env as int, fuel as nat), final(self).state(), sres(r)),
        decreases fuel, 1nat,
    {
        if fuel == 0 {
            return Err(error(RuntimeErrorKind::TooDeep, 0));
        }
        let f = fuel - 1;
        match s {
            Stmt::Expression { expression } => match self.eval(expression, env, f) {
                Ok(_) => Ok(ControlFlow::Normal),
                Err(e) => Err(e),
            },
            Stmt::Print { expression } => match self.eval(expression, env, f) {
                Ok(v) => {
                    let ghost s1 = self.state();
                    let text = v.to_string();
                    self.output.push(text);
                    proof {
                        assert(self.state().out =~= s1.out.push(value_text(v@)));
                    }
                    Ok(ControlFlow::Normal)
                },
                Err(e) => Err(e),
            },
            Stmt::Let { name, initializer, .. } => match self.eval(initializer, env, f) {
                Ok(v) => {
                    self.environment.define(env, name.clone(), v);
                    Ok(ControlFlow::Normal)
                },
                Err(e) => Err(e),
            },
            Stmt::Block { statements } => {
                let ghost st0 = self.state();
                let fr = self.environment.push_frame(env);
                proof {
                    assert(self.state() =~= push_frame(st0, env as int));
                }
                let res = self.exec_list(statements, fr, f);
                let ghost s2 = self.state();
                self.environment.release(fr);
                proof {
                    assert(self.state() =~= release(s2, fr as int));
                }
                res
            },
            Stmt::IfStmt { .. } => self.exec_if(s, env, fuel),
            Stmt::WhileStmt { .. } => self.exec_while(s, env, fuel),
            Stmt::BreakStmt => Ok(ControlFlow::Break),
            Stmt::Function { decl } => {
                self.environment.pin(env);
                let v = LiteralValueAst::Callable {
                    name: decl.name.clone(),
                    arity: decl.params.len(),
                    target: CallTarget::Script { decl: Rc::clone(decl), closure: env },
                };
                self.environment.define(env, decl.name.clone(), v);
                Ok(ControlFlow::Normal)
            },
            Stmt::ReturnStmt { value, .. } => match value {
                None => Ok(ControlFlow::Return(LiteralValueAst::Null)),
                Some(e) => match self.eval(e, env, f) {
                    Ok(v) => Ok(ControlFlow::Return(v)),
                    Err(x) => Err(x),
                },
            },
        }
    }

    fn exec_if(&mut self, s: &Stmt, env: usize, fuel: usize) -> (r: Result<ControlFlow, RuntimeError>)
        requires
            old(self).wf(),
            env < old(self).frame_count(),
            fuel > 0,
            s is IfStmt,
        ensures
            final(self).wf(),
            final(self).frame_count() >= old(self).frame_count(),
            outcome_ok(exec(old(self).state(), *s, env as int, fuel as nat), final(self).state(), sres(r)),
        decreases fuel, 0nat,
    {
        let f = fuel - 1;
        match s {
            Stmt::IfStmt { predicate, then, els } => {
                let c = match self.eval(predicate, env, f) {
                    Ok(c) => c,
                    Err(x) => {
                        return Err(x);
                    },
                };
                match c.truthiness() {
                    None => Err(error(RuntimeErrorKind::CallableTruth, exec_line(predicate))),
                    Some(true) => self.exec(then, env, f),
                    Some(false) => match els {
                        Some(e) => self.exec(e, env, f),
                        None => Ok(ControlFlow::Normal),
                    },
                }
            },
            // excluded by the precondition
            _ => Err(error(RuntimeErrorKind::TypeMismatch, 0)),
        }
    }

    fn exec_while(&mut self, s: &Stmt, env: usize, fuel: usize) -> (r: Result<ControlFlow, RuntimeError>)
        requires
            old(self).wf(),
            env < old(self).frame_count(),
            fuel > 0,
            s is WhileStmt,
        ensures
            final(self).wf(),
            final(self).frame_count() >= old(self).frame_count(),
            outcome_ok(exec(old(self).state(), *s, env as int, fuel as nat), final(self).state(), sres(r)),
        decreases fuel, 0nat,
    {
        let f = fuel - 1;
        match s {
            Stmt::WhileStmt { condition, body } => {
                let ghost target = exec(old(self).state(), *s, env as int, fuel as nat);
                let mut iters: u64 = MAX_ITERATIONS;
                loop
                    invariant
                        self.wf(),
                        env < self.frame_count(),
                        self.frame_count() >= old(self).frame_count(),
                        f == fuel - 1,
                        target == exec(old(self).state(), *s, env as int, fuel as nat),
                        target is Unknown || target == run_while(
                            self.state(),
                            *condition,
                            **body,
                            env as int,
                            f as nat,
                            iters as nat,
                        ),
                    decreases iters,
                {
                    let c = match self.eval(condition, env, f) {
                        Ok(c) => c,
                        Err(x) => {
                            return Err(x);
                        },
                    };
                    match c.truthiness() {
                        None => {
                            return Err(error(RuntimeErrorKind::CallableTruth, exec_line(condition)));
                        },
                        Some(false) => {
                            return Ok(ControlFlow::Normal);
                        },
                        Some(true) => {},
                    }
                    if iters == 0 {
                        return Err(error(RuntimeErrorKind::TooManyIterations, exec_line(condition)));
                    }
                    match self.exec(body, env, f) {
                        Ok(ControlFlow::Normal) => {},
                        Ok(ControlFlow::Break) => {
                            return Ok(ControlFlow::Normal);
                        },
                        other => {
                            return other;
                        },
                    }
                    iters = iters - 1;
                }
            },
            // excluded by the precondition
            _ => Err(error(RuntimeErrorKind::TypeMismatch, 0)),
        }
    }
}

/// The state of a fresh interpreter.
pub open spec fn initial_state() -> State {
    State { frames: seq![global_frame()], pinned: 1, out: Seq::empty() }
}

/// What running `ss` in a fresh interpreter does.
pub open spec fn run_outcome(ss: Seq<Stmt>) -> Outcome<SignalView> {
    exec_list(initial_state(), ss, 0, 0, MAX_DEPTH as nat)
}

/// The lines a run printed, and how it ended.
pub struct RunReport {
    pub output: Vec<String>,
    pub error: Option<RuntimeError>,
}

/// A report agrees with what running `ss` does.
pub open spec fn report_ok(ss: Seq<Stmt>, r: RunReport) -> bool {
    match run_outcome(ss) {
        Outcome::Done(st, res) => {
            &&& Seq::new(r.output@.len(), |i: int| r.output@[i]@) == st.out
            &&& (res is Ok <==> r.error is None)
            &&& (r.error matches Some(e) ==> res == Err::<SignalView, (RuntimeErrorKind, Seq<char>, int)>(
                err_view(e),
            ))
        },
        Outcome::Unknown => true,
    }
}

/// Runs statements in a fresh interpreter.
pub fn run_statements(stmts: &Vec<Stmt>) -> (r: RunReport)
    ensures
        report_ok(stmts@, r),
{
    let mut it = Interpreter::new();
    let res = it.interpret(stmts);
    let error = match res {
        Ok(_) => None,
        Err(e) => Some(e),
    };
    RunReport { output: it.output, error }
}

/// The text of an error's description, before its line.
pub open spec fn error_text(kind: RuntimeErrorKind, name: Seq<char>) -> Seq<char> {
    match kind {
        RuntimeErrorKind::Undefined => "Variable '"@ + name + "' has not been declared"@,
        RuntimeErrorKind::TypeMismatch => name + " does not take these operands"@,
        RuntimeErrorKind::StringAndNumber => name + " is not defined for string and number"@,
        RuntimeErrorKind::CallableTruth => "Can not use callable as a truth value"@,
        RuntimeErrorKind::Overflow => "Number out of range"@,
        RuntimeErrorKind::DivisionByZero => "Division by zero"@,
        RuntimeErrorKind::NotCallable => name + " is not callable"@,
        RuntimeErrorKind::Arity { expected, got } => "Callable "@ + name + (" expected "@ + digits_of(
            expected as nat,
        )) + (" arguments but got "@ + digits_of(got as nat)),
        RuntimeErrorKind::TooDeep => "Evaluation nested too deeply"@,
        RuntimeErrorKind::TooManyIterations => "Loop ran out of its iteration budget"@,
        RuntimeErrorKind::LostScope => "The scope of the callable is gone"@,
    }
}

/// An error's full description: its text and its line.
pub open spec fn message_text(kind: RuntimeErrorKind, name: Seq<char>, line: int) -> Seq<char> {
    error_text(kind, name) + (" at line "@ + digits_of(line as nat))
}

impl RuntimeError {
    /// A readable description of the error, with its line.
    pub fn message(&self) -> (r: String)
        ensures
            r@ == message_text(self.kind, self.name@, self.line as int),
    {
        let mut s = match self.kind {
            RuntimeErrorKind::Undefined => {
                let mut m = String::from_str("Variable '");
                m.append(self.name.as_str());
                m.append("' has not been declared");
                m
            },
            RuntimeErrorKind::TypeMismatch => {
                let mut m = self.name.clone();
                m.append(" does not take these operands");
                m
            },
            RuntimeErrorKind::StringAndNumber => {
                let mut m = self.name.clone();
                m.append(" is not defined for string and number");
                m
            },
            RuntimeErrorKind::CallableTruth => String::from_str("Can not use callable as a truth value"),
            RuntimeErrorKind::Overflow => String::from_str("Number out of range"),
            RuntimeErrorKind::DivisionByZero => String::from_str("Division by zero"),
            RuntimeErrorKind::NotCallable => {
                let mut m = self.name.clone();
                m.append(" is not callable");
                m
            },
            RuntimeErrorKind::Arity { expected, got } => {
                let mut m = String::from_str("Callable ");
                m.append(self.name.as_str());
                m.append(with_number(" expected ", expected as u64).as_str());
                m.append(with_number(" arguments but got ", got as u64).as_str());
                m
            },
            RuntimeErrorKind::TooDeep => String::from_str("Evaluation nested too deeply"),
            RuntimeErrorKind::TooManyIterations => String::from_str(
                "Loop ran out of its iteration budget",
            ),
            RuntimeErrorKind::LostScope => String::from_str("The scope of the callable is gone"),
        };
        s.append(with_number(" at line ", self.line as u64).as_str());
        s
    }
}

/// A run that does not read the clock is determined by its statements:
/// two reports of such a run hold the same lines and end the same way.
pub proof fn lemma_runs_agree(ss: Seq<Stmt>, a: RunReport, b: RunReport)
    requires
        run_outcome(ss) is Done,
        report_ok(ss, a),
        report_ok(ss, b),
    ensures
        Seq::new(a.output@.len(), |i: int| a.output@[i]@) == Seq::new(
            b.output@.len(),
            |i: int| b.output@[i]@,
        ),
        a.error is None <==> b.error is None,
        (a.error matches Some(x) ==> (b.error matches Some(y) && err_view(x) == err_view(y)
            && message_text(x.kind, x.name@, x.line as int) == message_text(y.kind, y.name@, y.line as int))),
{
}

/// A `break` ends its statement list at once: nothing after it runs, and
/// the list completes with `Break`.
pub proof fn lemma_break_ends_list(st: State, ss: Seq<Stmt>, i: int, env: int, fuel: nat)
    requires
        0 <= i < ss.len(),
        ss[i] is BreakStmt,
        fuel > 0,
    ensures
        exec_list(st, ss, i, env, fuel) == Outcome::<SignalView>::Done(st, Ok(SignalView::Break)),
{
    assert(exec(st, ss[i], env, fuel) == Outcome::<SignalView>::Done(st, Ok(SignalView::Break)));
}

/// A loop stops on the first iteration whose body completes with `Break`:
/// the loop then completes normally, in the state the body left.
pub proof fn lemma_break_ends_loop(
    st: State,
    cond: Expr,
    body: Stmt,
    env: int,
    fuel: nat,
    iters: nat,
    s1: State,
    c: ValueView,
    s2: State,
)
    requires
        eval(st, cond, env, fuel) == Outcome::<ValueView>::Done(s1, Ok(c)),
        truthy(c) == Some(true),
        iters > 0,
        exec(s1, body, env, fuel) == Outcome::<SignalView>::Done(s2, Ok(SignalView::Break)),
    ensures
        run_while(st, cond, body, env, fuel, iters) == Outcome::<SignalView>::Done(s2, Ok(SignalView::Normal)),
{
}

/// A statement that returns ends its statement list at once: the
/// statements after it do not run, and the list completes with the value.
pub proof fn lemma_return_ends_list(st: State, ss: Seq<Stmt>, i: int, env: int, fuel: nat, s1: State, v: ValueView)
    requires
        0 <= i < ss.len(),
        exec(st, ss[i], env, fuel) == Outcome::<SignalView>::Done(s1, Ok(SignalView::Return(v))),
    ensures
        exec_list(st, ss, i, env, fuel) == Outcome::<SignalView>::Done(s1, Ok(SignalView::Return(v))),
{
}

/// A call with a number of arguments other than the callable's arity fails
/// before any argument is evaluated, naming both counts.
pub proof fn lemma_arity_mismatch(
    st: State,
    callee: Expr,
    arguments: Vec<Expr>,
    line: usize,
    env: int,
    fuel: nat,
    s1: State,
    cv: ValueView,
)
    requires
        fuel > 0,
        eval(st, callee, env, (fuel - 1) as nat) == Outcome::<ValueView>::Done(s1, Ok(cv)),
        cv matches ValueView::Callable { arity, .. } && arity != arguments@.len() && arity <= usize::MAX,
    ensures
        eval(st, Expr::Call { callee: Box::new(callee), arguments, line }, env, fuel)
            == err_named::<ValueView>(
            s1,
            RuntimeErrorKind::Arity { expected: cv->arity as usize, got: arguments@.len() as usize },
            cv->name,
            line as int,
        ),
{
}

} // verus!
