//! Static scope resolution.
//!
//! One pass over the syntax tree keeps a stack of scopes that mirrors the
//! frames the evaluator makes: a block or a function body pushes one, and
//! pops it when it ends, also when an error ends it early. A `let`
//! declares its name before resolving the initializer and defines it
//! after, so that reading a local in its own initializer is an error here.
//! For each variable reference and assignment found in a tracked scope,
//! the pass records how many scopes outward its binding lives; a name in no
//! tracked scope is global and gets no entry. The evaluator looks names up
//! by walking the frame chain at run time, so the table is informative.
//! The pass stops at the first error.

use vstd::prelude::*;
use crate::ast::{Expr, FunctionDecl, Stmt};

verus! {

/// Nesting budget of the pass.
pub const MAX_RESOLVE_DEPTH: usize = 1024;

/// What went wrong in resolution.
#[derive(Debug, Clone, Copy, PartialEq, Eq, Structural)]
pub enum ResolutionErrorKind {
    /// A local variable was read in its own initializer.
    SelfReference,
    /// The syntax tree nests deeper than the pass allows.
    TooDeep,
}

/// A resolution error, with the name it concerns and its line.
#[derive(Debug)]
pub struct ResolutionError {
    pub kind: ResolutionErrorKind,
    pub name: String,
    pub line: usize,
}

pub type ScopeView = Seq<(Seq<char>, bool)>;

/// The state of the pass: the scope stack, innermost last, and the entries
/// `(node id, depth)` recorded so far.
pub struct RState {
    pub scopes: Seq<ScopeView>,
    pub locals: Seq<(int, int)>,
}

/// Whether the scope holds `name`, and if so whether it is defined yet:
/// the latest entry for it counts.
pub open spec fn scope_find(sc: ScopeView, name: Seq<char>) -> Option<bool>
    decreases sc.len(),
{
    if sc.len() == 0 {
        None
    } else if sc.last().0 == name {
        Some(sc.last().1)
    } else {
        scope_find(sc.drop_last(), name)
    }
}

/// How many scopes outward from the innermost one `name` is found, looking
/// at the innermost `n` scopes.
pub open spec fn depth_in(scopes: Seq<ScopeView>, n: int, name: Seq<char>) -> Option<int>
    decreases n,
{
    if n <= 0 || n > scopes.len() {
        None
    } else if scope_find(scopes[n - 1], name) is Some {
        Some(scopes.len() - n)
    } else {
        depth_in(scopes, n - 1, name)
    }
}

/// Adds `(name, defined)` to the innermost scope, if there is one.
pub open spec fn mark(st: RState, name: Seq<char>, defined: bool) -> RState {
    if st.scopes.len() == 0 {
        st
    } else {
        RState {
            scopes: st.scopes.update(st.scopes.len() - 1, st.scopes.last().push((name, defined))),
            ..st
        }
    }
}

/// Records the depth of reference `id` to `name`, if a tracked scope holds it.
pub open spec fn resolve_local(st: RState, id: int, name: Seq<char>) -> RState {
    match depth_in(st.scopes, st.scopes.len() as int, name) {
        Some(d) => RState { locals: st.locals.push((id, d)), ..st },
        None => st,
    }
}

pub open spec fn begin(st: RState) -> RState {
    RState { scopes: st.scopes.push(Seq::empty()), ..st }
}

pub open spec fn end(st: RState) -> RState {
    RState { scopes: st.scopes.drop_last(), ..st }
}

pub type RResult = (RState, Result<(), (ResolutionErrorKind, int)>);

pub open spec fn r_expr(st: RState, e: Expr, fuel: nat) -> RResult
    decreases fuel, 0nat,
{
    if fuel == 0 {
        (st, Err((ResolutionErrorKind::TooDeep, 0)))
    } else {
        let f = (fuel - 1) as nat;
        match e {
            Expr::Variable { name, id, line } => if st.scopes.len() > 0 && scope_find(st.scopes.last(), name@) == Some(false) {
                (st, Err((ResolutionErrorKind::SelfReference, line as int)))
            } else {
                (resolve_local(st, id as int, name@), Ok(()))
            },
            Expr::Assign { name, value, id, .. } => {
                let (s1, r1) = r_expr(st, *value, f);
                if r1 is Err {
                    (s1, r1)
                } else {
                    (resolve_local(s1, id as int, name@), Ok(()))
                }
            },
            Expr::Binary { left, right, .. } => r_pair(st, *left, *right, f),
            Expr::Logical { left, right, .. } => r_pair(st, *left, *right, f),
            Expr::Call { callee, arguments, .. } => {
                let (s1, r1) = r_expr(st, *callee, f);
                if r1 is Err {
                    (s1, r1)
                } else {
                    r_exprs(s1, arguments@, 0, f)
                }
            },
            Expr::Grouping { expression } => r_expr(st, *expression, f),
            Expr::Literal { .. } => (st, Ok(())),
            Expr::Unary { value, .. } => r_expr(st, *value, f),
            Expr::Ternary { condition, expr_true, expr_false } => {
                let (s1, r1) = r_expr(st, *condition, f);
                if r1 is Err {
                    (s1, r1)
                } else {
                    r_pair(s1, *expr_true, *expr_false, f)
                }
            },
            Expr::AnonFunction { decl } => r_function(st, *decl, f),
        }
    }
}

pub open spec fn r_pair(st: RState, a: Expr, b: Expr, fuel: nat) -> RResult
    decreases fuel, 1nat,
{
    let (s1, r1) = r_expr(st, a, fuel);
    if r1 is Err {
        (s1, r1)
    } else {
        r_expr(s1, b, fuel)
    }
}

pub open spec fn r_exprs(st: RState, es: Seq<Expr>, i: int, fuel: nat) -> RResult
    decreases fuel, es.len() - i + 1,
{
    if i < 0 || i >= es.len() {
        (st, Ok(()))
    } else {
        let (s1, r1) = r_expr(st, es[i], fuel);
        if r1 is Err {
            (s1, r1)
        } else {
            r_exprs(s1, es, i + 1, fuel)
        }
    }
}

/// Marks each of `params[i..]` declared and defined.
pub open spec fn mark_params(st: RState, params: Seq<Seq<char>>, i: int) -> RState
    decreases params.len() - i,
{
    if i < 0 || i >= params.len() {
        st
    } else {
        mark_params(mark(mark(st, params[i], false), params[i], true), params, i + 1)
    }
}

/// A function body in a fresh scope holding its parameters.
pub open spec fn r_function(st: RState, decl: FunctionDecl, fuel: nat) -> RResult
    decreases fuel, 0nat,
{
    let s1 = mark_params(begin(st), Seq::new(decl.params@.len(), |i: int| decl.params@[i]@), 0);
    if fuel == 0 {
        (end(s1), Err((ResolutionErrorKind::TooDeep, decl.line as int)))
    } else {
        let (s2, r2) = r_stmts(s1, decl.body@, 0, (fuel - 1) as nat);
        (end(s2), r2)
    }
}

pub open spec fn r_stmts(st: RState, ss: Seq<Stmt>, i: int, fuel: nat) -> RResult
    decreases fuel, ss.len() - i + 1,
{
    if i < 0 || i >= ss.len() {
        (st, Ok(()))
    } else {
        let (s1, r1) = r_stmt(st, ss[i], fuel);
        if r1 is Err {
            (s1, r1)
        } else {
            r_stmts(s1, ss, i + 1, fuel)
        }
    }
}

pub open spec fn r_stmt(st: RState, s: Stmt, fuel: nat) -> RResult
    decreases fuel, 0nat,
{
    if fuel == 0 {
        (st, Err((ResolutionErrorKind::TooDeep, 0)))
    } else {
        let f = (fuel - 1) as nat;
        match s {
            Stmt::Expression { expression } => r_expr(st, expression, f),
            Stmt::Print { expression } => r_expr(st, expression, f),
            Stmt::Let { name, initializer, .. } => {
                let (s1, r1) = r_expr(mark(st, name@, false), initializer, f);
                if r1 is Err {
                    (s1, r1)
                } else {
                    (mark(s1, name@, true), Ok(()))
                }
            },
            Stmt::Block { statements } => {
                let (s1, r1) = r_stmts(begin(st), statements@, 0, f);
                (end(s1), r1)
            },
            Stmt::IfStmt { predicate, then, els } => {
                let (s1, r1) = r_expr(st, predicate, f);
                if r1 is Err {
                    (s1, r1)
                } else {
                    let (s2, r2) = r_stmt(s1, *then, f);
                    if r2 is Err {
                        (s2, r2)
                    } else {
                        match els {
                            Some(e) => r_stmt(s2, *e, f),
                            None => (s2, Ok(())),
                        }
                    }
                }
            },
            Stmt::WhileStmt { condition, body } => {
                let (s1, r1) = r_expr(st, condition, f);
                if r1 is Err {
                    (s1, r1)
                } else {
                    r_stmt(s1, *body, f)
                }
            },
            Stmt::BreakStmt => (st, Ok(())),
            Stmt::Function { decl } => r_function(mark(mark(st, decl.name@, false), decl.name@, true), *decl, f),
            Stmt::ReturnStmt { value, .. } => match value {
                Some(e) => r_expr(st, e, f),
                None => (st, Ok(())),
            },
        }
    }
}

/// Resolves scope distances for a program.
pub struct Resolver {
    pub scopes: Vec<Vec<(String, bool)>>,
    /// `(node id, depth)` for each reference found in a tracked scope.
    pub locals: Vec<(usize, usize)>,
}

pub open spec fn scope_view(sc: Seq<(String, bool)>) -> ScopeView {
    Seq::new(sc.len(), |i: int| (sc[i].0@, sc[i].1))
}

pub open spec fn rres(r: Result<(), ResolutionError>) -> Result<(), (ResolutionErrorKind, int)> {
    match r {
        Ok(()) => Ok(()),
        Err(e) => Err((e.kind, e.line as int)),
    }
}

fn find_in_scope(sc: &Vec<(String, bool)>, name: &String) -> (r: Option<bool>)
    ensures
        r == scope_find(scope_view(sc@), name@),
{
    let mut i = sc.len();
    proof {
        assert(scope_view(sc@).subrange(0, i as int) =~= scope_view(sc@));
    }
    while i > 0
        invariant
            i <= sc@.len(),
            scope_find(scope_view(sc@), name@) == scope_find(scope_view(sc@).subrange(0, i as int), name@),
        decreases i,
    {
        let ghost sub = scope_view(sc@).subrange(0, i as int);
        assert(sub.drop_last() =~= scope_view(sc@).subrange(0, i - 1));
        if sc[i - 1].0 == *name {
            return Some(sc[i - 1].1);
        }
        i = i - 1;
    }
    None
}

impl Resolver {
    pub open spec fn state(&self) -> RState {
        RState {
            scopes: Seq::new(self.scopes@.len(), |i: int| scope_view(self.scopes@[i]@)),
            locals: Seq::new(self.locals@.len(), |i: int| (self.locals@[i].0 as int, self.locals@[i].1 as int)),
        }
    }

    pub fn new() -> (r: Resolver)
        ensures
            r.state().scopes.len() == 0,
            r.state().locals.len() == 0,
    {
        Resolver { scopes: Vec::new(), locals: Vec::new() }
    }

    fn begin_scope(&mut self)
        ensures
            final(self).state() == begin(old(self).state()),
            final(self).scopes@.len() == old(self).scopes@.len() + 1,
    {
        self.scopes.push(Vec::new());
        proof {
            assert(scope_view(Seq::<(String, bool)>::empty()) =~= Seq::<(Seq<char>, bool)>::empty());
            assert(self.state().scopes =~= begin(old(self).state()).scopes);
        }
    }

    fn end_scope(&mut self)
        requires
            old(self).scopes@.len() > 0,
        ensures
            final(self).state() == end(old(self).state()),
            final(self).scopes@.len() == old(self).scopes@.len() - 1,
    {
        self.scopes.pop();
        proof {
            assert(self.state().scopes =~= end(old(self).state()).scopes);
        }
    }

    fn mark(&mut self, name: &String, defined: bool)
        ensures
            final(self).state() == mark(old(self).state(), name@, defined),
            final(self).scopes@.len() == old(self).scopes@.len(),
    {
        match self.scopes.pop() {
            Some(mut top) => {
                let ghost t0 = top@;
                top.push((name.clone(), defined));
                proof {
                    assert(scope_view(top@) =~= scope_view(t0).push((name@, defined)));
                }
                self.scopes.push(top);
                proof {
                    assert(self.state().scopes =~= mark(old(self).state(), name@, defined).scopes);
                }
            },
            None => {},
        }
    }

    fn resolve_local(&mut self, id: usize, name: &String)
        ensures
            final(self).state() == resolve_local(old(self).state(), id as int, name@),
            final(self).scopes@ == old(self).scopes@,
    {
        let n = self.scopes.len();
        let mut k = n;
        while k > 0
            invariant
                k <= n,
                n == self.scopes@.len(),
                self.state() == old(self).state(),
                self.scopes@ == old(self).scopes@,
                depth_in(self.state().scopes, n as int, name@) == depth_in(self.state().scopes, k as int, name@),
            decreases k,
        {
            let found = find_in_scope(&self.scopes[k - 1], name);
            if found.is_some() {
                self.locals.push((id, n - k));
                proof {
                    assert(self.state().locals =~= old(self).state().locals.push((id as int, (n - k) as int)));
                    assert(self.state().scopes =~= old(self).state().scopes);
                }
                return;
            }
            k = k - 1;
        }
    }
}

fn rerr(kind: ResolutionErrorKind, name: &String, line: usize) -> (r: ResolutionError)
    ensures
        r.kind == kind,
        r.line == line,
        r.name@ == name@,
{
    ResolutionError { kind, name: name.clone(), line }
}

impl Resolver {
    fn resolve_expr(&mut self, e: &Expr, fuel: usize) -> (r: Result<(), ResolutionError>)
        ensures
            (final(self).state(), rres(r)) == r_expr(old(self).state(), *e, fuel as nat),
            final(self).scopes@.len() == old(self).scopes@.len(),
        decreases fuel, 0nat,
    {
        if fuel == 0 {
            return Err(rerr(ResolutionErrorKind::TooDeep, &String::new(), 0));
        }
        let f = fuel - 1;
        match e {
            Expr::Variable { name, id, line } => {
                let n = self.scopes.len();
                if n > 0 {
                    if find_in_scope(&self.scopes[n - 1], name) == Some(false) {
                        return Err(rerr(ResolutionErrorKind::SelfReference, name, *line));
                    }
                }
                self.resolve_local(*id, name);
                Ok(())
            },
            Expr::Assign { name, value, id, .. } => {
                self.resolve_expr(value, f)?;
                self.resolve_local(*id, name);
                Ok(())
            },
            Expr::Binary { left, right, .. } => self.resolve_pair(left, right, f),
            Expr::Logical { left, right, .. } => self.resolve_pair(left, right, f),
            Expr::Call { callee, arguments, .. } => {
                self.resolve_expr(callee, f)?;
                self.resolve_exprs(arguments, f)
            },
            Expr::Grouping { expression } => self.resolve_expr(expression, f),
            Expr::Literal { .. } => Ok(()),
            Expr::Unary { value, .. } => self.resolve_expr(value, f),
            Expr::Ternary { condition, expr_true, expr_false } => {
                self.resolve_expr(condition, f)?;
                self.resolve_pair(expr_true, expr_false, f)
            },
            Expr::AnonFunction { decl } => self.resolve_function(decl, f),
        }
    }

    fn resolve_pair(&mut self, a: &Expr, b: &Expr, fuel: usize) -> (r: Result<(), ResolutionError>)
        ensures
            (final(self).state(), rres(r)) == r_pair(old(self).state(), *a, *b, fuel as nat),
            final(self).scopes@.len() == old(self).scopes@.len(),
        decreases fuel, 1nat,
    {
        self.resolve_expr(a, fuel)?;
        self.resolve_expr(b, fuel)
    }

    fn resolve_exprs(&mut self, es: &Vec<Expr>, fuel: usize) -> (r: Result<(), ResolutionError>)
        ensures
            (final(self).state(), rres(r)) == r_exprs(old(self).state(), es@, 0, fuel as nat),
            final(self).scopes@.len() == old(self).scopes@.len(),
        decreases fuel, es@.len() + 2,
    {
        let mut i: usize = 0;
        while i < es.len()
            invariant
                i <= es@.len(),
                self.scopes@.len() == old(self).scopes@.len(),
                r_exprs(old(self).state(), es@, 0, fuel as nat) == r_exprs(self.state(), es@, i as int, fuel as nat),
            decreases es@.len() - i,
        {
            self.resolve_expr(&es[i], fuel)?;
            i += 1;
        }
        Ok(())
    }

    fn resolve_function(&mut self, decl: &FunctionDecl, fuel: usize) -> (r: Result<(), ResolutionError>)
        ensures
            (final(self).state(), rres(r)) == r_function(old(self).state(), *decl, fuel as nat),
            final(self).scopes@.len() == old(self).scopes@.len(),
        decreases fuel, 0nat,
    {
        let ghost pn = Seq::new(decl.params@.len(), |i: int| decl.params@[i]@);
        self.begin_scope();
        let ghost s0 = self.state();
        let mut i: usize = 0;
        while i < decl.params.len()
            invariant
                i <= decl.params@.len(),
                pn == Seq::new(decl.params@.len(), |i: int| decl.params@[i]@),
                self.scopes@.len() == old(self).scopes@.len() + 1,
                mark_params(s0, pn, 0) == mark_params(self.state(), pn, i as int),
            decreases decl.params@.len() - i,
        {
            self.mark(&decl.params[i], false);
            self.mark(&decl.params[i], true);
            i += 1;
        }
        if fuel == 0 {
            self.end_scope();
            return Err(rerr(ResolutionErrorKind::TooDeep, &decl.name, decl.line));
        }
        let r = self.resolve_stmts(&decl.body, fuel - 1);
        self.end_scope();
        r
    }

    fn resolve_stmts(&mut self, ss: &Vec<Stmt>, fuel: usize) -> (r: Result<(), ResolutionError>)
        ensures
            (final(self).state(), rres(r)) == r_stmts(old(self).state(), ss@, 0, fuel as nat),
            final(self).scopes@.len() == old(self).scopes@.len(),
        decreases fuel, ss@.len() + 2,
    {
        let mut i: usize = 0;
        while i < ss.len()
            invariant
                i <= ss@.len(),
                self.scopes@.len() == old(self).scopes@.len(),
                r_stmts(old(self).state(), ss@, 0, fuel as nat) == r_stmts(self.state(), ss@, i as int, fuel as nat),
            decreases ss@.len() - i,
        {
            self.resolve_stmt(&ss[i], fuel)?;
            i += 1;
        }
        Ok(())
    }

    fn resolve_stmt(&mut self, s: &Stmt, fuel: usize) -> (r: Result<(), ResolutionError>)
        ensures
            (final(self).state(), rres(r)) == r_stmt(old(self).state(), *s, fuel as nat),
            final(self).scopes@.len() == old(self).scopes@.len(),
        decreases fuel, 0nat,
    {
        if fuel == 0 {
            return Err(rerr(ResolutionErrorKind::TooDeep, &String::new(), 0));
        }
        let f = fuel - 1;
        match s {
            Stmt::Expression { expression } => self.resolve_expr(expression, f),
            Stmt::Print { expression } => self.resolve_expr(expression, f),
            Stmt::Let { name, initializer, .. } => {
                self.mark(name, false);
                self.resolve_expr(initializer, f)?;
                self.mark(name, true);
                Ok(())
            },
            Stmt::Block { statements } => {
                self.begin_scope();
                let r = self.resolve_stmts(statements, f);
                self.end_scope();
                r
            },
            Stmt::IfStmt { predicate, then, els } => {
                self.resolve_expr(predicate, f)?;
                self.resolve_stmt(then, f)?;
                match els {
                    Some(e) => self.resolve_stmt(e, f),
                    None => Ok(()),
                }
            },
            Stmt::WhileStmt { condition, body } => {
                self.resolve_expr(condition, f)?;
                self.resolve_stmt(body, f)
            },
            Stmt::BreakStmt => Ok(()),
            Stmt::Function { decl } => {
                self.mark(&decl.name, false);
                self.mark(&decl.name, true);
                self.resolve_function(decl, f)
            },
            Stmt::ReturnStmt { value, .. } => match value {
                Some(e) => self.resolve_expr(e, f),
                None => Ok(()),
            },
        }
    }

    /// Resolves a program, starting with no tracked scope: the top level is
    /// the global frame. Stops at the first error.
    pub fn resolve(&mut self, stmts: &Vec<Stmt>) -> (r: Result<(), ResolutionError>)
        ensures
            (final(self).state(), rres(r)) == r_stmts(old(self).state(), stmts@, 0, MAX_RESOLVE_DEPTH as nat),
    {
        self.resolve_stmts(stmts, MAX_RESOLVE_DEPTH)
    }
}

/// Reading a local in its own initializer is a resolution error: inside
/// any tracked scope, `let x = x;` fails on the read of `x`.
pub proof fn lemma_self_reference(st: RState, name: String, id: usize, vline: usize, line: usize, fuel: nat)
    requires
        st.scopes.len() > 0,
        fuel > 1,
    ensures
        r_stmt(
            st,
            Stmt::Let { name, initializer: Expr::Variable { name, id, line: vline }, line },
            fuel,
        ).1 == Err::<(), (ResolutionErrorKind, int)>((ResolutionErrorKind::SelfReference, vline as int)),
{
    let s1 = mark(st, name@, false);
    assert(s1.scopes.last() == st.scopes.last().push((name@, false)));
    assert(scope_find(s1.scopes.last(), name@) == Some(false));
    let v = Expr::Variable { name, id, line: vline };
    assert(r_expr(s1, v, (fuel - 1) as nat) == (s1, Err::<(), (ResolutionErrorKind, int)>((ResolutionErrorKind::SelfReference, vline as int))));
}

} // verus!
