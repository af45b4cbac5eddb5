//! The whole pipeline: source text to printed lines.

use vstd::prelude::*;
use crate::ast::{Program, Stmt};
use crate::interpreter::{run_outcome, run_statements, Outcome};
use crate::lexer::{lex, lex_messages, Lexer};
use crate::parser::Parser;
use crate::resolver::{r_stmts, RState, Resolver, MAX_RESOLVE_DEPTH};
use crate::text::with_number;
use vstd::string::StringExecFns;

verus! {

/// A program that resolves without error.
pub open spec fn resolves(ss: Seq<Stmt>) -> bool {
    r_stmts(RState { scopes: Seq::empty(), locals: Seq::empty() }, ss, 0, MAX_RESOLVE_DEPTH as nat).1 is Ok
}

/// Lexes, parses and resolves a source. Lexical and parse errors are all
/// reported, one per line; resolution stops at its first error.
pub fn compile(source: &str) -> (r: Result<Program, String>)
    ensures
        r matches Ok(p) ==> resolves(p.statements@),
        r is Ok ==> lex(source@).1.len() == 0,
        lex(source@).1.len() > 0 ==> (r matches Err(m) && m@ == lex_messages(lex(source@).1)),
{
    let mut lexer = Lexer::new(source);
    let scanned = lexer.scan_tokens();
    proof {
        assert(Seq::<crate::lexer::LexError>::empty() + lex(source@).1 =~= lex(source@).1);
    }
    let tokens = match scanned {
        Ok(ts) => ts,
        Err(m) => {
            return Err(m);
        },
    };
    let mut parser = Parser::new(tokens);
    let program = match parser.parse() {
        Ok(p) => p,
        Err(es) => {
            let mut joined = String::new();
            let mut i: usize = 0;
            while i < es.len()
                decreases es@.len() - i,
            {
                joined.append(es[i].message.as_str());
                joined.append(with_number(" in line ", es[i].span.line as u64).as_str());
                joined.append("\n");
                i += 1;
            }
            return Err(joined);
        },
    };
    let mut resolver = Resolver::new();
    proof {
        assert(resolver.state().scopes =~= Seq::empty());
        assert(resolver.state().locals =~= Seq::empty());
    }
    match resolver.resolve(&program.statements) {
        Ok(()) => Ok(program),
        Err(e) => {
            let mut m = match e.kind {
                crate::resolver::ResolutionErrorKind::SelfReference => {
                    let mut m = String::from_str("Can't read local variable '");
                    m.append(e.name.as_str());
                    m.append("' in its own initializer");
                    m
                },
                crate::resolver::ResolutionErrorKind::TooDeep => String::from_str(
                    "Program nested too deeply",
                ),
            };
            m.append(with_number(" in line ", e.line as u64).as_str());
            Err(m)
        },
    }
}

/// Runs a source in a fresh interpreter: its printed lines, or the first
/// error's description. A runtime error discards the lines printed before it.
pub fn run(source: &str) -> (r: Result<Vec<String>, String>)
    ensures
        lex(source@).1.len() > 0 ==> (r matches Err(m) && m@ == lex_messages(lex(source@).1)),
        r matches Ok(lines) ==> exists|ss: Seq<Stmt>|
            {
                &&& lex(source@).1.len() == 0
                &&& resolves(ss)
                &&& #[trigger] run_outcome(ss) matches Outcome::Done(st, res) ==> res is Ok
                    && st.out == Seq::new(lines@.len(), |i: int| lines@[i]@)
            },
{
    let program = compile(source)?;
    let report = run_statements(&program.statements);
    match report.error {
        None => Ok(report.output),
        Some(e) => Err(e.message()),
    }
}

} // verus!
