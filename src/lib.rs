//! A small dynamically typed scripting language: variables, arithmetic,
//! logical and comparison operators, `if`, `while`, `for` and `break`,
//! first-class functions with closures, and `print`.
//!
//! Source text goes through the lexer (`lexer`), the parser (`parser`,
//! building the trees of `ast`), the scope resolver (`resolver`) and the
//! evaluator (`interpreter`), which runs statements against an arena of
//! scopes (`env`). `driver` chains them. Numbers are exact decimals with six
//! fractional digits (`num`).

pub mod ast;
pub mod driver;
pub mod env;
pub mod interpreter;
pub mod lexer;
pub mod num;
pub mod parser;
pub mod resolver;
pub mod text;
pub mod token;
pub mod types;
pub mod value;
