//! The core of a small Lisp interpreter: reader, printer, value model,
//! environments, builtins and evaluator, with machine-checked contracts.

pub mod env;
pub mod error;
pub mod eval;
pub mod heap;
pub mod host;
pub mod laws;
pub mod model;
pub mod ns;
pub mod prelude;
pub mod printer;
pub mod reader;
pub mod readline;
pub mod repl;
pub mod roundtrip;
pub mod semantics;
pub mod text;
pub mod types;

use vstd::prelude::*;

verus! {

/// The prompt that the read-eval-print loop shows.
pub const DEFAULT_PROMPT: &'static str = "user> ";

} // verus!
