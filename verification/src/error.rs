//! The errors of the reader, of the evaluator and of the read-eval-print loop.

use crate::heap::Heap;
use crate::model::{Failure, Value};
use crate::printer::{pr_str, pr_str_spec};
use crate::reader::{ReadFailure, Token};
use crate::text::owned;
use crate::types::LispValue;
use vstd::prelude::*;
use vstd::std_specs::convert::FromSpecImpl;
use vstd::string::StringExecFns;

verus! {

/// Why an evaluation failed.
#[derive(Debug)]
pub enum EvaluationError {
    WrongArity(LispValue),
    BadArguments(LispValue),
    MissingSymbol(String),
    Message(String),
    Exception(LispValue),
}

impl View for EvaluationError {
    type V = Failure;

    open spec fn view(&self) -> Failure {
        match *self {
            EvaluationError::WrongArity(v) => Failure::WrongArity(v@),
            EvaluationError::BadArguments(v) => Failure::BadArguments(v@),
            EvaluationError::MissingSymbol(s) => Failure::MissingSymbol(s@),
            EvaluationError::Message(s) => Failure::Message(s@),
            EvaluationError::Exception(v) => Failure::Exception(v@),
        }
    }
}

/// An evaluation error that carries only a message.
pub fn error_message(msg: &str) -> (e: EvaluationError)
    ensures
        e@ == Failure::Message(msg@),
{
    EvaluationError::Message(owned(msg))
}


/// Why reading failed.
#[derive(Debug)]
pub enum ReaderError {
    Message(String),
    ExtraInput(Vec<Token>, usize),
    EmptyInput,
}

/// Why the read-eval-print loop has nothing to show.
pub enum ReplError {
    EmptyOutput,
    EvalError(String),
    EOF,
}

/// Every error of the interpreter.
pub enum Error {
    ReaderError(ReaderError),
    EvaluationError(EvaluationError),
    ReplError(ReplError),
}


impl From<EvaluationError> for Error {
    fn from(err: EvaluationError) -> (r: Error) {
        Error::EvaluationError(err)
    }
}

impl FromSpecImpl<EvaluationError> for Error {
    open spec fn obeys_from_spec() -> bool {
        true
    }

    open spec fn from_spec(err: EvaluationError) -> Error {
        Error::EvaluationError(err)
    }
}

impl From<ReaderError> for Error {
    fn from(err: ReaderError) -> (r: Error) {
        Error::ReaderError(err)
    }
}

impl FromSpecImpl<ReaderError> for Error {
    open spec fn obeys_from_spec() -> bool {
        true
    }

    open spec fn from_spec(err: ReaderError) -> Error {
        Error::ReaderError(err)
    }
}

impl From<ReplError> for Error {
    fn from(err: ReplError) -> (r: Error) {
        Error::ReplError(err)
    }
}

impl FromSpecImpl<ReplError> for Error {
    open spec fn obeys_from_spec() -> bool {
        true
    }

    open spec fn from_spec(err: ReplError) -> Error {
        Error::ReplError(err)
    }
}

/// The model of a loop error.
pub enum ReplFailure {
    EmptyOutput,
    EvalError(Seq<char>),
    EOF,
}

impl View for ReplError {
    type V = ReplFailure;

    open spec fn view(&self) -> ReplFailure {
        match *self {
            ReplError::EmptyOutput => ReplFailure::EmptyOutput,
            ReplError::EvalError(s) => ReplFailure::EvalError(s@),
            ReplError::EOF => ReplFailure::EOF,
        }
    }
}

/// The model of an error of any kind.
pub enum Trouble {
    Reader(ReadFailure),
    Evaluation(Failure),
    Repl(ReplFailure),
}

impl View for Error {
    type V = Trouble;

    open spec fn view(&self) -> Trouble {
        match *self {
            Error::ReaderError(e) => Trouble::Reader(e@),
            Error::EvaluationError(e) => Trouble::Evaluation(e@),
            Error::ReplError(e) => Trouble::Repl(e@),
        }
    }
}

/// The line that reports an evaluation error: its message, or the text of
/// what was thrown.
pub open spec fn failure_text(atoms: Seq<Value>, e: Failure) -> Seq<char> {
    match e {
        Failure::WrongArity(v) => "wrong number of arguments for fn: "@ + pr_str_spec(
            atoms,
            v,
            true,
            atoms.len(),
        ),
        Failure::BadArguments(v) => "bad inputs for fn: "@ + pr_str_spec(atoms, v, true, atoms.len()),
        Failure::Message(s) => s,
        Failure::MissingSymbol(s) => "unbound symbol: "@ + s,
        Failure::Exception(v) => pr_str_spec(atoms, v, true, atoms.len()),
    }
}

/// The line that reports a reader error.
pub open spec fn read_failure_text(e: ReadFailure) -> Seq<char> {
    match e {
        ReadFailure::Message(s) => s,
        ReadFailure::ExtraInput(_, _) => "extra input after full form"@,
        ReadFailure::EmptyInput => ""@,
    }
}

/// The line that reports a loop error.
pub open spec fn repl_failure_text(e: ReplFailure) -> Seq<char> {
    match e {
        ReplFailure::EmptyOutput => ""@,
        ReplFailure::EvalError(s) => s,
        ReplFailure::EOF => ""@,
    }
}

impl EvaluationError {
    /// The line that reports the error.
    pub fn to_string(&self, heap: &Heap) -> (r: String)
        ensures
            r@ == failure_text(heap@.atoms, self@),
    {
        match self {
            EvaluationError::WrongArity(ast) => {
                let mut out = String::from_str("wrong number of arguments for fn: ");
                let text = pr_str(ast, true, heap);
                out.append(text.as_str());
                out
            },
            EvaluationError::BadArguments(ast) => {
                let mut out = String::from_str("bad inputs for fn: ");
                let text = pr_str(ast, true, heap);
                out.append(text.as_str());
                out
            },
            EvaluationError::Message(s) => s.clone(),
            EvaluationError::MissingSymbol(s) => {
                let mut out = String::from_str("unbound symbol: ");
                out.append(s.as_str());
                out
            },
            EvaluationError::Exception(v) => pr_str(v, true, heap),
        }
    }
}

impl ReaderError {
    /// The line that reports the error.
    pub fn to_string(&self) -> (r: String)
        ensures
            r@ == read_failure_text(self@),
    {
        match self {
            ReaderError::Message(s) => s.clone(),
            ReaderError::ExtraInput(_, _) => String::from_str("extra input after full form"),
            ReaderError::EmptyInput => String::from_str(""),
        }
    }
}

impl ReplError {
    /// The line that reports the error.
    pub fn to_string(&self) -> (r: String)
        ensures
            r@ == repl_failure_text(self@),
    {
        match self {
            ReplError::EmptyOutput => String::from_str(""),
            ReplError::EvalError(s) => s.clone(),
            ReplError::EOF => String::from_str(""),
        }
    }
}

} // verus!
