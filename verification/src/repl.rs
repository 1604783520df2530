//! One turn of the read-eval-print loop.

use crate::env::Env;
use crate::error::{
    failure_text, read_failure_text, Error, EvaluationError, ReaderError, ReplError, ReplFailure,
    Trouble,
};
use crate::reader::ReadFailure;
use crate::types::{new_list, new_symbol, views, views_push, LispValue};
use crate::model::Value;
use crate::eval::eval;
use crate::heap::Heap;
use crate::host::Host;
use crate::model::{begins, Store, Transcript};
use crate::printer::{pr_str_spec, print};
use crate::reader::{read, read_tokens_spec, tokenizer_spec};
use crate::semantics::{eval_spec, Outcome};
use vstd::prelude::*;

verus! {

/// What one turn of the loop gives: the text of the value, or an error.
pub type ReplResult = Result<String, Error>;

/// The symbol that holds the arguments of a script.
pub const ARGV_SYMBOL: &'static str = "*ARGV*";

/// The form that greets the user.
pub const GREETING_FORM: &'static str = "(println (str \"Mal [\" *host-language* \"]\"))";

/// How one turn ends: with a text or an error, and the store it leaves.
pub enum Turn {
    Done(Result<Seq<char>, Trouble>, Store),
}

/// One turn on the text `input`: it is read, the form is evaluated, and
/// the value is printed readably. The host answers as the transcript `t` says.
pub open spec fn rep_spec(
    input: Seq<char>,
    env: usize,
    st: Store,
    fuel: nat,
    t: Transcript,
) -> Turn {
    match read_tokens_spec(tokenizer_spec(input)) {
        Err(e) => Turn::Done(Err(Trouble::Reader(e)), st),
        Ok(ast) => match eval_spec(ast, env, st, fuel, t) {
            Outcome::Done(Ok(v), st1) => Turn::Done(
                Ok(pr_str_spec(st1.atoms, v, true, st1.atoms.len())),
                st1,
            ),
            Outcome::Done(Err(e), st1) => Turn::Done(Err(Trouble::Evaluation(e)), st1),
        },
    }
}

/// The model of a turn's result.
pub open spec fn repl_result_view(r: ReplResult) -> Result<Seq<char>, Trouble> {
    match r {
        Ok(text) => Ok(text@),
        Err(e) => Err(e@),
    }
}

/// Whether a turn's result and the store it leaves are what `turn` says.
pub open spec fn turn_agrees(turn: Turn, r: ReplResult, st: Store) -> bool {
    match turn {
        Turn::Done(res, st2) => repl_result_view(r) == res && st == st2,
    }
}

/// Reads one form from `input`, evaluates it in `env` and prints its value.
pub fn rep<H: Host>(
    input: String,
    env: Env,
    heap: &mut Heap,
    host: &mut H,
    fuel: usize,
) -> (r: ReplResult)
    ensures
        forall|t: Transcript| #[trigger]
            begins(final(heap)@.log, t) ==> begins(old(heap)@.log, t) && turn_agrees(
                rep_spec(input@, env, old(heap)@, fuel as nat, t),
                r,
                final(heap)@,
            ),
{
    let ast = match read(input) {
        Ok(ast) => ast,
        Err(e) => {
            return Err(Error::ReaderError(e));
        },
    };
    match eval(&ast, env, heap, host, fuel) {
        Ok(val) => Ok(print(&val, heap)),
        Err(e) => Err(Error::EvaluationError(e)),
    }
}

/// The form that loads the file `file_name`.
pub fn load_file_form(file_name: &str) -> (r: String)
    ensures
        r@ == "(load-file \""@ + file_name@ + "\")"@,
{
    let mut form = crate::text::owned("(load-file \"");
    vstd::string::StringExecFns::append(&mut form, file_name);
    vstd::string::StringExecFns::append(&mut form, "\")");
    form
}


/// One turn on what the line reader gave: the end of the input ends the
/// loop, a line is read, evaluated and printed.
pub fn rep_from_reader<H: Host>(
    line: Option<String>,
    env: Env,
    heap: &mut Heap,
    host: &mut H,
    fuel: usize,
) -> (r: ReplResult)
    ensures
        match line {
            Some(input) => forall|t: Transcript| #[trigger]
                begins(final(heap)@.log, t) ==> begins(old(heap)@.log, t) && turn_agrees(
                    rep_spec(input@, env, old(heap)@, fuel as nat, t),
                    r,
                    final(heap)@,
                ),
            None => repl_result_view(r) == Err::<Seq<char>, Trouble>(
                Trouble::Repl(ReplFailure::EOF),
            ) && final(heap)@ == old(heap)@,
        },
{
    match line {
        Some(input) => rep(input, env, heap, host, fuel),
        None => Err(Error::ReplError(ReplError::EOF)),
    }
}

/// One turn that loads the file `file_name`.
pub fn rep_from_file<H: Host>(
    file_name: &str,
    env: Env,
    heap: &mut Heap,
    host: &mut H,
    fuel: usize,
) -> (r: ReplResult)
    ensures
        forall|t: Transcript| #[trigger]
            begins(final(heap)@.log, t) ==> begins(old(heap)@.log, t) && turn_agrees(
                rep_spec("(load-file \""@ + file_name@ + "\")"@, env, old(heap)@, fuel as nat, t),
                r,
                final(heap)@,
            ),
{
    rep(load_file_form(file_name), env, heap, host, fuel)
}

/// What the loop does after a turn.
pub enum Action {
    /// Show the text as the turn's result.
    Print(String),
    /// Show the text as an error.
    Report(String),
    /// Show nothing and go on.
    Skip,
    /// Leave the loop.
    Quit,
}

/// The model of an action.
pub enum Step {
    Print(Seq<char>),
    Report(Seq<char>),
    Skip,
    Quit,
}

impl View for Action {
    type V = Step;

    open spec fn view(&self) -> Step {
        match *self {
            Action::Print(s) => Step::Print(s@),
            Action::Report(s) => Step::Report(s@),
            Action::Skip => Step::Skip,
            Action::Quit => Step::Quit,
        }
    }
}

/// What the loop does after an interactive turn: a result is printed; an
/// empty input and an empty output pass in silence; the end of the input
/// ends the loop; every other error is reported on one line.
pub open spec fn after_turn_spec(r: Result<Seq<char>, Trouble>, atoms: Seq<Value>) -> Step {
    match r {
        Ok(text) => Step::Print(text),
        Err(Trouble::Reader(ReadFailure::EmptyInput)) => Step::Skip,
        Err(Trouble::Reader(e)) => Step::Report(read_failure_text(e)),
        Err(Trouble::Evaluation(e)) => Step::Report(failure_text(atoms, e)),
        Err(Trouble::Repl(ReplFailure::EmptyOutput)) => Step::Skip,
        Err(Trouble::Repl(ReplFailure::EvalError(msg))) => Step::Report(msg),
        Err(Trouble::Repl(ReplFailure::EOF)) => Step::Quit,
    }
}

/// What the loop does after an interactive turn.
pub fn after_turn(r: &ReplResult, heap: &Heap) -> (action: Action)
    ensures
        action@ == after_turn_spec(repl_result_view(*r), heap@.atoms),
{
    match r {
        Ok(text) => Action::Print(text.clone()),
        Err(Error::ReaderError(ReaderError::EmptyInput)) => Action::Skip,
        Err(Error::ReaderError(e)) => Action::Report(e.to_string()),
        Err(Error::EvaluationError(e)) => Action::Report(e.to_string(heap)),
        Err(Error::ReplError(ReplError::EmptyOutput)) => Action::Skip,
        Err(Error::ReplError(ReplError::EvalError(msg))) => Action::Report(msg.clone()),
        Err(Error::ReplError(ReplError::EOF)) => Action::Quit,
    }
}

/// What the program does after it ran a script: the result is printed, an
/// evaluation error is reported, and any other error passes in silence.
pub open spec fn after_script_spec(r: Result<Seq<char>, Trouble>, atoms: Seq<Value>) -> Step {
    match r {
        Ok(text) => Step::Print(text),
        Err(Trouble::Evaluation(e)) => Step::Report(failure_text(atoms, e)),
        Err(_) => Step::Skip,
    }
}

/// What the program does after it ran a script.
pub fn after_script(r: &ReplResult, heap: &Heap) -> (action: Action)
    ensures
        action@ == after_script_spec(repl_result_view(*r), heap@.atoms),
{
    match r {
        Ok(text) => Action::Print(text.clone()),
        Err(Error::EvaluationError(e)) => Action::Report(e.to_string(heap)),
        Err(_) => Action::Skip,
    }
}

/// What the program does after the prelude was loaded: an error is
/// reported, but for an empty output; the loop starts either way.
pub fn after_prelude(r: &Result<(), Error>, heap: &Heap) -> (action: Action)
    ensures
        action@ == (match *r {
            Ok(_) => Step::Skip,
            Err(e) => match e@ {
                Trouble::Repl(ReplFailure::EmptyOutput) => Step::Skip,
                Trouble::Repl(ReplFailure::EOF) => Step::Skip,
                Trouble::Repl(ReplFailure::EvalError(msg)) => Step::Report(msg),
                Trouble::Evaluation(f) => Step::Report(failure_text(heap@.atoms, f)),
                Trouble::Reader(f) => Step::Report(read_failure_text(f)),
            },
        }),
{
    match r {
        Ok(_) => Action::Skip,
        Err(Error::ReplError(ReplError::EmptyOutput)) => Action::Skip,
        Err(Error::ReplError(ReplError::EOF)) => Action::Skip,
        Err(Error::ReplError(ReplError::EvalError(msg))) => Action::Report(msg.clone()),
        Err(Error::EvaluationError(e)) => Action::Report(e.to_string(heap)),
        Err(Error::ReaderError(e)) => Action::Report(e.to_string()),
    }
}

/// The arguments of a script, each as a symbol.
pub open spec fn argv_symbols(args: Seq<String>) -> Seq<Value> {
    Seq::new(args.len(), |i: int| Value::symbol(args[i]@))
}

/// The list of a script's arguments, each as a symbol.
pub fn argv_list(args: &Vec<String>) -> (r: LispValue)
    ensures
        r@ == Value::list(argv_symbols(args@)),
{
    let mut items: Vec<LispValue> = Vec::new();
    let mut i: usize = 0;
    assert(views(items@) =~= argv_symbols(args@).subrange(0, 0));
    while i < args.len()
        invariant
            i <= args.len(),
            views(items@) == argv_symbols(args@).subrange(0, i as int),
        decreases args.len() - i,
    {
        let sym = new_symbol(args[i].as_str(), None);
        proof {
            views_push(items@, sym);
        }
        items.push(sym);
        assert(views(items@) =~= argv_symbols(args@).subrange(0, i + 1));
        i += 1;
    }
    assert(views(items@) =~= argv_symbols(args@));
    new_list(items, None)
}

/// Binds the arguments of a script in `env`, under the name that scripts
/// look them up by.
pub fn bind_argv(args: &Vec<String>, env: Env, heap: &mut Heap)
    ensures
        final(heap)@ == old(heap)@.set(env, ARGV_SYMBOL@, Value::list(argv_symbols(args@))),
{
    let list = argv_list(args);
    heap.envs.set(env, crate::text::owned(ARGV_SYMBOL), list);
}

} // verus!
