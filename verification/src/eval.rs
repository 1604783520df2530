//! The evaluator: special forms, application, macros and quasiquote.
//!
//! Each function that evaluates says the same of itself: take any
//! transcript that begins with what has passed between the interpreter and
//! its host by the time the function returns; then what had passed before
//! the call begins it too, and the result and the store are what the
//! semantics give for that transcript. What was printed and what was asked
//! of the host is in the store's log, so it is pinned down with the rest.

use crate::env::{empty_from, new, root, Env};
use crate::error::{error_message, EvaluationError};
use crate::heap::Heap;
use crate::host::Host;
use crate::model::{begins, Failure, Key, Store, Transcript, Value};
use crate::ns::{arg, call_host_fn, is_symbol_named, items_of, new_from, symbol_text};
use crate::semantics::{
    apply_lambda_spec, apply_spec, as_macro, build_let_env_spec, call_spec, eval_catch_spec,
    eval_define_spec, eval_entries_spec, eval_eval_spec, eval_exception_spec, eval_if_spec,
    eval_lambda_spec, eval_let_spec, eval_list_spec, eval_macro_spec, eval_macroexpand_spec,
    eval_quasiquote_spec, eval_quote_spec, eval_seq_spec, eval_sequence_spec, eval_spec,
    eval_try_spec, eval_vector_spec, exception_value, form1, form2, is_macro_call_spec, macro_of,
    macroexpand_spec, quasiquote, quasiquote_from, special_form, starts_with_symbol, tail, Form,
    Outcome,
};
use crate::text::same_text;
use crate::types::{
    entry_views, new_lambda, new_list, new_macro, new_map, new_nil, new_string, new_symbol,
    new_vector, result_view, share, share_all, share_from, views, views_push, views_subrange,
    Assoc, EvaluationResult, LispType, LispValue, MapKey,
};
use vstd::prelude::*;
use vstd::string::StringExecFns;

verus! {

/// Whether a result and the store it leaves are what the semantics give.
pub open spec fn agrees(out: Outcome, r: EvaluationResult, st: Store) -> bool {
    match out {
        Outcome::Done(res, st2) => result_view(r) == res && st == st2,
    }
}

/// The same for a result that holds a sequence of values.
pub open spec fn agrees_seq(
    out: Outcome,
    r: Result<Vec<LispValue>, EvaluationError>,
    st: Store,
) -> bool {
    match out {
        Outcome::Done(res, st2) => st == st2 && match r {
            Ok(xs) => res == Ok::<Value, Failure>(Value::list(views(xs@))),
            Err(e) => res == Err::<Value, Failure>(e@),
        },
    }
}

/// The error of an evaluation that ran out of depth.
pub fn too_deep_error() -> (e: EvaluationError)
    ensures
        e@ == Failure::Message("evaluation too deep"@),
{
    error_message("evaluation too deep")
}

/// Evaluates `val` in the environment `env`, at most `fuel` lists deep.
/// An evaluation that would go deeper fails with a message.
pub fn eval<H: Host>(
    val: &LispValue,
    env: Env,
    heap: &mut Heap,
    host: &mut H,
    fuel: usize,
) -> (r: EvaluationResult)
    ensures
        forall|t: Transcript| #[trigger]
            begins(final(heap)@.log, t) ==> begins(old(heap)@.log, t) && agrees(
                eval_spec(val@, env, old(heap)@, fuel as nat, t),
                r,
                final(heap)@,
            ),
        !(val@ is Symbol || val@ is List || val@ is Vector || val@ is Dict) ==> result_view(r)
            == Ok::<Value, Failure>(val@) && final(heap)@ == old(heap)@,
    decreases fuel, 0nat, 0nat,
{
    match &**val {
        LispType::Symbol(s, _) => eval_symbol(s.as_str(), env, heap),
        LispType::List(seq, _) => {
            assert(views(seq@).len() == seq@.len());
            if seq.len() == 0 {
                eval_self_evaluating(share(val))
            } else if fuel == 0 {
                Err(too_deep_error())
            } else {
                match macroexpand(share(val), env, heap, host, fuel - 1) {
                    Ok(v1) => match &*v1 {
                        LispType::List(ys, _) => {
                            assert(views(ys@).len() == ys@.len());
                            if ys.len() == 0 {
                                Ok(share(&v1))
                            } else {
                                eval_list(ys, env, heap, host, fuel - 1)
                            }
                        },
                        _ => eval(&v1, env, heap, host, fuel - 1),
                    },
                    Err(e) => Err(e),
                }
            }
        },
        LispType::Vector(seq, _) => {
            if fuel == 0 {
                Err(too_deep_error())
            } else {
                eval_vector(seq, env, heap, host, fuel - 1)
            }
        },
        LispType::Dict(map, _) => {
            if fuel == 0 {
                Err(too_deep_error())
            } else {
                eval_map(map, env, heap, host, fuel - 1)
            }
        },
        _ => eval_self_evaluating(share(val)),
    }
}

fn eval_symbol(s: &str, env: Env, heap: &Heap) -> (r: EvaluationResult)
    ensures
        result_view(r) == heap@.get(env, s@),
{
    heap.envs.get(env, s)
}

fn eval_self_evaluating(val: LispValue) -> (r: EvaluationResult)
    ensures
        result_view(r) == Ok::<Value, Failure>(val@),
{
    Ok(val)
}

/// The special form that a list with the head `head` is, if it is one.
pub fn form_of(head: &LispValue) -> (r: Option<Form>)
    ensures
        r == special_form(head@),
{
    match &**head {
        LispType::Symbol(s, _) => {
            let s = s.as_str();
            if same_text(s, "if") {
                Some(Form::If)
            } else if same_text(s, "do") {
                Some(Form::Do)
            } else if same_text(s, "def!") {
                Some(Form::Def)
            } else if same_text(s, "let*") {
                Some(Form::Let)
            } else if same_text(s, "fn*") {
                Some(Form::Lambda)
            } else if same_text(s, "eval") {
                Some(Form::Eval)
            } else if same_text(s, "quote") {
                Some(Form::Quote)
            } else if same_text(s, "quasiquote") {
                Some(Form::Quasiquote)
            } else if same_text(s, "defmacro!") {
                Some(Form::Macro)
            } else if same_text(s, "macroexpand") {
                Some(Form::Macroexpand)
            } else if same_text(s, "try*") {
                Some(Form::Try)
            } else {
                None
            }
        },
        _ => None,
    }
}

fn eval_list<H: Host>(
    seq: &Vec<LispValue>,
    env: Env,
    heap: &mut Heap,
    host: &mut H,
    fuel: usize,
) -> (r: EvaluationResult)
    ensures
        forall|t: Transcript| #[trigger]
            begins(final(heap)@.log, t) ==> begins(old(heap)@.log, t) && agrees(
                eval_list_spec(views(seq@), env, old(heap)@, fuel as nat, t),
                r,
                final(heap)@,
            ),
    decreases fuel, 9nat, 0nat,
{
    assert(views(seq@).len() == seq@.len());
    if seq.len() == 0 {
        return Ok(new_list(share_all(seq), None));
    }
    let operator = &seq[0];
    assert(views(seq@)[0] == operator@);
    let operands = share_from(seq, 1);
    proof {
        views_subrange(seq@, 1, seq@.len() as int);
        assert(views(operands@) == tail(views(seq@)));
    }
    match form_of(operator) {
        Some(Form::If) => eval_if(&operands, env, heap, host, fuel),
        Some(Form::Do) => eval_sequence(&operands, env, heap, host, fuel),
        Some(Form::Def) => eval_define(&operands, env, heap, host, fuel),
        Some(Form::Let) => eval_let(&operands, env, heap, host, fuel),
        Some(Form::Lambda) => eval_lambda(&operands, env),
        Some(Form::Eval) => eval_eval(&operands, env, heap, host, fuel),
        Some(Form::Quote) => eval_quote(&operands),
        Some(Form::Quasiquote) => eval_quasiquote(&operands, env, heap, host, fuel),
        Some(Form::Macro) => eval_macro(&operands, env, heap, host, fuel),
        Some(Form::Macroexpand) => eval_macroexpand(&operands, env, heap, host, fuel),
        Some(Form::Try) => eval_try(&operands, env, heap, host, fuel),
        None => apply(operator, &operands, env, heap, host, fuel),
    }
}

fn eval_seq<H: Host>(
    operands: &Vec<LispValue>,
    env: Env,
    heap: &mut Heap,
    host: &mut H,
    fuel: usize,
) -> (r: Result<Vec<LispValue>, EvaluationError>)
    ensures
        forall|t: Transcript| #[trigger]
            begins(final(heap)@.log, t) ==> begins(old(heap)@.log, t) && agrees_seq(
                eval_seq_spec(views(operands@), env, old(heap)@, fuel as nat, 0, Seq::empty(), t),
                r,
                final(heap)@,
            ),
    decreases fuel, 1nat, 0nat,
{
    let mut result: Vec<LispValue> = Vec::new();
    assert(views(result@) =~= Seq::<Value>::empty());
    let mut i: usize = 0;
    while i < operands.len()
        invariant
            i <= operands.len(),
            views(operands@).len() == operands@.len(),
            forall|t: Transcript| #[trigger]
                begins(heap@.log, t) ==> begins(old(heap)@.log, t) && eval_seq_spec(
                    views(operands@),
                    env,
                    old(heap)@,
                    fuel as nat,
                    0,
                    Seq::empty(),
                    t,
                ) == eval_seq_spec(
                    views(operands@),
                    env,
                    heap@,
                    fuel as nat,
                    i as nat,
                    views(result@),
                    t,
                ),
        decreases operands.len() - i,
    {
        assert(views(operands@)[i as int] == operands@[i as int]@);
        match eval(&operands[i], env, heap, host, fuel) {
            Ok(v) => {
                proof {
                    views_push(result@, v);
                }
                result.push(v);
            },
            Err(e) => {
                return Err(e);
            },
        }
        i += 1;
    }
    Ok(result)
}

/// Calls a value with arguments that are values already.
pub fn call_value<H: Host>(
    callee: &LispValue,
    args: Vec<LispValue>,
    heap: &mut Heap,
    host: &mut H,
    fuel: usize,
) -> (r: EvaluationResult)
    ensures
        forall|t: Transcript| #[trigger]
            begins(final(heap)@.log, t) ==> begins(old(heap)@.log, t) && agrees(
                call_spec(callee@, views(args@), old(heap)@, fuel as nat, t),
                r,
                final(heap)@,
            ),
    decreases fuel, 4nat, 0nat,
{
    match &**callee {
        LispType::Lambda { params, body, env, .. } => apply_lambda(
            params,
            body,
            *env,
            args,
            heap,
            host,
            fuel,
        ),
        LispType::Fn(f, _) => call_host_fn(*f, args, heap, host, fuel),
        _ => Err(EvaluationError::BadArguments(share(callee))),
    }
}

fn apply<H: Host>(
    operator: &LispValue,
    operands: &Vec<LispValue>,
    env: Env,
    heap: &mut Heap,
    host: &mut H,
    fuel: usize,
) -> (r: EvaluationResult)
    ensures
        forall|t: Transcript| #[trigger]
            begins(final(heap)@.log, t) ==> begins(old(heap)@.log, t) && agrees(
                apply_spec(operator@, views(operands@), env, old(heap)@, fuel as nat, t),
                r,
                final(heap)@,
            ),
    decreases fuel, 5nat, 0nat,
{
    match eval(operator, env, heap, host, fuel) {
        Ok(evop) => match eval_seq(operands, env, heap, host, fuel) {
            Ok(evops) => call_value(&evop, evops, heap, host, fuel),
            Err(e) => Err(e),
        },
        Err(e) => Err(e),
    }
}

/// Calls a lambda: a new frame inside the lambda's own binds the
/// parameters to `evops`, and the body is evaluated there.
pub fn apply_lambda<H: Host>(
    params: &Vec<LispValue>,
    body: &Vec<LispValue>,
    env: Env,
    evops: Vec<LispValue>,
    heap: &mut Heap,
    host: &mut H,
    fuel: usize,
) -> (r: EvaluationResult)
    ensures
        forall|t: Transcript| #[trigger]
            begins(final(heap)@.log, t) ==> begins(old(heap)@.log, t) && agrees(
                apply_lambda_spec(
                    views(params@),
                    views(body@),
                    env,
                    views(evops@),
                    old(heap)@,
                    fuel as nat,
                    t,
                ),
                r,
                final(heap)@,
            ),
    decreases fuel, 2nat, 0nat,
{
    match new_from(params, evops) {
        Err(e) => Err(e),
        Ok(ns) => {
            let new_env = new(&mut heap.envs, Some(env), ns);
            eval_sequence(body, new_env, heap, host, fuel)
        },
    }
}

fn eval_sequence<H: Host>(
    seq: &Vec<LispValue>,
    env: Env,
    heap: &mut Heap,
    host: &mut H,
    fuel: usize,
) -> (r: EvaluationResult)
    ensures
        forall|t: Transcript| #[trigger]
            begins(final(heap)@.log, t) ==> begins(old(heap)@.log, t) && agrees(
                eval_sequence_spec(views(seq@), env, old(heap)@, fuel as nat, 0, t),
                r,
                final(heap)@,
            ),
    decreases fuel, 1nat, 0nat,
{
    assert(views(seq@).len() == seq@.len());
    if seq.len() == 0 {
        return Err(error_message("could not eval sequence"));
    }
    let mut i: usize = 0;
    loop
        invariant
            i < seq.len(),
            views(seq@).len() == seq@.len(),
            forall|t: Transcript| #[trigger]
                begins(heap@.log, t) ==> begins(old(heap)@.log, t) && eval_sequence_spec(
                    views(seq@),
                    env,
                    old(heap)@,
                    fuel as nat,
                    0,
                    t,
                ) == eval_sequence_spec(
                    views(seq@),
                    env,
                    heap@,
                    fuel as nat,
                    i as nat,
                    t,
                ),
        decreases seq.len() - i,
    {
        assert(views(seq@)[i as int] == seq@[i as int]@);
        let r = eval(&seq[i], env, heap, host, fuel);
        if i + 1 == seq.len() {
            return r;
        }
        match r {
            Ok(_) => {},
            Err(e) => {
                return Err(e);
            },
        }
        i += 1;
    }
}

fn eval_vector<H: Host>(
    seq: &Vec<LispValue>,
    env: Env,
    heap: &mut Heap,
    host: &mut H,
    fuel: usize,
) -> (r: EvaluationResult)
    ensures
        forall|t: Transcript| #[trigger]
            begins(final(heap)@.log, t) ==> begins(old(heap)@.log, t) && agrees(
                eval_vector_spec(views(seq@), env, old(heap)@, fuel as nat, t),
                r,
                final(heap)@,
            ),
    decreases fuel, 2nat, 0nat,
{
    match eval_seq(seq, env, heap, host, fuel) {
        Ok(seq) => Ok(new_vector(seq, None)),
        Err(e) => Err(e),
    }
}

fn eval_map<H: Host>(
    map: &Assoc,
    env: Env,
    heap: &mut Heap,
    host: &mut H,
    fuel: usize,
) -> (r: EvaluationResult)
    ensures
        forall|t: Transcript| #[trigger]
            begins(final(heap)@.log, t) ==> begins(old(heap)@.log, t) && agrees(
                eval_entries_spec(map@, env, old(heap)@, fuel as nat, 0, Seq::empty(), t),
                r,
                final(heap)@,
            ),
    decreases fuel, 1nat, 0nat,
{
    let mut out: Vec<(MapKey, LispValue)> = Vec::new();
    assert(entry_views(out@) =~= Seq::<(Key, Value)>::empty());
    let mut i: usize = 0;
    while i < map.bindings.len()
        invariant
            i <= map.bindings.len(),
            map@.len() == map.bindings@.len(),
            forall|t: Transcript| #[trigger]
                begins(heap@.log, t) ==> begins(old(heap)@.log, t) && eval_entries_spec(
                    map@,
                    env,
                    old(heap)@,
                    fuel as nat,
                    0,
                    Seq::empty(),
                    t,
                ) == eval_entries_spec(
                    map@,
                    env,
                    heap@,
                    fuel as nat,
                    i as nat,
                    entry_views(out@),
                    t,
                ),
        decreases map.bindings.len() - i,
    {
        assert(map@[i as int] == (map.bindings@[i as int].0@, map.bindings@[i as int].1@));
        match eval(&map.bindings[i].1, env, heap, host, fuel) {
            Ok(v) => {
                let ghost before = out@;
                out.push((map.bindings[i].0.copy(), v));
                assert(entry_views(out@) =~= entry_views(before).push((map@[i as int].0, v@)));
            },
            Err(e) => {
                return Err(e);
            },
        }
        i += 1;
    }
    Ok(new_map(Assoc { bindings: out }, None))
}

fn eval_if<H: Host>(
    seq: &Vec<LispValue>,
    env: Env,
    heap: &mut Heap,
    host: &mut H,
    fuel: usize,
) -> (r: EvaluationResult)
    ensures
        forall|t: Transcript| #[trigger]
            begins(final(heap)@.log, t) ==> begins(old(heap)@.log, t) && agrees(
                eval_if_spec(views(seq@), env, old(heap)@, fuel as nat, t),
                r,
                final(heap)@,
            ),
    decreases fuel, 2nat, 0nat,
{
    let predicate = match arg(seq, 0) {
        Some(p) => p,
        None => {
            return Err(error_message("wrong arity"));
        },
    };
    let consequent = match arg(seq, 1) {
        Some(c) => c,
        None => {
            return Err(error_message("wrong arity"));
        },
    };
    let alternative = arg(seq, 2);
    match eval(predicate, env, heap, host, fuel) {
        Ok(p) => {
            let falsy = match &*p {
                LispType::Nil => true,
                LispType::Boolean(b) => !*b,
                _ => false,
            };
            assert(falsy == p@.is_falsy());
            if falsy {
                match alternative {
                    Some(a) => eval(a, env, heap, host, fuel),
                    None => Ok(new_nil()),
                }
            } else {
                eval(consequent, env, heap, host, fuel)
            }
        },
        Err(e) => Err(e),
    }
}

fn eval_define<H: Host>(
    seq: &Vec<LispValue>,
    env: Env,
    heap: &mut Heap,
    host: &mut H,
    fuel: usize,
) -> (r: EvaluationResult)
    ensures
        forall|t: Transcript| #[trigger]
            begins(final(heap)@.log, t) ==> begins(old(heap)@.log, t) && agrees(
                eval_define_spec(views(seq@), env, old(heap)@, fuel as nat, t),
                r,
                final(heap)@,
            ),
    decreases fuel, 2nat, 0nat,
{
    let target = match arg(seq, 0) {
        Some(t) => t,
        None => {
            return Err(error_message("wrong arity"));
        },
    };
    let val = match arg(seq, 1) {
        Some(v) => v,
        None => {
            return Err(error_message("wrong arity"));
        },
    };
    let name = match symbol_text(target) {
        Some(s) => s,
        None => {
            return Err(EvaluationError::BadArguments(share(target)));
        },
    };
    match eval(val, env, heap, host, fuel) {
        Ok(val) => {
            heap.set(env, name.clone(), share(&val));
            Ok(val)
        },
        Err(e) => Err(e),
    }
}

fn eval_let<H: Host>(
    seq: &Vec<LispValue>,
    env: Env,
    heap: &mut Heap,
    host: &mut H,
    fuel: usize,
) -> (r: EvaluationResult)
    ensures
        forall|t: Transcript| #[trigger]
            begins(final(heap)@.log, t) ==> begins(old(heap)@.log, t) && agrees(
                eval_let_spec(views(seq@), env, old(heap)@, fuel as nat, t),
                r,
                final(heap)@,
            ),
    decreases fuel, 2nat, 0nat,
{
    let bindings = match arg(seq, 0) {
        Some(b) => b,
        None => {
            return Err(error_message("wrong arity"));
        },
    };
    match items_of(bindings) {
        Some(pairs) => {
            let inner = empty_from(&mut heap.envs, env);
            match build_let_env(pairs, inner, heap, host, fuel) {
                Ok(_) => {
                    let body = share_from(seq, 1);
                    proof {
                        views_subrange(seq@, 1, seq@.len() as int);
                    }
                    eval_sequence(&body, inner, heap, host, fuel)
                },
                Err(e) => Err(e),
            }
        },
        None => Err(error_message("wrong type!")),
    }
}

fn build_let_env<H: Host>(
    bindings: &Vec<LispValue>,
    env: Env,
    heap: &mut Heap,
    host: &mut H,
    fuel: usize,
) -> (r: EvaluationResult)
    ensures
        forall|t: Transcript| #[trigger]
            begins(final(heap)@.log, t) ==> begins(old(heap)@.log, t) && agrees(
                build_let_env_spec(views(bindings@), env, old(heap)@, fuel as nat, 0, t),
                r,
                final(heap)@,
            ),
    decreases fuel, 1nat, 0nat,
{
    let n = bindings.len();
    assert(views(bindings@).len() == n);
    let mut i: usize = 0;
    while i + 1 < n && 2 * i + 1 < n
        invariant
            n == bindings.len(),
            views(bindings@).len() == n,
            2 * i <= n,
            forall|t: Transcript| #[trigger]
                begins(heap@.log, t) ==> begins(old(heap)@.log, t) && build_let_env_spec(
                    views(bindings@),
                    env,
                    old(heap)@,
                    fuel as nat,
                    0,
                    t,
                ) == build_let_env_spec(
                    views(bindings@),
                    env,
                    heap@,
                    fuel as nat,
                    i as nat,
                    t,
                ),
        decreases n - 2 * i,
    {
        assert(views(bindings@)[2 * i] == bindings@[2 * i]@);
        assert(views(bindings@)[2 * i + 1] == bindings@[2 * i + 1]@);
        let key = match symbol_text(&bindings[2 * i]) {
            Some(s) => s,
            None => {
                return Err(EvaluationError::BadArguments(share(&bindings[2 * i])));
            },
        };
        match eval(&bindings[2 * i + 1], env, heap, host, fuel) {
            Ok(val) => {
                heap.set(env, key.clone(), val);
            },
            Err(e) => {
                return Err(e);
            },
        }
        i += 1;
    }
    Ok(new_nil())
}

fn eval_lambda(seq: &Vec<LispValue>, env: Env) -> (r: EvaluationResult)
    ensures
        result_view(r) == eval_lambda_spec(views(seq@), env),
{
    let first = match arg(seq, 0) {
        Some(p) => p,
        None => {
            return Err(error_message("wrong arity"));
        },
    };
    if seq.len() < 2 {
        return Err(error_message("wrong arity"));
    }
    match items_of(first) {
        Some(params) => {
            let body = share_from(seq, 1);
            proof {
                views_subrange(seq@, 1, seq@.len() as int);
            }
            Ok(new_lambda(share_all(params), body, env, None))
        },
        None => Err(EvaluationError::BadArguments(share(first))),
    }
}

fn eval_eval<H: Host>(
    seq: &Vec<LispValue>,
    env: Env,
    heap: &mut Heap,
    host: &mut H,
    fuel: usize,
) -> (r: EvaluationResult)
    ensures
        forall|t: Transcript| #[trigger]
            begins(final(heap)@.log, t) ==> begins(old(heap)@.log, t) && agrees(
                eval_eval_spec(views(seq@), env, old(heap)@, fuel as nat, t),
                r,
                final(heap)@,
            ),
    decreases fuel, 2nat, 0nat,
{
    match eval_seq(seq, env, heap, host, fuel) {
        Ok(seq) => {
            let root_env = root(&heap.envs, env);
            match arg(&seq, 0) {
                Some(first) => eval(first, root_env, heap, host, fuel),
                None => Err(error_message("wrong arity")),
            }
        },
        Err(e) => Err(e),
    }
}

fn eval_quote(seq: &Vec<LispValue>) -> (r: EvaluationResult)
    ensures
        result_view(r) == eval_quote_spec(views(seq@)),
{
    match arg(seq, 0) {
        Some(quoted) => Ok(share(quoted)),
        None => Err(error_message("wrong arity")),
    }
}

fn eval_quasiquote<H: Host>(
    seq: &Vec<LispValue>,
    env: Env,
    heap: &mut Heap,
    host: &mut H,
    fuel: usize,
) -> (r: EvaluationResult)
    ensures
        forall|t: Transcript| #[trigger]
            begins(final(heap)@.log, t) ==> begins(old(heap)@.log, t) && agrees(
                eval_quasiquote_spec(views(seq@), env, old(heap)@, fuel as nat, t),
                r,
                final(heap)@,
            ),
    decreases fuel, 2nat, 0nat,
{
    match arg(seq, 0) {
        Some(a) => match eval_quasiquote_for(a) {
            Ok(val) => eval(&val, env, heap, host, fuel),
            Err(e) => Err(e),
        },
        None => Err(error_message("wrong arity")),
    }
}

fn list1(name: &str, a: LispValue) -> (r: LispValue)
    ensures
        r@ == form1(name@, a@),
{
    let mut result: Vec<LispValue> = Vec::new();
    result.push(new_symbol(name, None));
    result.push(a);
    assert(views(result@) =~= seq![Value::symbol(name@), a@]);
    new_list(result, None)
}

fn list2(name: &str, a: LispValue, b: LispValue) -> (r: LispValue)
    ensures
        r@ == form2(name@, a@, b@),
{
    let mut result: Vec<LispValue> = Vec::new();
    result.push(new_symbol(name, None));
    result.push(a);
    result.push(b);
    assert(views(result@) =~= seq![Value::symbol(name@), a@, b@]);
    new_list(result, None)
}

/// The code that builds what the quasiquoted form `arg` stands for.
pub fn eval_quasiquote_for(arg: &LispValue) -> (r: EvaluationResult)
    ensures
        result_view(r) == quasiquote(arg@),
    decreases **arg, 0nat,
{
    match &**arg {
        LispType::List(seq, _) => {
            assert(views(seq@).len() == seq@.len());
            if seq.len() > 0 {
                quasiquote_items(seq, 0)
            } else {
                Ok(list1("quote", share(arg)))
            }
        },
        LispType::Vector(seq, _) => {
            assert(views(seq@).len() == seq@.len());
            if seq.len() > 0 {
                quasiquote_items(seq, 0)
            } else {
                Ok(list1("quote", share(arg)))
            }
        },
        _ => Ok(list1("quote", share(arg))),
    }
}

/// The second item of a list or vector that begins with `splice-unquote`.
fn spliced(v: &LispValue) -> (r: Option<Option<LispValue>>)
    ensures
        match r {
            None => !starts_with_symbol(v@, "splice-unquote"@),
            Some(None) => starts_with_symbol(v@, "splice-unquote"@) && v@.items().len() < 2,
            Some(Some(y)) => starts_with_symbol(v@, "splice-unquote"@) && v@.items().len() >= 2
                && y@ == v@.items()[1],
        },
{
    match items_of(v) {
        Some(items) => {
            assert(views(items@).len() == items@.len());
            if items.len() > 0 {
                assert(views(items@)[0] == items@[0]@);
                if is_symbol_named(&items[0], "splice-unquote") {
                    if items.len() >= 2 {
                        assert(views(items@)[1] == items@[1]@);
                        Some(Some(share(&items[1])))
                    } else {
                        Some(None)
                    }
                } else {
                    None
                }
            } else {
                None
            }
        },
        None => None,
    }
}

fn quasiquote_items(xs: &Vec<LispValue>, i: usize) -> (r: EvaluationResult)
    ensures
        result_view(r) == quasiquote_from(views(xs@), i as nat),
    decreases xs@, xs.len() - i,
{
    assert(views(xs@).len() == xs@.len());
    if i >= xs.len() {
        let empty: Vec<LispValue> = Vec::new();
        assert(views(empty@) =~= Seq::<Value>::empty());
        return Ok(list1("quote", new_list(empty, None)));
    }
    let first = &xs[i];
    assert(views(xs@)[i as int] == first@);
    if is_symbol_named(first, "unquote") {
        if i + 1 < xs.len() {
            assert(views(xs@)[i + 1] == xs@[i + 1]@);
            return Ok(share(&xs[i + 1]));
        } else {
            proof {
                views_subrange(xs@, i as int, xs@.len() as int);
            }
            return Err(EvaluationError::WrongArity(new_list(share_from(xs, i), None)));
        }
    }
    match spliced(first) {
        Some(Some(second)) => match quasiquote_items(xs, i + 1) {
            Ok(rest) => Ok(list2("concat", second, rest)),
            Err(e) => Err(e),
        },
        Some(None) => {
            proof {
                views_subrange(xs@, i as int, xs@.len() as int);
            }
            Err(EvaluationError::BadArguments(new_list(share_from(xs, i), None)))
        },
        None => match eval_quasiquote_for(first) {
            Ok(head) => match quasiquote_items(xs, i + 1) {
                Ok(rest) => Ok(list2("cons", head, rest)),
                Err(e) => Err(e),
            },
            Err(e) => Err(e),
        },
    }
}

/// The macro with the parameters, body and frame of the lambda `f`.
fn macro_from(f: &LispValue) -> (r: Option<LispValue>)
    ensures
        match r {
            Some(m) => f@ is Lambda && m@ == as_macro(f@),
            None => !(f@ is Lambda),
        },
{
    match &**f {
        LispType::Lambda { params, body, env, .. } => Some(
            new_macro(share_all(params), share_all(body), *env, None),
        ),
        _ => None,
    }
}

fn eval_macro<H: Host>(
    seq: &Vec<LispValue>,
    env: Env,
    heap: &mut Heap,
    host: &mut H,
    fuel: usize,
) -> (r: EvaluationResult)
    ensures
        forall|t: Transcript| #[trigger]
            begins(final(heap)@.log, t) ==> begins(old(heap)@.log, t) && agrees(
                eval_macro_spec(views(seq@), env, old(heap)@, fuel as nat, t),
                r,
                final(heap)@,
            ),
    decreases fuel, 2nat, 0nat,
{
    let target = match arg(seq, 0) {
        Some(t) => t,
        None => {
            return Err(error_message("not enough arguments in call to defmacro!"));
        },
    };
    let body = match arg(seq, 1) {
        Some(b) => b,
        None => {
            return Err(error_message("not enough arguments in call to defmacro!"));
        },
    };
    let name = match symbol_text(target) {
        Some(s) => s,
        None => {
            return Err(EvaluationError::BadArguments(share(target)));
        },
    };
    match eval(body, env, heap, host, fuel) {
        Ok(f) => match macro_from(&f) {
            Some(new_f) => {
                heap.set(env, name.clone(), share(&new_f));
                Ok(new_f)
            },
            None => Err(error_message("Could not eval macro")),
        },
        Err(e) => Err(e),
    }
}

/// The macro that the form `val` calls, if it calls one.
pub fn macro_called(val: &LispValue, env: Env, heap: &Heap) -> (r: Option<LispValue>)
    ensures
        match r {
            Some(m) => macro_of(val@, env, heap@) == Some(m@),
            None => macro_of(val@, env, heap@) is None,
        },
{
    match &**val {
        LispType::List(seq, _) => {
            assert(views(seq@).len() == seq@.len());
            if seq.len() == 0 {
                return None;
            }
            assert(views(seq@)[0] == seq@[0]@);
            match symbol_text(&seq[0]) {
                Some(s) => match heap.envs.get(env, s.as_str()) {
                    Ok(val) => match &*val {
                        LispType::Macro { .. } => Some(share(&val)),
                        _ => None,
                    },
                    Err(_) => None,
                },
                None => None,
            }
        },
        _ => None,
    }
}

/// Whether the form `val` is a call of a macro.
pub fn is_macro_call(val: &LispValue, env: Env, heap: &Heap) -> (r: bool)
    ensures
        r == is_macro_call_spec(val@, env, heap@),
{
    macro_called(val, env, heap).is_some()
}

/// Expands `val` for as long as it is a call of a macro.
pub fn macroexpand<H: Host>(
    val: LispValue,
    env: Env,
    heap: &mut Heap,
    host: &mut H,
    fuel: usize,
) -> (r: EvaluationResult)
    ensures
        forall|t: Transcript| #[trigger]
            begins(final(heap)@.log, t) ==> begins(old(heap)@.log, t) && agrees(
                macroexpand_spec(val@, env, old(heap)@, fuel as nat, t),
                r,
                final(heap)@,
            ),
        r is Ok ==> !is_macro_call_spec(r->Ok_0@, env, final(heap)@),
    decreases fuel, 6nat, 0nat,
{
    match macro_called(&val, env, heap) {
        None => Ok(val),
        Some(m) => {
            if fuel == 0 {
                return Err(too_deep_error());
            }
            match &*m {
                LispType::Macro { params, body, env: menv, .. } => {
                    let args = match items_of(&val) {
                        Some(items) => {
                            assert(views(items@).len() == items@.len());
                            proof {
                                if items@.len() > 0 {
                                    views_subrange(items@, 1, items@.len() as int);
                                }
                            }
                            share_from(items, 1)
                        },
                        None => Vec::new(),
                    };
                    match apply_lambda(params, body, *menv, args, heap, host, fuel - 1) {
                        Ok(v1) => macroexpand(v1, env, heap, host, fuel - 1),
                        Err(e) => Err(e),
                    }
                },
                _ => Ok(val),
            }
        },
    }
}

fn eval_macroexpand<H: Host>(
    seq: &Vec<LispValue>,
    env: Env,
    heap: &mut Heap,
    host: &mut H,
    fuel: usize,
) -> (r: EvaluationResult)
    ensures
        forall|t: Transcript| #[trigger]
            begins(final(heap)@.log, t) ==> begins(old(heap)@.log, t) && agrees(
                eval_macroexpand_spec(views(seq@), env, old(heap)@, fuel as nat, t),
                r,
                final(heap)@,
            ),
    decreases fuel, 7nat, 0nat,
{
    match arg(seq, 0) {
        Some(val) => macroexpand(share(val), env, heap, host, fuel),
        None => Err(error_message("not enough args in call to macroexpand")),
    }
}

/// The value that a handler receives for an error.
pub fn exception_of(e: EvaluationError) -> (r: LispValue)
    ensures
        r@ == exception_value(e@),
{
    match e {
        EvaluationError::WrongArity(_) => new_string("wrong arity"),
        EvaluationError::BadArguments(_) => new_string("bad arguments to fn"),
        EvaluationError::MissingSymbol(sym) => {
            let mut text = String::new();
            text.push('\'');
            text.append(sym.as_str());
            text.append("' not found");
            assert(text@ =~= seq!['\''] + sym@ + "' not found"@);
            new_string(text.as_str())
        },
        EvaluationError::Message(msg) => new_string(msg.as_str()),
        EvaluationError::Exception(exn) => exn,
    }
}

fn eval_try<H: Host>(
    seq: &Vec<LispValue>,
    env: Env,
    heap: &mut Heap,
    host: &mut H,
    fuel: usize,
) -> (r: EvaluationResult)
    ensures
        forall|t: Transcript| #[trigger]
            begins(final(heap)@.log, t) ==> begins(old(heap)@.log, t) && agrees(
                eval_try_spec(views(seq@), env, old(heap)@, fuel as nat, t),
                r,
                final(heap)@,
            ),
    decreases fuel, 6nat, 0nat,
{
    let body = match arg(seq, 0) {
        Some(b) => b,
        None => {
            return Err(error_message("wrong arity"));
        },
    };
    let handler = match arg(seq, 1) {
        Some(h) => h,
        None => {
            return Err(error_message("wrong arity"));
        },
    };
    match eval(body, env, heap, host, fuel) {
        Ok(val) => Ok(val),
        Err(e) => match eval_catch(handler) {
            Ok((param, body)) => eval_exception(param, body, exception_of(e), env, heap, host, fuel),
            Err(e2) => Err(e2),
        },
    }
}

/// The parameter and the body of a handler `(catch* name body)`.
fn eval_catch(handler: &LispValue) -> (r: Result<(LispValue, LispValue), EvaluationError>)
    ensures
        match r {
            Ok((p, b)) => eval_catch_spec(handler@) == Ok::<(Value, Value), Failure>((p@, b@)),
            Err(e) => eval_catch_spec(handler@) == Err::<(Value, Value), Failure>(e@),
        },
{
    match &**handler {
        LispType::List(seq, _) => {
            assert(views(seq@).len() == seq@.len());
            if seq.len() >= 3 {
                assert(views(seq@)[0] == seq@[0]@);
                assert(views(seq@)[1] == seq@[1]@);
                assert(views(seq@)[2] == seq@[2]@);
                if is_symbol_named(&seq[0], "catch*") {
                    Ok((share(&seq[1]), share(&seq[2])))
                } else {
                    Err(error_message("no catch handler supplied -- missing catch* ?"))
                }
            } else {
                Err(error_message("wrong arity to catch handler"))
            }
        },
        _ => Err(error_message("wrong arity to catch handler")),
    }
}

fn eval_exception<H: Host>(
    param: LispValue,
    body: LispValue,
    exception: LispValue,
    env: Env,
    heap: &mut Heap,
    host: &mut H,
    fuel: usize,
) -> (r: EvaluationResult)
    ensures
        forall|t: Transcript| #[trigger]
            begins(final(heap)@.log, t) ==> begins(old(heap)@.log, t) && agrees(
                eval_exception_spec(param@, body@, exception@, env, old(heap)@, fuel as nat, t),
                r,
                final(heap)@,
            ),
    decreases fuel, 3nat, 0nat,
{
    let mut params: Vec<LispValue> = Vec::new();
    params.push(param);
    let mut bodies: Vec<LispValue> = Vec::new();
    bodies.push(body);
    let mut args: Vec<LispValue> = Vec::new();
    args.push(exception);
    assert(views(params@) =~= seq![param@]);
    assert(views(bodies@) =~= seq![body@]);
    assert(views(args@) =~= seq![exception@]);
    apply_lambda(&params, &bodies, env, args, heap, host, fuel)
}

} // verus!
