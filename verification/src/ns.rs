//! Namespaces: the bindings of one frame, and the builtins of the core.

use crate::error::{error_message, EvaluationError, ReaderError};
use crate::heap::{text_view, Heap};
use crate::model::{begins, Event, Failure, HostFn, Transcript, Value};
use crate::printer::pr_str;
use crate::reader::{read, reader_result_view};
use crate::eval::{agrees, call_value, too_deep_error};
use crate::host::Host;
use crate::semantics::{
    arith, arith_call, arith_fold, bind_fixed, bind_params, char_strings, concat_from, dissoc_from,
    flatten_last_spec, is_callable, is_predicate, order_call, params_are_symbols, predicate,
    pure_call, read_string_result, rest_marker, reversed, string_of_spec, symbol_name,
    host_call_spec, map_items_spec, millis_spec, readline_spec, slurp_spec,
};
use crate::text::owned;
use crate::types::{
    equal, key_of, lisp_view, new_boolean, new_fn, new_keyword, new_lambda, new_list, new_macro,
    new_map, new_map_from_seq, new_nil, new_number, new_string, new_symbol, new_vector,
    result_view, share, share_all, share_from, views, views_add, views_push, views_subrange, Assoc,
    EvaluationResult, LispType, LispValue,
};
use vstd::hash_map::StringHashMap;
use vstd::prelude::*;
use vstd::string::StringExecFns;

verus! {

/// The bindings of one environment frame.
pub type Ns = StringHashMap<LispValue>;

/// The model of a frame's bindings.
pub open spec fn ns_view(m: Map<Seq<char>, LispValue>) -> Map<Seq<char>, Value> {
    Map::new(|k: Seq<char>| m.contains_key(k), |k: Seq<char>| lisp_view(*m[k]))
}

/// Binding a key commutes with taking the model.
pub proof fn ns_view_insert(m: Map<Seq<char>, LispValue>, k: Seq<char>, v: LispValue)
    ensures
        ns_view(m.insert(k, v)) == ns_view(m).insert(k, v@),
{
    assert(ns_view(m.insert(k, v)) =~= ns_view(m).insert(k, v@));
}

/// The model of the bindings that the first `n` pairs give, later pairs over earlier ones.
pub open spec fn bindings_upto(bs: Seq<(String, LispValue)>, n: nat) -> Map<Seq<char>, Value>
    decreases n,
{
    if n == 0 || n > bs.len() {
        Map::empty()
    } else {
        bindings_upto(bs, (n - 1) as nat).insert(bs[n - 1].0@, bs[n - 1].1@)
    }
}

/// A namespace with the given bindings; where a name comes twice, the later one stays.
pub fn new(bindings: Vec<(String, LispValue)>) -> (ns: Ns)
    ensures
        ns_view(ns@) == bindings_upto(bindings@, bindings@.len()),
{
    let mut ns = Ns::new();
    proof {
        assert(ns_view(ns@) =~= bindings_upto(bindings@, 0));
    }
    let mut i: usize = 0;
    let n = bindings.len();
    while i < n
        invariant
            i <= n,
            n == bindings.len(),
            ns_view(ns@) == bindings_upto(bindings@, i as nat),
        decreases n - i,
    {
        let k = bindings[i].0.clone();
        let v = crate::types::share(&bindings[i].1);
        proof {
            ns_view_insert(ns@, k@, v);
        }
        ns.insert(k, v);
        i += 1;
    }
    ns
}


/// The argument at `i`, if there are that many.
pub fn arg(args: &Vec<LispValue>, i: usize) -> (r: Option<&LispValue>)
    ensures
        views(args@).len() == args@.len(),
        match r {
            Some(v) => i < args.len() && v@ == views(args@)[i as int] && *v == args@[i as int],
            None => i >= args.len(),
        },
{
    if i < args.len() {
        Some(&args[i])
    } else {
        None
    }
}

/// The items of a list or a vector.
pub fn items_of(v: &LispValue) -> (r: Option<&Vec<LispValue>>)
    ensures
        match r {
            Some(xs) => v@.is_sequential() && views(xs@) == v@.items(),
            None => !v@.is_sequential(),
        },
{
    match &**v {
        LispType::List(xs, _) => Some(xs),
        LispType::Vector(xs, _) => Some(xs),
        _ => None,
    }
}

/// The number that a value is.
pub fn number_of(v: &LispValue) -> (r: Option<i64>)
    ensures
        match r {
            Some(n) => v@ == Value::Number(n),
            None => !(v@ is Number),
        },
{
    match &**v {
        LispType::Number(n) => Some(*n),
        _ => None,
    }
}

/// The two numbers that two values are; the first that is none is a bad argument.
fn i64_from_ast(a: &LispValue, b: &LispValue) -> (r: Result<(i64, i64), EvaluationError>)
    ensures
        match r {
            Ok((x, y)) => a@ == Value::Number(x) && b@ == Value::Number(y),
            Err(e) => if a@ is Number {
                !(b@ is Number) && e@ == Failure::BadArguments(b@)
            } else {
                e@ == Failure::BadArguments(a@)
            },
        },
{
    match number_of(a) {
        Some(x) => match number_of(b) {
            Some(y) => Ok((x, y)),
            None => Err(EvaluationError::BadArguments(share(b))),
        },
        None => Err(EvaluationError::BadArguments(share(a))),
    }
}

fn arith_step(f: HostFn, a: i64, b: i64) -> (r: Result<i64, EvaluationError>)
    ensures
        match r {
            Ok(n) => arith(f, a, b) == Ok::<i64, Failure>(n),
            Err(e) => arith(f, a, b) == Err::<i64, Failure>(e@),
        },
{
    let r = match f {
        HostFn::Add => a.checked_add(b),
        HostFn::Sub => a.checked_sub(b),
        HostFn::Mul => a.checked_mul(b),
        _ => {
            if b == 0 {
                return Err(error_message("division by zero"));
            }
            a.checked_div(b)
        },
    };
    match r {
        Some(n) => Ok(n),
        None => Err(error_message("integer overflow")),
    }
}

/// Folds an arithmetic operation over at least two numbers, the first the seed.
fn fold_first(seq: &Vec<LispValue>, f: HostFn) -> (r: EvaluationResult)
    ensures
        result_view(r) == arith_call(f, views(seq@)),
{
    let first = match arg(seq, 0) {
        Some(v) => v,
        None => {
            return Err(error_message("not enough args to op"));
        },
    };
    if seq.len() < 2 {
        return Err(error_message("not enough args to op"));
    }
    let mut acc = match number_of(first) {
        Some(n) => n,
        None => {
            return Err(EvaluationError::BadArguments(share(first)));
        },
    };
    let mut i: usize = 1;
    while i < seq.len()
        invariant
            1 <= i <= seq.len(),
            views(seq@).len() == seq@.len(),
            arith_call(f, views(seq@)) == arith_fold(f, views(seq@), i as nat, acc),
        decreases seq.len() - i,
    {
        let v = &seq[i];
        assert(views(seq@)[i as int] == v@);
        match number_of(v) {
            Some(b) => match arith_step(f, acc, b) {
                Ok(n) => {
                    acc = n;
                },
                Err(e) => {
                    return Err(e);
                },
            },
            None => {
                return Err(EvaluationError::BadArguments(share(v)));
            },
        }
        i += 1;
    }
    Ok(new_number(acc))
}

fn add(seq: &Vec<LispValue>) -> (r: EvaluationResult)
    ensures
        result_view(r) == pure_call(HostFn::Add, views(seq@)),
{
    fold_first(seq, HostFn::Add)
}

fn sub(seq: &Vec<LispValue>) -> (r: EvaluationResult)
    ensures
        result_view(r) == pure_call(HostFn::Sub, views(seq@)),
{
    fold_first(seq, HostFn::Sub)
}

fn mul(seq: &Vec<LispValue>) -> (r: EvaluationResult)
    ensures
        result_view(r) == pure_call(HostFn::Mul, views(seq@)),
{
    fold_first(seq, HostFn::Mul)
}

fn div(seq: &Vec<LispValue>) -> (r: EvaluationResult)
    ensures
        result_view(r) == pure_call(HostFn::Div, views(seq@)),
{
    fold_first(seq, HostFn::Div)
}

/// The texts of the arguments with `separator` between neighbours.
pub fn string_of(
    args: &Vec<LispValue>,
    readably: bool,
    separator: &str,
    heap: &Heap,
) -> (r: String)
    ensures
        r@ == string_of_spec(heap@.atoms, views(args@), readably, separator@, args@.len()),
{
    let mut out = String::new();
    let mut i: usize = 0;
    proof {
        assert(out@ =~= string_of_spec(heap@.atoms, views(args@), readably, separator@, 0));
    }
    while i < args.len()
        invariant
            i <= args.len(),
            views(args@).len() == args@.len(),
            out@ == string_of_spec(heap@.atoms, views(args@), readably, separator@, i as nat),
        decreases args.len() - i,
    {
        if i > 0 {
            out.append(separator);
        }
        assert(views(args@)[i as int] == args@[i as int]@);
        let text = pr_str(&args[i], readably, heap);
        out.append(text.as_str());
        assert(out@ =~= string_of_spec(
            heap@.atoms,
            views(args@),
            readably,
            separator@,
            (i + 1) as nat,
        ));
        i += 1;
    }
    out
}

fn to_list(args: &Vec<LispValue>) -> (r: EvaluationResult)
    ensures
        result_view(r) == pure_call(HostFn::List, views(args@)),
{
    Ok(new_list(share_all(args), None))
}

fn kind_test(f: HostFn, v: &LispValue) -> (r: bool)
    requires
        is_predicate(f),
    ensures
        r == predicate(f, v@),
{
    match f {
        HostFn::IsList => match &**v {
            LispType::List(_, _) => true,
            _ => false,
        },
        HostFn::IsNil => match &**v {
            LispType::Nil => true,
            _ => false,
        },
        HostFn::IsTrue => match &**v {
            LispType::Boolean(b) => *b,
            _ => false,
        },
        HostFn::IsFalse => match &**v {
            LispType::Boolean(b) => !*b,
            _ => false,
        },
        HostFn::IsSymbol => match &**v {
            LispType::Symbol(_, _) => true,
            _ => false,
        },
        HostFn::IsAtom => match &**v {
            LispType::Atom(_) => true,
            _ => false,
        },
        HostFn::IsKeyword => match &**v {
            LispType::Keyword(_) => true,
            _ => false,
        },
        HostFn::IsVector => match &**v {
            LispType::Vector(_, _) => true,
            _ => false,
        },
        HostFn::IsSequential => match &**v {
            LispType::List(_, _) => true,
            LispType::Vector(_, _) => true,
            _ => false,
        },
        HostFn::IsMap => match &**v {
            LispType::Dict(_, _) => true,
            _ => false,
        },
        HostFn::IsString => match &**v {
            LispType::String(_) => true,
            _ => false,
        },
        _ => match &**v {
            LispType::Lambda { .. } => true,
            LispType::Fn(_, _) => true,
            _ => false,
        },
    }
}

fn predicate_call(f: HostFn, args: &Vec<LispValue>) -> (r: EvaluationResult)
    requires
        is_predicate(f),
    ensures
        result_view(r) == pure_call(f, views(args@)),
{
    match arg(args, 0) {
        Some(v) => Ok(new_boolean(kind_test(f, v))),
        None => match f {
            HostFn::IsList => Err(error_message("could not determine if seq is list")),
            HostFn::IsString => Err(error_message("wrong arity to string?")),
            _ => Err(error_message("wrong arity")),
        },
    }
}

fn is_list(args: &Vec<LispValue>) -> (r: EvaluationResult)
    ensures
        result_view(r) == pure_call(HostFn::IsList, views(args@)),
{
    predicate_call(HostFn::IsList, args)
}

fn is_nil(args: &Vec<LispValue>) -> (r: EvaluationResult)
    ensures
        result_view(r) == pure_call(HostFn::IsNil, views(args@)),
{
    predicate_call(HostFn::IsNil, args)
}

fn is_true(args: &Vec<LispValue>) -> (r: EvaluationResult)
    ensures
        result_view(r) == pure_call(HostFn::IsTrue, views(args@)),
{
    predicate_call(HostFn::IsTrue, args)
}

fn is_false(args: &Vec<LispValue>) -> (r: EvaluationResult)
    ensures
        result_view(r) == pure_call(HostFn::IsFalse, views(args@)),
{
    predicate_call(HostFn::IsFalse, args)
}

fn is_symbol(args: &Vec<LispValue>) -> (r: EvaluationResult)
    ensures
        result_view(r) == pure_call(HostFn::IsSymbol, views(args@)),
{
    predicate_call(HostFn::IsSymbol, args)
}

fn is_atom(args: &Vec<LispValue>) -> (r: EvaluationResult)
    ensures
        result_view(r) == pure_call(HostFn::IsAtom, views(args@)),
{
    predicate_call(HostFn::IsAtom, args)
}

fn is_keyword(args: &Vec<LispValue>) -> (r: EvaluationResult)
    ensures
        result_view(r) == pure_call(HostFn::IsKeyword, views(args@)),
{
    predicate_call(HostFn::IsKeyword, args)
}

fn is_vector(args: &Vec<LispValue>) -> (r: EvaluationResult)
    ensures
        result_view(r) == pure_call(HostFn::IsVector, views(args@)),
{
    predicate_call(HostFn::IsVector, args)
}

fn is_seq(args: &Vec<LispValue>) -> (r: EvaluationResult)
    ensures
        result_view(r) == pure_call(HostFn::IsSequential, views(args@)),
{
    predicate_call(HostFn::IsSequential, args)
}

fn is_map(args: &Vec<LispValue>) -> (r: EvaluationResult)
    ensures
        result_view(r) == pure_call(HostFn::IsMap, views(args@)),
{
    predicate_call(HostFn::IsMap, args)
}

fn is_string(args: &Vec<LispValue>) -> (r: EvaluationResult)
    ensures
        result_view(r) == pure_call(HostFn::IsString, views(args@)),
{
    predicate_call(HostFn::IsString, args)
}

fn is_fn(args: &Vec<LispValue>) -> (r: EvaluationResult)
    ensures
        result_view(r) == pure_call(HostFn::IsFn, views(args@)),
{
    predicate_call(HostFn::IsFn, args)
}

fn is_empty(args: &Vec<LispValue>) -> (r: EvaluationResult)
    ensures
        result_view(r) == pure_call(HostFn::IsEmpty, views(args@)),
{
    match arg(args, 0) {
        Some(a) => match items_of(a) {
            Some(seq) => {
                assert(views(seq@).len() == seq@.len());
                Ok(new_boolean(seq.len() == 0))
            },
            None => Err(error_message("could not determine if seq is empty")),
        },
        None => Err(error_message("could not determine if seq is empty")),
    }
}

fn count_of(args: &Vec<LispValue>) -> (r: EvaluationResult)
    ensures
        result_view(r) == pure_call(HostFn::Count, views(args@)),
{
    match arg(args, 0) {
        Some(a) => match items_of(a) {
            Some(seq) => {
                assert(views(seq@).len() == seq@.len());
                if seq.len() as u64 <= 9223372036854775807u64 {
                    Ok(new_number(seq.len() as i64))
                } else {
                    Err(error_message("could not determine count of seq"))
                }
            },
            None => match &**a {
                LispType::Nil => Ok(new_number(0)),
                _ => Err(error_message("could not determine count of seq")),
            },
        },
        None => Err(error_message("could not determine count of seq")),
    }
}

fn is_equal(args: &Vec<LispValue>) -> (r: EvaluationResult)
    ensures
        result_view(r) == pure_call(HostFn::Equal, views(args@)),
{
    match arg(args, 0) {
        Some(first) => match arg(args, 1) {
            Some(second) => {
                if args.len() != 2 {
                    return Err(error_message("could not determine if args are equal"));
                }
                Ok(new_boolean(equal(first, second)))
            },
            None => Err(error_message("could not determine if args are equal")),
        },
        None => Err(error_message("could not determine if args are equal")),
    }
}

/// Compares the first two arguments, which are numbers, as `f` says.
fn args_are(args: &Vec<LispValue>, f: HostFn) -> (r: EvaluationResult)
    ensures
        result_view(r) == order_call(f, views(args@)),
{
    match arg(args, 0) {
        Some(first) => match arg(args, 1) {
            Some(second) => match i64_from_ast(first, second) {
                Ok((a, b)) => Ok(
                    new_boolean(
                        match f {
                            HostFn::Lt => a < b,
                            HostFn::Lte => a <= b,
                            HostFn::Gt => a > b,
                            _ => a >= b,
                        },
                    ),
                ),
                Err(e) => Err(e),
            },
            None => Err(error_message("could not determine if args are ordered")),
        },
        None => Err(error_message("could not determine if args are ordered")),
    }
}

fn lt(args: &Vec<LispValue>) -> (r: EvaluationResult)
    ensures
        result_view(r) == pure_call(HostFn::Lt, views(args@)),
{
    args_are(args, HostFn::Lt)
}

fn lte(args: &Vec<LispValue>) -> (r: EvaluationResult)
    ensures
        result_view(r) == pure_call(HostFn::Lte, views(args@)),
{
    args_are(args, HostFn::Lte)
}

fn gt(args: &Vec<LispValue>) -> (r: EvaluationResult)
    ensures
        result_view(r) == pure_call(HostFn::Gt, views(args@)),
{
    args_are(args, HostFn::Gt)
}

fn gte(args: &Vec<LispValue>) -> (r: EvaluationResult)
    ensures
        result_view(r) == pure_call(HostFn::Gte, views(args@)),
{
    args_are(args, HostFn::Gte)
}

/// What `read-string` makes of a reading's result.
pub fn read_string_outcome(r: Result<LispValue, ReaderError>) -> (out: EvaluationResult)
    ensures
        result_view(out) == read_string_result(reader_result_view(r)),
{
    match r {
        Ok(v) => Ok(v),
        Err(ReaderError::Message(s)) => Err(EvaluationError::Message(s)),
        Err(ReaderError::EmptyInput) => Err(error_message("input was empty")),
        Err(ReaderError::ExtraInput(_, _)) => Err(error_message("extra input after full form")),
    }
}

fn read_string(args: &Vec<LispValue>) -> (r: EvaluationResult)
    ensures
        result_view(r) == pure_call(HostFn::ReadString, views(args@)),
{
    match arg(args, 0) {
        None => Err(error_message("not enough arg in args")),
        Some(a) => match &**a {
            LispType::String(s) => read_string_outcome(read(s.clone())),
            _ => Err(error_message("wrong type of first argument")),
        },
    }
}

/// Appends a shared copy of every item of `more` to `out`.
pub fn append_shared(out: &mut Vec<LispValue>, more: &Vec<LispValue>)
    ensures
        final(out)@ == old(out)@ + more@,
{
    let mut i: usize = 0;
    while i < more.len()
        invariant
            i <= more.len(),
            out@ == old(out)@ + more@.subrange(0, i as int),
        decreases more.len() - i,
    {
        out.push(share(&more[i]));
        assert(out@ =~= old(out)@ + more@.subrange(0, i + 1));
        i += 1;
    }
    assert(more@.subrange(0, more.len() as int) =~= more@);
}

fn cons(args: &Vec<LispValue>) -> (r: EvaluationResult)
    ensures
        result_view(r) == pure_call(HostFn::Cons, views(args@)),
{
    match arg(args, 0) {
        Some(elem) => match arg(args, 1) {
            Some(list) => match items_of(list) {
                Some(seq) => {
                    let mut elems: Vec<LispValue> = Vec::new();
                    elems.push(share(elem));
                    append_shared(&mut elems, seq);
                    proof {
                        views_add(seq![*elem], seq@);
                        assert(views(seq![*elem]) =~= seq![elem@]);
                        assert(elems@ =~= seq![*elem] + seq@);
                    }
                    Ok(new_list(elems, None))
                },
                None => Err(error_message("call to cons failed")),
            },
            None => Err(error_message("call to cons failed")),
        },
        None => Err(error_message("call to cons failed")),
    }
}

fn concat(args: &Vec<LispValue>) -> (r: EvaluationResult)
    ensures
        result_view(r) == pure_call(HostFn::Concat, views(args@)),
{
    let mut result: Vec<LispValue> = Vec::new();
    let mut i: usize = 0;
    assert(views(result@) =~= Seq::<Value>::empty());
    while i < args.len()
        invariant
            i <= args.len(),
            views(args@).len() == args@.len(),
            concat_from(views(args@), 0, Seq::empty()) == concat_from(
                views(args@),
                i as nat,
                views(result@),
            ),
        decreases args.len() - i,
    {
        assert(views(args@)[i as int] == args@[i as int]@);
        match items_of(&args[i]) {
            Some(seq) => {
                proof {
                    views_add(result@, seq@);
                }
                append_shared(&mut result, seq);
            },
            None => {
                return Err(error_message("wrong arg type for concat"));
            },
        }
        i += 1;
    }
    Ok(new_list(result, None))
}

fn nth(args: &Vec<LispValue>) -> (r: EvaluationResult)
    ensures
        result_view(r) == pure_call(HostFn::Nth, views(args@)),
{
    match arg(args, 0) {
        Some(seq) => match arg(args, 1) {
            Some(idx) => match items_of(seq) {
                Some(items) => match number_of(idx) {
                    Some(n) => {
                        assert(views(items@).len() == items@.len());
                        if n >= 0 && (n as u64) < (items.len() as u64) {
                            let i = n as usize;
                            assert(views(items@)[i as int] == items@[i as int]@);
                            Ok(share(&items[i]))
                        } else {
                            Err(error_message("call to nth failed"))
                        }
                    },
                    None => Err(error_message("call to nth failed")),
                },
                None => Err(error_message("call to nth failed")),
            },
            None => Err(error_message("call to nth failed")),
        },
        None => Err(error_message("call to nth failed")),
    }
}

fn first(args: &Vec<LispValue>) -> (r: EvaluationResult)
    ensures
        result_view(r) == pure_call(HostFn::First, views(args@)),
{
    match arg(args, 0) {
        Some(seq) => match items_of(seq) {
            Some(items) => {
                assert(views(items@).len() == items@.len());
                if items.len() == 0 {
                    Ok(new_nil())
                } else {
                    assert(views(items@)[0] == items@[0]@);
                    Ok(share(&items[0]))
                }
            },
            None => match &**seq {
                LispType::Nil => Ok(new_nil()),
                _ => Err(error_message("call to first failed")),
            },
        },
        None => Err(error_message("call to first failed")),
    }
}

fn rest(args: &Vec<LispValue>) -> (r: EvaluationResult)
    ensures
        result_view(r) == pure_call(HostFn::Rest, views(args@)),
{
    match arg(args, 0) {
        Some(seq) => match items_of(seq) {
            Some(items) => {
                assert(views(items@).len() == items@.len());
                if items.len() == 0 {
                    let empty: Vec<LispValue> = Vec::new();
                    assert(views(empty@) =~= Seq::<Value>::empty());
                    Ok(new_list(empty, None))
                } else {
                    proof {
                        views_subrange(items@, 1, items@.len() as int);
                    }
                    Ok(new_list(share_from(items, 1), None))
                }
            },
            None => match &**seq {
                LispType::Nil => {
                    let empty: Vec<LispValue> = Vec::new();
                    assert(views(empty@) =~= Seq::<Value>::empty());
                    Ok(new_list(empty, None))
                },
                _ => Err(error_message("call to rest failed")),
            },
        },
        None => Err(error_message("call to rest failed")),
    }
}

fn throw(args: &Vec<LispValue>) -> (r: EvaluationResult)
    ensures
        result_view(r) == pure_call(HostFn::Throw, views(args@)),
{
    let val = match arg(args, 0) {
        Some(v) => share(v),
        None => new_nil(),
    };
    Err(EvaluationError::Exception(val))
}

fn to_symbol(args: &Vec<LispValue>) -> (r: EvaluationResult)
    ensures
        result_view(r) == pure_call(HostFn::Symbol, views(args@)),
{
    match arg(args, 0) {
        None => Err(error_message("wrong arity")),
        Some(s) => match &**s {
            LispType::String(s) => Ok(new_symbol(s.as_str(), None)),
            _ => Err(error_message("wrong type to symbol")),
        },
    }
}

fn to_keyword(args: &Vec<LispValue>) -> (r: EvaluationResult)
    ensures
        result_view(r) == pure_call(HostFn::Keyword, views(args@)),
{
    match arg(args, 0) {
        None => Err(error_message("wrong arity")),
        Some(k) => match &**k {
            LispType::String(s) => {
                let mut name = String::new();
                name.push(':');
                name.append(s.as_str());
                assert(name@ =~= seq![':'] + s@);
                Ok(new_keyword(name.as_str()))
            },
            LispType::Keyword(s) => Ok(new_keyword(s.as_str())),
            _ => Err(error_message("wrong type to keyword")),
        },
    }
}

fn to_vector(args: &Vec<LispValue>) -> (r: EvaluationResult)
    ensures
        result_view(r) == pure_call(HostFn::Vector, views(args@)),
{
    Ok(new_vector(share_all(args), None))
}

fn to_map(args: &Vec<LispValue>) -> (r: EvaluationResult)
    ensures
        result_view(r) == pure_call(HostFn::HashMap, views(args@)),
{
    new_map_from_seq(share_all(args))
}

/// The map that a value is.
pub fn assoc_of(v: &LispValue) -> (r: Option<&Assoc>)
    ensures
        match r {
            Some(a) => v@ matches Value::Dict(es, _) && es == a@,
            None => !(v@ is Dict),
        },
{
    match &**v {
        LispType::Dict(a, _) => Some(a),
        _ => None,
    }
}

fn assoc(args: &Vec<LispValue>) -> (r: EvaluationResult)
    ensures
        result_view(r) == pure_call(HostFn::Assoc, views(args@)),
{
    match arg(args, 0) {
        None => Err(error_message("wrong arity to assoc")),
        Some(map) => match assoc_of(map) {
            Some(map) => {
                let mut new = map.share();
                proof {
                    views_subrange(args@, 1, args@.len() as int);
                }
                let rest = match Assoc::from_seq(share_from(args, 1)) {
                    Ok(rest) => rest,
                    Err(e) => {
                        return Err(e);
                    },
                };
                let _ = new.merge(&rest);
                Ok(new_map(new, None))
            },
            None => Err(error_message("wrong type of arguments to assoc")),
        },
    }
}

fn dissoc(args: &Vec<LispValue>) -> (r: EvaluationResult)
    ensures
        result_view(r) == pure_call(HostFn::Dissoc, views(args@)),
{
    match arg(args, 0) {
        None => Err(error_message("wrong arity to dissoc")),
        Some(map) => match assoc_of(map) {
            Some(map) => {
                let mut new = map.share();
                let mut i: usize = 1;
                while i < args.len()
                    invariant
                        1 <= i <= args.len(),
                        views(args@).len() == args@.len(),
                        pure_call(HostFn::Dissoc, views(args@)) == dissoc_from(
                            new@,
                            views(args@),
                            i as nat,
                        ),
                    decreases args.len() - i,
                {
                    assert(views(args@)[i as int] == args@[i as int]@);
                    match key_of(&args[i]) {
                        Some(k) => {
                            new.remove(&k);
                        },
                        None => {
                            return Err(error_message("wrong type of arguments to dissoc"));
                        },
                    }
                    i += 1;
                }
                Ok(new_map(new, None))
            },
            None => Err(error_message("wrong type of arguments to dissoc")),
        },
    }
}

fn get(args: &Vec<LispValue>) -> (r: EvaluationResult)
    ensures
        result_view(r) == pure_call(HostFn::Get, views(args@)),
{
    match arg(args, 0) {
        None => Err(error_message("wrong arity to get")),
        Some(map) => match arg(args, 1) {
            None => Err(error_message("wrong arity to get")),
            Some(key) => match &**map {
                LispType::Dict(map, _) => match map.get(key) {
                    Ok(v) => Ok(v),
                    Err(_) => Ok(new_nil()),
                },
                LispType::Nil => Ok(new_nil()),
                _ => Err(error_message("wrong type of arguments to get")),
            },
        },
    }
}

fn contains(args: &Vec<LispValue>) -> (r: EvaluationResult)
    ensures
        result_view(r) == pure_call(HostFn::Contains, views(args@)),
{
    match arg(args, 0) {
        None => Err(error_message("wrong arity to contains?")),
        Some(map) => match arg(args, 1) {
            None => Err(error_message("wrong arity to contains?")),
            Some(key) => match assoc_of(map) {
                Some(map) => map.contains(key),
                None => Err(error_message("wrong type of arguments to contains?")),
            },
        },
    }
}

fn keys(args: &Vec<LispValue>) -> (r: EvaluationResult)
    ensures
        result_view(r) == pure_call(HostFn::Keys, views(args@)),
{
    match arg(args, 0) {
        None => Err(error_message("wrong arity to keys")),
        Some(map) => match assoc_of(map) {
            Some(map) => map.keys(),
            None => Err(error_message("wrong type of arguments to keys")),
        },
    }
}

fn vals(args: &Vec<LispValue>) -> (r: EvaluationResult)
    ensures
        result_view(r) == pure_call(HostFn::Vals, views(args@)),
{
    match arg(args, 0) {
        None => Err(error_message("wrong arity to vals")),
        Some(map) => match assoc_of(map) {
            Some(map) => map.vals(),
            None => Err(error_message("wrong type of arguments to vals")),
        },
    }
}

fn conj(args: &Vec<LispValue>) -> (r: EvaluationResult)
    ensures
        result_view(r) == pure_call(HostFn::Conj, views(args@)),
{
    match arg(args, 0) {
        None => Err(error_message("wrong arity to conj")),
        Some(coll) => match &**coll {
            LispType::List(seq, _) => {
                let ghost rest = views(args@).subrange(1, args@.len() as int);
                let mut new_seq: Vec<LispValue> = Vec::new();
                let mut n: usize = args.len() - 1;
                assert(views(new_seq@) =~= Seq::<Value>::empty());
                while n > 0
                    invariant
                        n <= args.len() - 1,
                        views(args@).len() == args@.len(),
                        rest == views(args@).subrange(1, args@.len() as int),
                        reversed(rest, (args.len() - 1) as nat) == views(new_seq@) + reversed(
                            rest,
                            n as nat,
                        ),
                    decreases n,
                {
                    proof {
                        views_push(new_seq@, args@[n as int]);
                        assert(views(args@)[n as int] == args@[n as int]@);
                        assert(rest[n - 1] == args@[n as int]@);
                        assert(views(new_seq@).push(args@[n as int]@) + reversed(
                            rest,
                            (n - 1) as nat,
                        ) =~= views(new_seq@) + reversed(rest, n as nat));
                    }
                    new_seq.push(share(&args[n]));
                    n -= 1;
                }
                proof {
                    views_add(new_seq@, seq@);
                    assert(views(new_seq@) + reversed(rest, 0) =~= views(new_seq@));
                }
                append_shared(&mut new_seq, seq);
                Ok(new_list(new_seq, None))
            },
            LispType::Vector(seq, _) => {
                let mut new_seq = share_all(seq);
                let rest = share_from(args, 1);
                proof {
                    views_subrange(args@, 1, args@.len() as int);
                    views_add(new_seq@, rest@);
                }
                append_shared(&mut new_seq, &rest);
                Ok(new_vector(new_seq, None))
            },
            _ => Err(error_message("wrong type of arguments to conj")),
        },
    }
}

fn to_seq(args: &Vec<LispValue>) -> (r: EvaluationResult)
    ensures
        result_view(r) == pure_call(HostFn::ToSeq, views(args@)),
{
    match arg(args, 0) {
        None => Err(error_message("could not seq this value")),
        Some(a) => match &**a {
            LispType::List(seq, _) => {
                assert(views(seq@).len() == seq@.len());
                if seq.len() == 0 {
                    Ok(new_nil())
                } else {
                    Ok(new_list(share_all(seq), None))
                }
            },
            LispType::Vector(seq, _) => {
                assert(views(seq@).len() == seq@.len());
                if seq.len() == 0 {
                    Ok(new_nil())
                } else {
                    Ok(new_list(share_all(seq), None))
                }
            },
            LispType::String(s) => {
                let chars = crate::text::to_chars(s.as_str());
                if chars.len() == 0 {
                    Ok(new_nil())
                } else {
                    let mut seq: Vec<LispValue> = Vec::new();
                    let mut i: usize = 0;
                    while i < chars.len()
                        invariant
                            i <= chars.len(),
                            chars@ == s@,
                            views(seq@) == char_strings(s@).subrange(0, i as int),
                        decreases chars.len() - i,
                    {
                        let mut one = String::new();
                        one.push(chars[i]);
                        assert(one@ =~= seq![s@[i as int]]);
                        let next = new_string(one.as_str());
                        proof {
                            views_push(seq@, next);
                        }
                        seq.push(next);
                        assert(views(seq@) =~= char_strings(s@).subrange(0, i + 1));
                        i += 1;
                    }
                    assert(views(seq@) =~= char_strings(s@));
                    Ok(new_list(seq, None))
                }
            },
            LispType::Nil => Ok(new_nil()),
            _ => Err(error_message("could not seq this value")),
        },
    }
}

fn meta_of(args: &Vec<LispValue>) -> (r: EvaluationResult)
    ensures
        result_view(r) == pure_call(HostFn::Meta, views(args@)),
{
    match arg(args, 0) {
        None => Err(error_message("wrong arity to meta")),
        Some(value) => match &**value {
            LispType::Symbol(_, metadata) => Ok(share(metadata)),
            LispType::Lambda { metadata, .. } => Ok(share(metadata)),
            LispType::Macro { metadata, .. } => Ok(share(metadata)),
            LispType::Fn(_, metadata) => Ok(share(metadata)),
            LispType::List(_, metadata) => Ok(share(metadata)),
            LispType::Vector(_, metadata) => Ok(share(metadata)),
            LispType::Dict(_, metadata) => Ok(share(metadata)),
            _ => Ok(new_nil()),
        },
    }
}

fn with_meta(args: &Vec<LispValue>) -> (r: EvaluationResult)
    ensures
        result_view(r) == pure_call(HostFn::WithMeta, views(args@)),
{
    match arg(args, 0) {
        None => Err(error_message("wrong arity to with-meta")),
        Some(value) => match arg(args, 1) {
            None => Err(error_message("wrong arity to with-meta")),
            Some(meta) => match &**value {
                LispType::Symbol(s, _) => Ok(new_symbol(s.as_str(), Some(share(meta)))),
                LispType::Lambda { params, body, env, .. } => Ok(
                    new_lambda(share_all(params), share_all(body), *env, Some(share(meta))),
                ),
                LispType::Macro { params, body, env, .. } => Ok(
                    new_macro(share_all(params), share_all(body), *env, Some(share(meta))),
                ),
                LispType::Fn(f, _) => Ok(new_fn(*f, Some(share(meta)))),
                LispType::List(seq, _) => Ok(new_list(share_all(seq), Some(share(meta)))),
                LispType::Vector(seq, _) => Ok(new_vector(share_all(seq), Some(share(meta)))),
                LispType::Dict(assoc, _) => Ok(new_map(assoc.share(), Some(share(meta)))),
                _ => Err(error_message("type of this argument does not support metadata")),
            },
        },
    }
}


/// The name of a symbol.
pub fn symbol_text(v: &LispValue) -> (r: Option<&String>)
    ensures
        match r {
            Some(s) => v@ is Symbol && symbol_name(v@) == s@,
            None => !(v@ is Symbol),
        },
{
    match &**v {
        LispType::Symbol(s, _) => Some(s),
        _ => None,
    }
}

/// Whether a value is the symbol `name`.
pub fn is_symbol_named(v: &LispValue, name: &str) -> (r: bool)
    ensures
        r == v@.is_symbol_named(name@),
{
    match &**v {
        LispType::Symbol(s, _) => crate::text::same_text(s.as_str(), name),
        _ => false,
    }
}

/// The model of a result that holds bindings.
pub open spec fn ns_result_view(r: Result<Ns, EvaluationError>) -> Result<
    Map<Seq<char>, Value>,
    Failure,
> {
    match r {
        Ok(ns) => Ok(ns_view(ns@)),
        Err(e) => Err(e@),
    }
}

/// The bindings that a call makes of parameters and arguments. A parameter
/// after `&` takes the list of the arguments that the parameters before it
/// leave over.
pub fn new_from(params: &Vec<LispValue>, exprs: Vec<LispValue>) -> (r: Result<Ns, EvaluationError>)
    ensures
        ns_result_view(r) == bind_params(views(params@), views(exprs@)),
{
    let ghost ps = views(params@);
    let ghost es = views(exprs@);
    let n = params.len();
    assert(ps.len() == n);
    assert(es.len() == exprs.len());
    let mut i: usize = 0;
    while i < n
        invariant
            i <= n,
            n == params.len(),
            ps == views(params@),
            forall|j: int| 0 <= j < i ==> (#[trigger] ps[j]) is Symbol,
        decreases n - i,
    {
        assert(ps[i as int] == params@[i as int]@);
        if symbol_text(&params[i]).is_none() {
            assert(!params_are_symbols(ps));
            return Err(EvaluationError::BadArguments(new_list(share_all(params), None)));
        }
        i += 1;
    }
    assert(params_are_symbols(ps));
    let mut fixed: usize = 0;
    while fixed < n
        invariant
            fixed <= n,
            n == params.len(),
            ps == views(params@),
            rest_marker(ps, 0) == rest_marker(ps, fixed as nat),
        ensures
            fixed <= n,
            rest_marker(ps, 0) == fixed,
        decreases n - fixed,
    {
        assert(ps[fixed as int] == params@[fixed as int]@);
        if is_symbol_named(&params[fixed], "&") {
            break;
        }
        fixed += 1;
    }
    assert(rest_marker(ps, 0) == fixed);
    if exprs.len() < fixed || (fixed == n && exprs.len() != fixed) {
        return Err(EvaluationError::WrongArity(new_list(share_all(params), None)));
    }
    let mut ns = Ns::new();
    proof {
        assert(ns_view(ns@) =~= bind_fixed(ps, es, 0));
    }
    let mut j: usize = 0;
    while j < fixed
        invariant
            j <= fixed <= n,
            fixed <= exprs.len(),
            n == params.len(),
            ps == views(params@),
            es == views(exprs@),
            params_are_symbols(ps),
            ns_view(ns@) == bind_fixed(ps, es, j as nat),
        decreases fixed - j,
    {
        assert(ps[j as int] == params@[j as int]@);
        assert(es[j as int] == exprs@[j as int]@);
        match symbol_text(&params[j]) {
            Some(name) => {
                let v = share(&exprs[j]);
                proof {
                    ns_view_insert(ns@, name@, v);
                }
                ns.insert(name.clone(), v);
            },
            None => {},
        }
        j += 1;
    }
    if fixed < n && fixed + 1 < n {
        assert(ps[fixed + 1] == params@[fixed + 1]@);
        match symbol_text(&params[fixed + 1]) {
            Some(name) => {
                proof {
                    views_subrange(exprs@, fixed as int, exprs@.len() as int);
                }
                let more = new_list(share_from(&exprs, fixed), None);
                proof {
                    ns_view_insert(ns@, name@, more);
                }
                ns.insert(name.clone(), more);
            },
            None => {},
        }
    }
    Ok(ns)
}

/// A host function as a value, without metadata.
pub open spec fn host_value(f: HostFn) -> Value {
    Value::Fn(f, Box::new(Value::Nil))
}

/// The bindings of the core: each builtin under its name.
pub open spec fn core_bindings() -> Map<Seq<char>, Value> {
    Map::<Seq<char>, Value>::empty()
        .insert("+"@, host_value(HostFn::Add))
        .insert("-"@, host_value(HostFn::Sub))
        .insert("*"@, host_value(HostFn::Mul))
        .insert("/"@, host_value(HostFn::Div))
        .insert("prn"@, host_value(HostFn::Prn))
        .insert("pr-str"@, host_value(HostFn::PrStr))
        .insert("str"@, host_value(HostFn::Str))
        .insert("println"@, host_value(HostFn::Println))
        .insert("list"@, host_value(HostFn::List))
        .insert("list?"@, host_value(HostFn::IsList))
        .insert("empty?"@, host_value(HostFn::IsEmpty))
        .insert("count"@, host_value(HostFn::Count))
        .insert("="@, host_value(HostFn::Equal))
        .insert("<"@, host_value(HostFn::Lt))
        .insert("<="@, host_value(HostFn::Lte))
        .insert(">"@, host_value(HostFn::Gt))
        .insert(">="@, host_value(HostFn::Gte))
        .insert("read-string"@, host_value(HostFn::ReadString))
        .insert("slurp"@, host_value(HostFn::Slurp))
        .insert("cons"@, host_value(HostFn::Cons))
        .insert("concat"@, host_value(HostFn::Concat))
        .insert("nth"@, host_value(HostFn::Nth))
        .insert("first"@, host_value(HostFn::First))
        .insert("rest"@, host_value(HostFn::Rest))
        .insert("throw"@, host_value(HostFn::Throw))
        .insert("apply"@, host_value(HostFn::Apply))
        .insert("map"@, host_value(HostFn::MapOver))
        .insert("nil?"@, host_value(HostFn::IsNil))
        .insert("true?"@, host_value(HostFn::IsTrue))
        .insert("false?"@, host_value(HostFn::IsFalse))
        .insert("symbol?"@, host_value(HostFn::IsSymbol))
        .insert("readline"@, host_value(HostFn::Readline))
        .insert("atom"@, host_value(HostFn::Atom))
        .insert("atom?"@, host_value(HostFn::IsAtom))
        .insert("deref"@, host_value(HostFn::Deref))
        .insert("reset!"@, host_value(HostFn::Reset))
        .insert("swap!"@, host_value(HostFn::Swap))
        .insert("symbol"@, host_value(HostFn::Symbol))
        .insert("keyword"@, host_value(HostFn::Keyword))
        .insert("keyword?"@, host_value(HostFn::IsKeyword))
        .insert("vector"@, host_value(HostFn::Vector))
        .insert("vector?"@, host_value(HostFn::IsVector))
        .insert("sequential?"@, host_value(HostFn::IsSequential))
        .insert("hash-map"@, host_value(HostFn::HashMap))
        .insert("map?"@, host_value(HostFn::IsMap))
        .insert("assoc"@, host_value(HostFn::Assoc))
        .insert("dissoc"@, host_value(HostFn::Dissoc))
        .insert("get"@, host_value(HostFn::Get))
        .insert("contains?"@, host_value(HostFn::Contains))
        .insert("keys"@, host_value(HostFn::Keys))
        .insert("vals"@, host_value(HostFn::Vals))
        .insert("time-ms"@, host_value(HostFn::TimeMs))
        .insert("conj"@, host_value(HostFn::Conj))
        .insert("string?"@, host_value(HostFn::IsString))
        .insert("seq"@, host_value(HostFn::ToSeq))
        .insert("meta"@, host_value(HostFn::Meta))
        .insert("with-meta"@, host_value(HostFn::WithMeta))
        .insert("fn?"@, host_value(HostFn::IsFn))
}

fn bind(ns: &mut Ns, name: &str, f: HostFn)
    ensures
        ns_view(final(ns)@) == ns_view(old(ns)@).insert(name@, host_value(f)),
{
    let v = new_fn(f, None);
    proof {
        ns_view_insert(ns@, name@, v);
    }
    ns.insert(owned(name), v);
}

/// The bindings of the core: each builtin under its name.
pub fn core_ns() -> (ns: Ns)
    ensures
        ns_view(ns@) == core_bindings(),
{
    let mut ns = Ns::new();
    assert(ns_view(ns@) =~= Map::<Seq<char>, Value>::empty());
    bind(&mut ns, "+", HostFn::Add);
    bind(&mut ns, "-", HostFn::Sub);
    bind(&mut ns, "*", HostFn::Mul);
    bind(&mut ns, "/", HostFn::Div);
    bind(&mut ns, "prn", HostFn::Prn);
    bind(&mut ns, "pr-str", HostFn::PrStr);
    bind(&mut ns, "str", HostFn::Str);
    bind(&mut ns, "println", HostFn::Println);
    bind(&mut ns, "list", HostFn::List);
    bind(&mut ns, "list?", HostFn::IsList);
    bind(&mut ns, "empty?", HostFn::IsEmpty);
    bind(&mut ns, "count", HostFn::Count);
    bind(&mut ns, "=", HostFn::Equal);
    bind(&mut ns, "<", HostFn::Lt);
    bind(&mut ns, "<=", HostFn::Lte);
    bind(&mut ns, ">", HostFn::Gt);
    bind(&mut ns, ">=", HostFn::Gte);
    bind(&mut ns, "read-string", HostFn::ReadString);
    bind(&mut ns, "slurp", HostFn::Slurp);
    bind(&mut ns, "cons", HostFn::Cons);
    bind(&mut ns, "concat", HostFn::Concat);
    bind(&mut ns, "nth", HostFn::Nth);
    bind(&mut ns, "first", HostFn::First);
    bind(&mut ns, "rest", HostFn::Rest);
    bind(&mut ns, "throw", HostFn::Throw);
    bind(&mut ns, "apply", HostFn::Apply);
    bind(&mut ns, "map", HostFn::MapOver);
    bind(&mut ns, "nil?", HostFn::IsNil);
    bind(&mut ns, "true?", HostFn::IsTrue);
    bind(&mut ns, "false?", HostFn::IsFalse);
    bind(&mut ns, "symbol?", HostFn::IsSymbol);
    bind(&mut ns, "readline", HostFn::Readline);
    bind(&mut ns, "atom", HostFn::Atom);
    bind(&mut ns, "atom?", HostFn::IsAtom);
    bind(&mut ns, "deref", HostFn::Deref);
    bind(&mut ns, "reset!", HostFn::Reset);
    bind(&mut ns, "swap!", HostFn::Swap);
    bind(&mut ns, "symbol", HostFn::Symbol);
    bind(&mut ns, "keyword", HostFn::Keyword);
    bind(&mut ns, "keyword?", HostFn::IsKeyword);
    bind(&mut ns, "vector", HostFn::Vector);
    bind(&mut ns, "vector?", HostFn::IsVector);
    bind(&mut ns, "sequential?", HostFn::IsSequential);
    bind(&mut ns, "hash-map", HostFn::HashMap);
    bind(&mut ns, "map?", HostFn::IsMap);
    bind(&mut ns, "assoc", HostFn::Assoc);
    bind(&mut ns, "dissoc", HostFn::Dissoc);
    bind(&mut ns, "get", HostFn::Get);
    bind(&mut ns, "contains?", HostFn::Contains);
    bind(&mut ns, "keys", HostFn::Keys);
    bind(&mut ns, "vals", HostFn::Vals);
    bind(&mut ns, "time-ms", HostFn::TimeMs);
    bind(&mut ns, "conj", HostFn::Conj);
    bind(&mut ns, "string?", HostFn::IsString);
    bind(&mut ns, "seq", HostFn::ToSeq);
    bind(&mut ns, "meta", HostFn::Meta);
    bind(&mut ns, "with-meta", HostFn::WithMeta);
    bind(&mut ns, "fn?", HostFn::IsFn);
    ns
}

/// The string that `pr-str` gives: the readable texts of the arguments,
/// with a space between neighbours.
fn print_to_str(args: &Vec<LispValue>, heap: &Heap) -> (r: EvaluationResult)
    ensures
        result_view(r) == Ok::<Value, Failure>(
            Value::String(string_of_spec(heap@.atoms, views(args@), true, " "@, args@.len())),
        ),
{
    let s = string_of(args, true, " ", heap);
    Ok(new_string(s.as_str()))
}

/// The string that `str` gives: the plain texts of the arguments, joined.
fn to_str(args: &Vec<LispValue>, heap: &Heap) -> (r: EvaluationResult)
    ensures
        result_view(r) == Ok::<Value, Failure>(
            Value::String(string_of_spec(heap@.atoms, views(args@), false, ""@, args@.len())),
        ),
{
    let s = string_of(args, false, "", heap);
    Ok(new_string(s.as_str()))
}

/// `prn`: prints the readable texts of the arguments on one line.
fn prn<H: Host>(args: &Vec<LispValue>, heap: &mut Heap, host: &mut H) -> (r: EvaluationResult)
    ensures
        result_view(r) == Ok::<Value, Failure>(Value::Nil),
        final(heap)@ == old(heap)@.record(
            Event::Printed(string_of_spec(old(heap)@.atoms, views(args@), true, " "@, args@.len())),
        ),
{
    let line = string_of(args, true, " ", heap);
    heap.print_line(host, line.as_str());
    Ok(new_nil())
}

/// `println`: prints the plain texts of the arguments on one line.
fn println<H: Host>(args: &Vec<LispValue>, heap: &mut Heap, host: &mut H) -> (r: EvaluationResult)
    ensures
        result_view(r) == Ok::<Value, Failure>(Value::Nil),
        final(heap)@ == old(heap)@.record(
            Event::Printed(
                string_of_spec(old(heap)@.atoms, views(args@), false, " "@, args@.len()),
            ),
        ),
{
    let line = string_of(args, false, " ", heap);
    heap.print_line(host, line.as_str());
    Ok(new_nil())
}

/// What `slurp` gives for what the host found at the path.
pub fn slurp_outcome(contents: Option<String>) -> (r: EvaluationResult)
    ensures
        result_view(r) == slurp_spec(text_view(contents)),
{
    match contents {
        Some(text) => Ok(new_string(text.as_str())),
        None => Err(error_message("slurp could not read file")),
    }
}

/// `slurp`: the contents of the file that the first argument names.
fn slurp<H: Host>(args: &Vec<LispValue>, heap: &mut Heap, host: &mut H) -> (r: EvaluationResult)
    ensures
        forall|t: Transcript| #[trigger]
            begins(final(heap)@.log, t) ==> begins(old(heap)@.log, t) && agrees(
                host_call_spec(HostFn::Slurp, views(args@), old(heap)@, 0, t),
                r,
                final(heap)@,
            ),
{
    match arg(args, 0) {
        Some(a) => match &**a {
            LispType::String(filename) => {
                let contents = heap.read_file(host, filename.as_str());
                slurp_outcome(contents)
            },
            _ => Err(error_message("slurp could not get filename from args")),
        },
        None => Err(error_message("slurp could not get filename from args")),
    }
}

/// What `readline` gives for what the host read.
pub fn readline_outcome(line: Option<String>) -> (r: EvaluationResult)
    ensures
        result_view(r) == readline_spec(text_view(line)),
{
    match line {
        Some(text) => Ok(new_string(text.as_str())),
        None => Ok(new_nil()),
    }
}

/// `readline`: a line of input, asked for with the first argument as prompt.
fn readline<H: Host>(args: &Vec<LispValue>, heap: &mut Heap, host: &mut H) -> (r: EvaluationResult)
    ensures
        forall|t: Transcript| #[trigger]
            begins(final(heap)@.log, t) ==> begins(old(heap)@.log, t) && agrees(
                host_call_spec(HostFn::Readline, views(args@), old(heap)@, 0, t),
                r,
                final(heap)@,
            ),
{
    match arg(args, 0) {
        None => Err(error_message("not enough arguments to readline")),
        Some(a) => match &**a {
            LispType::String(s) => {
                let line = heap.read_line(host, s.as_str());
                readline_outcome(line)
            },
            _ => Err(error_message("wrong type of argument to readline")),
        },
    }
}

/// The milliseconds since the epoch for a clock reading.
pub fn millis_from(sec: i64, nsec: i32) -> (r: EvaluationResult)
    ensures
        result_view(r) == millis_spec(sec, nsec),
{
    if nsec < 0 {
        return Err(error_message("time out of range"));
    }
    let nsec_millis: i64 = (nsec / 1000000) as i64;
    match sec.checked_mul(1000) {
        Some(millis) => match millis.checked_add(nsec_millis) {
            Some(total) => Ok(new_number(total)),
            None => Err(error_message("time out of range")),
        },
        None => {
            Err(error_message("time out of range"))
        },
    }
}

/// `time-ms`: the milliseconds since the epoch.
fn time_millis(heap: &mut Heap) -> (r: EvaluationResult)
    ensures
        forall|t: Transcript| #[trigger]
            begins(final(heap)@.log, t) ==> begins(old(heap)@.log, t) && agrees(
                host_call_spec(HostFn::TimeMs, Seq::empty(), old(heap)@, 0, t),
                r,
                final(heap)@,
            ),
{
    let (sec, nsec) = heap.read_clock();
    millis_from(sec, nsec)
}

/// `atom`: a new atom that holds the first argument.
fn to_atom(args: &Vec<LispValue>, heap: &mut Heap) -> (r: EvaluationResult)
    ensures
        views(args@).len() == 0 ==> result_view(r) == Err::<Value, Failure>(
            Failure::Message("wrong arity"@),
        ) && final(heap)@ == old(heap)@,
        views(args@).len() > 0 ==> result_view(r) == Ok::<Value, Failure>(
            Value::Atom(old(heap)@.atoms.len() as usize),
        ) && final(heap)@ == old(heap)@.push_atom(views(args@)[0]),
{
    match arg(args, 0) {
        None => Err(error_message("wrong arity")),
        Some(v) => Ok(crate::types::new_atom(share(v), heap)),
    }
}

/// `deref`: what the atom holds.
fn deref(args: &Vec<LispValue>, heap: &Heap) -> (r: EvaluationResult)
    ensures
        result_view(r) == (if views(args@).len() == 0 {
            Err::<Value, Failure>(Failure::WrongArity(Value::Nil))
        } else {
            match views(args@)[0] {
                Value::Atom(id) => match heap@.deref(id) {
                    Some(v) => Ok(v),
                    None => Err(Failure::Message("wrong type of argument to deref"@)),
                },
                _ => Err(Failure::Message("wrong type of argument to deref"@)),
            }
        }),
{
    match arg(args, 0) {
        None => Err(EvaluationError::WrongArity(new_nil())),
        Some(a) => match &**a {
            LispType::Atom(id) => match heap.deref(*id) {
                Some(v) => Ok(v),
                None => Err(error_message("wrong type of argument to deref")),
            },
            _ => Err(error_message("wrong type of argument to deref")),
        },
    }
}

/// `reset!`: makes the atom hold the second argument, and gives it.
fn reset(args: &Vec<LispValue>, heap: &mut Heap) -> (r: EvaluationResult)
    ensures
        ({
            let a = views(args@);
            if a.len() < 2 {
                result_view(r) == Err::<Value, Failure>(Failure::Message("wrong arity"@))
                    && final(heap)@ == old(heap)@
            } else {
                match a[0] {
                    Value::Atom(id) => if id < old(heap)@.atoms.len() {
                        result_view(r) == Ok::<Value, Failure>(a[1]) && final(heap)@ == old(
                            heap,
                        )@.reset(id, a[1])
                    } else {
                        result_view(r) == Err::<Value, Failure>(
                            Failure::Message("wrong type of argument to reset!"@),
                        ) && final(heap)@ == old(heap)@
                    },
                    _ => result_view(r) == Err::<Value, Failure>(
                        Failure::Message("wrong type of argument to reset!"@),
                    ) && final(heap)@ == old(heap)@,
                }
            }
        }),
{
    match arg(args, 0) {
        None => Err(error_message("wrong arity")),
        Some(atom) => match arg(args, 1) {
            None => Err(error_message("wrong arity")),
            Some(val) => match &**atom {
                LispType::Atom(id) => {
                    if heap.reset(*id, share(val)) {
                        Ok(share(val))
                    } else {
                        Err(error_message("wrong type of argument to reset!"))
                    }
                },
                _ => Err(error_message("wrong type of argument to reset!")),
            },
        },
    }
}

/// The arguments with the last one, a list or a vector, spread out.
fn flatten_last(args: &Vec<LispValue>) -> (r: Result<Vec<LispValue>, EvaluationError>)
    ensures
        match r {
            Ok(flat) => flatten_last_spec(views(args@)) == Ok::<Seq<Value>, Failure>(views(flat@)),
            Err(e) => flatten_last_spec(views(args@)) == Err::<Seq<Value>, Failure>(e@),
        },
{
    let len = args.len();
    assert(views(args@).len() == len);
    let mut result: Vec<LispValue> = Vec::new();
    if len == 0 {
        assert(views(result@) =~= views(args@));
        return Ok(result);
    }
    assert(views(args@)[len - 1] == args@[len - 1]@);
    match items_of(&args[len - 1]) {
        Some(seq) => {
            let mut i: usize = 0;
            while i < len - 1
                invariant
                    i <= len - 1,
                    len == args.len(),
                    result@ == args@.subrange(0, i as int),
                decreases len - 1 - i,
            {
                result.push(share(&args[i]));
                assert(result@ =~= args@.subrange(0, i + 1));
                i += 1;
            }
            proof {
                views_subrange(args@, 0, len - 1);
                views_add(result@, seq@);
                assert(views(args@).drop_last() =~= views(args@).subrange(0, len - 1));
            }
            append_shared(&mut result, seq);
            Ok(result)
        },
        None => Err(error_message("last argument to apply must be a list")),
    }
}

/// Whether a value can be called.
pub fn callable(v: &LispValue) -> (r: bool)
    ensures
        r == is_callable(v@),
{
    match &**v {
        LispType::Lambda { .. } => true,
        LispType::Fn(_, _) => true,
        _ => false,
    }
}


/// `apply`: calls the first argument with the others, the last of them spread out.
fn apply<H: Host>(
    args: &Vec<LispValue>,
    heap: &mut Heap,
    host: &mut H,
    fuel: usize,
) -> (r: EvaluationResult)
    ensures
        forall|t: Transcript| #[trigger]
            begins(final(heap)@.log, t) ==> begins(old(heap)@.log, t) && agrees(
                host_call_spec(HostFn::Apply, views(args@), old(heap)@, fuel as nat, t),
                r,
                final(heap)@,
            ),
    decreases fuel, 2nat, 0nat,
{
    let len = args.len();
    assert(views(args@).len() == len);
    if len < 2 {
        return Err(EvaluationError::WrongArity(new_nil()));
    }
    let f = &args[0];
    assert(views(args@)[0] == f@);
    if !callable(f) {
        return Err(error_message("expected first argument to apply to be a function"));
    }
    let rest = share_from(args, 1);
    proof {
        views_subrange(args@, 1, args@.len() as int);
    }
    match flatten_last(&rest) {
        Ok(flat) => {
            if fuel == 0 {
                Err(too_deep_error())
            } else {
                call_value(f, flat, heap, host, fuel - 1)
            }
        },
        Err(e) => Err(e),
    }
}

/// `map`: the list of what the first argument gives for each item of the second.
fn map<H: Host>(
    args: &Vec<LispValue>,
    heap: &mut Heap,
    host: &mut H,
    fuel: usize,
) -> (r: EvaluationResult)
    ensures
        forall|t: Transcript| #[trigger]
            begins(final(heap)@.log, t) ==> begins(old(heap)@.log, t) && agrees(
                host_call_spec(HostFn::MapOver, views(args@), old(heap)@, fuel as nat, t),
                r,
                final(heap)@,
            ),
    decreases fuel, 2nat, 0nat,
{
    let f = match arg(args, 0) {
        Some(f) => f,
        None => {
            return Err(error_message("wrong arity to map -- missing first arg"));
        },
    };
    let xs = match arg(args, 1) {
        Some(xs) => xs,
        None => {
            return Err(error_message("wrong arity to map -- missing rest args"));
        },
    };
    if !callable(f) {
        return Err(error_message("expected first argument to map to be a lambda value"));
    }
    let xs = match items_of(xs) {
        Some(xs) => xs,
        None => {
            return Err(error_message("expected second argument to map to be a list or vector"));
        },
    };
    if fuel == 0 {
        return Err(too_deep_error());
    }
    let mut fxs: Vec<LispValue> = Vec::new();
    assert(views(fxs@) =~= Seq::<Value>::empty());
    let mut i: usize = 0;
    while i < xs.len()
        invariant
            i <= xs.len(),
            fuel > 0,
            views(xs@).len() == xs@.len(),
            forall|t: Transcript| #[trigger]
                begins(heap@.log, t) ==> begins(old(heap)@.log, t) && host_call_spec(
                    HostFn::MapOver,
                    views(args@),
                    old(heap)@,
                    fuel as nat,
                    t,
                ) == map_items_spec(
                    f@,
                    views(xs@),
                    heap@,
                    (fuel - 1) as nat,
                    i as nat,
                    views(fxs@),
                    t,
                ),
        decreases xs.len() - i,
    {
        assert(views(xs@)[i as int] == xs@[i as int]@);
        let mut one: Vec<LispValue> = Vec::new();
        one.push(share(&xs[i]));
        assert(views(one@) =~= seq![xs@[i as int]@]);
        match call_value(f, one, heap, host, fuel - 1) {
            Ok(fx) => {
                proof {
                    views_push(fxs@, fx);
                }
                fxs.push(fx);
            },
            Err(e) => {
                return Err(e);
            },
        }
        i += 1;
    }
    Ok(new_list(fxs, None))
}

/// `swap!`: makes the atom hold what the function gives for what it holds
/// and the further arguments, and gives that value.
fn swap<H: Host>(
    args: &Vec<LispValue>,
    heap: &mut Heap,
    host: &mut H,
    fuel: usize,
) -> (r: EvaluationResult)
    ensures
        forall|t: Transcript| #[trigger]
            begins(final(heap)@.log, t) ==> begins(old(heap)@.log, t) && agrees(
                host_call_spec(HostFn::Swap, views(args@), old(heap)@, fuel as nat, t),
                r,
                final(heap)@,
            ),
    decreases fuel, 2nat, 0nat,
{
    let atom = match arg(args, 0) {
        Some(a) => a,
        None => {
            return Err(error_message("wrong arity to swap!"));
        },
    };
    let f = match arg(args, 1) {
        Some(f) => f,
        None => {
            return Err(error_message("wrong arity to swap!"));
        },
    };
    let id = match &**atom {
        LispType::Atom(id) => *id,
        _ => {
            return Err(error_message("wrong type of arguments to swap!"));
        },
    };
    let current = match heap.deref(id) {
        Some(v) => v,
        None => {
            return Err(error_message("wrong type of arguments to swap!"));
        },
    };
    if !callable(f) {
        return Err(error_message("wrong type of arguments to swap!"));
    }
    if fuel == 0 {
        return Err(too_deep_error());
    }
    let mut full_params: Vec<LispValue> = Vec::new();
    full_params.push(current);
    let extra = share_from(args, 2);
    proof {
        views_subrange(args@, 2, args@.len() as int);
        views_add(full_params@, extra@);
        assert(views(full_params@) =~= seq![current@]);
    }
    append_shared(&mut full_params, &extra);
    match call_value(f, full_params, heap, host, fuel - 1) {
        Ok(newval) => {
            let _ = heap.reset(id, share(&newval));
            Ok(newval)
        },
        Err(e) => Err(e),
    }
}

/// Calls the host function `f`.
pub fn call_host_fn<H: Host>(
    f: HostFn,
    args: Vec<LispValue>,
    heap: &mut Heap,
    host: &mut H,
    fuel: usize,
) -> (r: EvaluationResult)
    ensures
        forall|t: Transcript| #[trigger]
            begins(final(heap)@.log, t) ==> begins(old(heap)@.log, t) && agrees(
                host_call_spec(f, views(args@), old(heap)@, fuel as nat, t),
                r,
                final(heap)@,
            ),
    decreases fuel, 3nat, 0nat,
{
    assert(views(args@).len() == args@.len());
    match f {
        HostFn::Add => self::add(&args),
        HostFn::Sub => self::sub(&args),
        HostFn::Mul => self::mul(&args),
        HostFn::Div => div(&args),
        HostFn::Prn => prn(&args, heap, host),
        HostFn::PrStr => print_to_str(&args, heap),
        HostFn::Str => to_str(&args, heap),
        HostFn::Println => println(&args, heap, host),
        HostFn::List => to_list(&args),
        HostFn::IsList => is_list(&args),
        HostFn::IsEmpty => is_empty(&args),
        HostFn::Count => count_of(&args),
        HostFn::Equal => is_equal(&args),
        HostFn::Lt => lt(&args),
        HostFn::Lte => lte(&args),
        HostFn::Gt => gt(&args),
        HostFn::Gte => gte(&args),
        HostFn::ReadString => read_string(&args),
        HostFn::Slurp => slurp(&args, heap, host),
        HostFn::Cons => cons(&args),
        HostFn::Concat => concat(&args),
        HostFn::Nth => nth(&args),
        HostFn::First => first(&args),
        HostFn::Rest => rest(&args),
        HostFn::Throw => throw(&args),
        HostFn::Apply => apply(&args, heap, host, fuel),
        HostFn::MapOver => map(&args, heap, host, fuel),
        HostFn::IsNil => is_nil(&args),
        HostFn::IsTrue => is_true(&args),
        HostFn::IsFalse => is_false(&args),
        HostFn::IsSymbol => is_symbol(&args),
        HostFn::Readline => readline(&args, heap, host),
        HostFn::Atom => to_atom(&args, heap),
        HostFn::IsAtom => is_atom(&args),
        HostFn::Deref => deref(&args, heap),
        HostFn::Reset => reset(&args, heap),
        HostFn::Swap => swap(&args, heap, host, fuel),
        HostFn::Symbol => to_symbol(&args),
        HostFn::Keyword => to_keyword(&args),
        HostFn::IsKeyword => is_keyword(&args),
        HostFn::Vector => to_vector(&args),
        HostFn::IsVector => is_vector(&args),
        HostFn::IsSequential => is_seq(&args),
        HostFn::HashMap => to_map(&args),
        HostFn::IsMap => is_map(&args),
        HostFn::Assoc => assoc(&args),
        HostFn::Dissoc => dissoc(&args),
        HostFn::Get => get(&args),
        HostFn::Contains => contains(&args),
        HostFn::Keys => keys(&args),
        HostFn::Vals => vals(&args),
        HostFn::TimeMs => time_millis(heap),
        HostFn::Conj => conj(&args),
        HostFn::IsString => is_string(&args),
        HostFn::ToSeq => to_seq(&args),
        HostFn::Meta => meta_of(&args),
        HostFn::WithMeta => with_meta(&args),
        HostFn::IsFn => is_fn(&args),
    }
}

} // verus!
