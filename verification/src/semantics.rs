//! What evaluation means: the builtins and the evaluator as mathematical
//! functions on values and the store.
//!
//! The functions that can reach the host take a transcript `t`: where an
//! evaluation asks the host for a file, a line or the time, the answer is
//! the one that stands in `t` right after what the store's log holds.

use crate::model::{
    as_key, entries_from_items, entries_get, entries_merge, entries_remove, frames_root, lisp_eq,
    Entries, Event, Failure, HostFn, Store, Transcript, Value,
};
use crate::printer::pr_str_spec;
use crate::reader::{read_tokens_spec, tokenizer_spec, ReadFailure};
use vstd::prelude::*;

verus! {

/// A failure that carries only a message.
pub open spec fn failure(text: Seq<char>) -> Result<Value, Failure> {
    Err(Failure::Message(text))
}

/// The index of the first `&` among the parameters at or after `i`; their
/// number where there is none.
pub open spec fn rest_marker(params: Seq<Value>, i: nat) -> nat
    decreases params.len() - i,
{
    if i >= params.len() {
        params.len()
    } else if params[i as int].is_symbol_named("&"@) {
        i
    } else {
        rest_marker(params, i + 1)
    }
}

/// Whether every parameter is a symbol.
pub open spec fn params_are_symbols(params: Seq<Value>) -> bool {
    forall|i: int| 0 <= i < params.len() ==> (#[trigger] params[i]) is Symbol
}

/// The name of a symbol.
pub open spec fn symbol_name(v: Value) -> Seq<char> {
    match v {
        Value::Symbol(s, _) => s,
        _ => Seq::empty(),
    }
}

/// The bindings of the first `n` parameters to the first `n` arguments.
pub open spec fn bind_fixed(params: Seq<Value>, args: Seq<Value>, n: nat) -> Map<Seq<char>, Value>
    decreases n,
{
    if n == 0 || n > params.len() || n > args.len() {
        Map::empty()
    } else {
        bind_fixed(params, args, (n - 1) as nat).insert(symbol_name(params[n - 1]), args[n - 1])
    }
}

/// The bindings that a call makes. The parameters before the first `&` take
/// one argument each; the parameter after it, where there is one, takes the
/// list of the arguments that are left. Too few arguments, or too many
/// without a `&`, are a wrong arity; a parameter that is no symbol is a bad
/// argument.
pub open spec fn bind_params(params: Seq<Value>, args: Seq<Value>) -> Result<
    Map<Seq<char>, Value>,
    Failure,
> {
    let fixed = rest_marker(params, 0);
    if !params_are_symbols(params) {
        Err(Failure::BadArguments(Value::list(params)))
    } else if args.len() < fixed || (fixed == params.len() && args.len() != fixed) {
        Err(Failure::WrongArity(Value::list(params)))
    } else if fixed + 1 < params.len() {
        Ok(
            bind_fixed(params, args, fixed).insert(
                symbol_name(params[fixed as int + 1]),
                Value::list(args.subrange(fixed as int, args.len() as int)),
            ),
        )
    } else {
        Ok(bind_fixed(params, args, fixed))
    }
}

/// Whether a value is a list or vector that begins with the symbol `name`.
pub open spec fn starts_with_symbol(v: Value, name: Seq<char>) -> bool {
    v.is_sequential() && v.items().len() > 0 && v.items()[0].is_symbol_named(name)
}

/// The form `(name a)`.
pub open spec fn form1(name: Seq<char>, a: Value) -> Value {
    Value::list(seq![Value::symbol(name), a])
}

/// The form `(name a b)`.
pub open spec fn form2(name: Seq<char>, a: Value, b: Value) -> Value {
    Value::list(seq![Value::symbol(name), a, b])
}

/// The code that builds what a quasiquoted form stands for. A form that is
/// no list or vector, or an empty one, is quoted; `(unquote y)` is `y`; a
/// form that begins with `(splice-unquote y)` is `y` joined to the rest; any
/// other is its first item put before the rest.
pub open spec fn quasiquote(x: Value) -> Result<Value, Failure>
    decreases x, 0nat,
{
    match x {
        Value::List(xs, _) => if xs.len() > 0 {
            quasiquote_from(xs, 0)
        } else {
            Ok(form1("quote"@, x))
        },
        Value::Vector(xs, _) => if xs.len() > 0 {
            quasiquote_from(xs, 0)
        } else {
            Ok(form1("quote"@, x))
        },
        _ => Ok(form1("quote"@, x)),
    }
}

/// The code that builds the items of `xs` from `i` on.
pub open spec fn quasiquote_from(xs: Seq<Value>, i: nat) -> Result<Value, Failure>
    decreases xs, xs.len() - i,
{
    if i >= xs.len() {
        Ok(form1("quote"@, Value::list(Seq::empty())))
    } else if xs[i as int].is_symbol_named("unquote"@) {
        if i + 1 < xs.len() {
            Ok(xs[i as int + 1])
        } else {
            Err(Failure::WrongArity(Value::list(xs.subrange(i as int, xs.len() as int))))
        }
    } else if starts_with_symbol(xs[i as int], "splice-unquote"@) {
        if xs[i as int].items().len() >= 2 {
            match quasiquote_from(xs, i + 1) {
                Ok(rest) => Ok(form2("concat"@, xs[i as int].items()[1], rest)),
                Err(e) => Err(e),
            }
        } else {
            Err(Failure::BadArguments(Value::list(xs.subrange(i as int, xs.len() as int))))
        }
    } else {
        match quasiquote(xs[i as int]) {
            Ok(first) => match quasiquote_from(xs, i + 1) {
                Ok(rest) => Ok(form2("cons"@, first, rest)),
                Err(e) => Err(e),
            },
            Err(e) => Err(e),
        }
    }
}

/// One step of arithmetic: the operation `f` on two numbers, within range.
pub open spec fn arith(f: HostFn, a: i64, b: i64) -> Result<i64, Failure> {
    let r = match f {
        HostFn::Add => a.checked_add(b),
        HostFn::Sub => a.checked_sub(b),
        HostFn::Mul => a.checked_mul(b),
        _ => a.checked_div(b),
    };
    match r {
        Some(n) => Ok(n),
        None => if f == HostFn::Add || f == HostFn::Sub || f == HostFn::Mul || b != 0 {
            Err(Failure::Message("integer overflow"@))
        } else {
            Err(Failure::Message("division by zero"@))
        },
    }
}

/// The fold of `f` over the arguments from `i` on, with `acc` so far.
pub open spec fn arith_fold(f: HostFn, args: Seq<Value>, i: nat, acc: i64) -> Result<Value, Failure>
    decreases args.len() - i,
{
    if i >= args.len() {
        Ok(Value::Number(acc))
    } else {
        match args[i as int] {
            Value::Number(b) => match arith(f, acc, b) {
                Ok(n) => arith_fold(f, args, i + 1, n),
                Err(e) => Err(e),
            },
            other => Err(Failure::BadArguments(other)),
        }
    }
}

/// `+`, `-`, `*`, `/`: a left fold over at least two numbers, the first the seed.
pub open spec fn arith_call(f: HostFn, args: Seq<Value>) -> Result<Value, Failure> {
    if args.len() < 2 {
        failure("not enough args to op"@)
    } else {
        match args[0] {
            Value::Number(a) => arith_fold(f, args, 1, a),
            other => Err(Failure::BadArguments(other)),
        }
    }
}

/// `<`, `<=`, `>`, `>=` on the first two arguments, which are numbers.
pub open spec fn order_call(f: HostFn, args: Seq<Value>) -> Result<Value, Failure> {
    if args.len() < 2 {
        failure("could not determine if args are ordered"@)
    } else {
        match args[0] {
            Value::Number(a) => match args[1] {
                Value::Number(b) => Ok(
                    Value::Boolean(
                        match f {
                            HostFn::Lt => a < b,
                            HostFn::Lte => a <= b,
                            HostFn::Gt => a > b,
                            _ => a >= b,
                        },
                    ),
                ),
                other => Err(Failure::BadArguments(other)),
            },
            other => Err(Failure::BadArguments(other)),
        }
    }
}

/// What a predicate on one value says.
pub open spec fn predicate(f: HostFn, v: Value) -> bool {
    match f {
        HostFn::IsList => v is List,
        HostFn::IsNil => v is Nil,
        HostFn::IsTrue => v == Value::Boolean(true),
        HostFn::IsFalse => v == Value::Boolean(false),
        HostFn::IsSymbol => v is Symbol,
        HostFn::IsAtom => v is Atom,
        HostFn::IsKeyword => v is Keyword,
        HostFn::IsVector => v is Vector,
        HostFn::IsSequential => v.is_sequential(),
        HostFn::IsMap => v is Dict,
        HostFn::IsString => v is String,
        _ => v is Lambda || v is Fn,
    }
}

/// The message of a predicate that got no argument.
pub open spec fn predicate_arity_message(f: HostFn) -> Seq<char> {
    match f {
        HostFn::IsList => "could not determine if seq is list"@,
        HostFn::IsString => "wrong arity to string?"@,
        _ => "wrong arity"@,
    }
}

/// Whether `f` is a predicate on one value.
pub open spec fn is_predicate(f: HostFn) -> bool {
    f == HostFn::IsList || f == HostFn::IsNil || f == HostFn::IsTrue || f == HostFn::IsFalse || f
        == HostFn::IsSymbol || f == HostFn::IsAtom || f == HostFn::IsKeyword || f
        == HostFn::IsVector || f == HostFn::IsSequential || f == HostFn::IsMap || f
        == HostFn::IsString || f == HostFn::IsFn
}

/// The items of every argument from `i` on joined after `acc`; each
/// argument is a list or a vector.
pub open spec fn concat_from(args: Seq<Value>, i: nat, acc: Seq<Value>) -> Result<Value, Failure>
    decreases args.len() - i,
{
    if i >= args.len() {
        Ok(Value::list(acc))
    } else if args[i as int].is_sequential() {
        concat_from(args, i + 1, acc + args[i as int].items())
    } else {
        failure("wrong arg type for concat"@)
    }
}

/// The first `n` items, last first.
pub open spec fn reversed(xs: Seq<Value>, n: nat) -> Seq<Value>
    decreases n,
{
    if n == 0 || n > xs.len() {
        Seq::empty()
    } else {
        seq![xs[n - 1]] + reversed(xs, (n - 1) as nat)
    }
}

/// Each character of `s` as a string of its own.
pub open spec fn char_strings(s: Seq<char>) -> Seq<Value> {
    Seq::new(s.len(), |i: int| Value::String(seq![s[i]]))
}

/// The entries without the keys that the arguments from `i` on name.
pub open spec fn dissoc_from(es: Entries, args: Seq<Value>, i: nat) -> Result<Value, Failure>
    decreases args.len() - i,
{
    if i >= args.len() {
        Ok(Value::dict(es))
    } else {
        match as_key(args[i as int]) {
            Some(k) => dissoc_from(entries_remove(es, k), args, i + 1),
            None => failure("wrong type of arguments to dissoc"@),
        }
    }
}

/// The metadata of a value: nil where it carries none.
pub open spec fn meta_of_spec(v: Value) -> Value {
    match v {
        Value::Symbol(_, m) => *m,
        Value::Lambda { metadata, .. } => *metadata,
        Value::Macro { metadata, .. } => *metadata,
        Value::Fn(_, m) => *m,
        Value::List(_, m) => *m,
        Value::Vector(_, m) => *m,
        Value::Dict(_, m) => *m,
        _ => Value::Nil,
    }
}

/// The value with `meta` for its metadata, where it can carry any.
pub open spec fn with_meta_spec(v: Value, meta: Value) -> Result<Value, Failure> {
    match v {
        Value::Symbol(s, _) => Ok(Value::Symbol(s, Box::new(meta))),
        Value::Lambda { params, body, env, .. } => Ok(
            Value::Lambda { params, body, env, metadata: Box::new(meta) },
        ),
        Value::Macro { params, body, env, .. } => Ok(
            Value::Macro { params, body, env, metadata: Box::new(meta) },
        ),
        Value::Fn(f, _) => Ok(Value::Fn(f, Box::new(meta))),
        Value::List(xs, _) => Ok(Value::List(xs, Box::new(meta))),
        Value::Vector(xs, _) => Ok(Value::Vector(xs, Box::new(meta))),
        Value::Dict(es, _) => Ok(Value::Dict(es, Box::new(meta))),
        _ => failure("type of this argument does not support metadata"@),
    }
}

/// What `read-string` makes of a reading's result.
pub open spec fn read_string_result(r: Result<Value, ReadFailure>) -> Result<Value, Failure> {
    match r {
        Ok(v) => Ok(v),
        Err(ReadFailure::Message(s)) => Err(Failure::Message(s)),
        Err(ReadFailure::EmptyInput) => failure("input was empty"@),
        Err(ReadFailure::ExtraInput(_, _)) => failure("extra input after full form"@),
    }
}

/// The count of a sequence as a number of the language.
pub open spec fn count_value(n: nat) -> Result<Value, Failure> {
    if n <= i64::MAX {
        Ok(Value::Number(n as i64))
    } else {
        failure("could not determine count of seq"@)
    }
}

/// What a builtin gives that reads neither the store nor the host and
/// calls nothing back.
pub open spec fn pure_call(f: HostFn, args: Seq<Value>) -> Result<Value, Failure> {
    match f {
        HostFn::Add | HostFn::Sub | HostFn::Mul | HostFn::Div => arith_call(f, args),
        HostFn::Lt | HostFn::Lte | HostFn::Gt | HostFn::Gte => order_call(f, args),
        HostFn::List => Ok(Value::list(args)),
        HostFn::Vector => Ok(Value::vector(args)),
        HostFn::IsEmpty => if args.len() > 0 && args[0].is_sequential() {
            Ok(Value::Boolean(args[0].items().len() == 0))
        } else {
            failure("could not determine if seq is empty"@)
        },
        HostFn::Count => if args.len() > 0 && args[0].is_sequential() {
            count_value(args[0].items().len())
        } else if args.len() > 0 && args[0] is Nil {
            Ok(Value::Number(0))
        } else {
            failure("could not determine count of seq"@)
        },
        HostFn::Equal => if args.len() == 2 {
            Ok(Value::Boolean(lisp_eq(args[0], args[1])))
        } else {
            failure("could not determine if args are equal"@)
        },
        HostFn::ReadString => if args.len() == 0 {
            failure("not enough arg in args"@)
        } else {
            match args[0] {
                Value::String(s) => read_string_result(read_tokens_spec(tokenizer_spec(s))),
                _ => failure("wrong type of first argument"@),
            }
        },
        HostFn::Cons => if args.len() >= 2 && args[1].is_sequential() {
            Ok(Value::list(seq![args[0]] + args[1].items()))
        } else {
            failure("call to cons failed"@)
        },
        HostFn::Concat => concat_from(args, 0, Seq::empty()),
        HostFn::Nth => if args.len() >= 2 && args[0].is_sequential() {
            match args[1] {
                Value::Number(n) => if 0 <= n < args[0].items().len() {
                    Ok(args[0].items()[n as int])
                } else {
                    failure("call to nth failed"@)
                },
                _ => failure("call to nth failed"@),
            }
        } else {
            failure("call to nth failed"@)
        },
        HostFn::First => if args.len() > 0 && args[0].is_sequential() {
            if args[0].items().len() == 0 {
                Ok(Value::Nil)
            } else {
                Ok(args[0].items()[0])
            }
        } else if args.len() > 0 && args[0] is Nil {
            Ok(Value::Nil)
        } else {
            failure("call to first failed"@)
        },
        HostFn::Rest => if args.len() > 0 && args[0].is_sequential() {
            if args[0].items().len() == 0 {
                Ok(Value::list(Seq::empty()))
            } else {
                Ok(Value::list(args[0].items().subrange(1, args[0].items().len() as int)))
            }
        } else if args.len() > 0 && args[0] is Nil {
            Ok(Value::list(Seq::empty()))
        } else {
            failure("call to rest failed"@)
        },
        HostFn::Throw => Err(
            Failure::Exception(
                if args.len() == 0 {
                    Value::Nil
                } else {
                    args[0]
                },
            ),
        ),
        HostFn::Symbol => if args.len() == 0 {
            failure("wrong arity"@)
        } else {
            match args[0] {
                Value::String(s) => Ok(Value::symbol(s)),
                _ => failure("wrong type to symbol"@),
            }
        },
        HostFn::Keyword => if args.len() == 0 {
            failure("wrong arity"@)
        } else {
            match args[0] {
                Value::String(s) => Ok(Value::Keyword(seq![':'] + s)),
                Value::Keyword(s) => Ok(Value::Keyword(s)),
                _ => failure("wrong type to keyword"@),
            }
        },
        HostFn::HashMap => match entries_from_items(args) {
            Ok(es) => Ok(Value::dict(es)),
            Err(e) => Err(e),
        },
        HostFn::Assoc => if args.len() == 0 {
            failure("wrong arity to assoc"@)
        } else {
            match args[0] {
                Value::Dict(es, _) => match entries_from_items(
                    args.subrange(1, args.len() as int),
                ) {
                    Ok(more) => Ok(Value::dict(entries_merge(es, more))),
                    Err(e) => Err(e),
                },
                _ => failure("wrong type of arguments to assoc"@),
            }
        },
        HostFn::Dissoc => if args.len() == 0 {
            failure("wrong arity to dissoc"@)
        } else {
            match args[0] {
                Value::Dict(es, _) => dissoc_from(es, args, 1),
                _ => failure("wrong type of arguments to dissoc"@),
            }
        },
        HostFn::Get => if args.len() < 2 {
            failure("wrong arity to get"@)
        } else {
            match args[0] {
                Value::Dict(es, _) => match as_key(args[1]) {
                    Some(k) => match entries_get(es, k) {
                        Some(v) => Ok(v),
                        None => Ok(Value::Nil),
                    },
                    None => Ok(Value::Nil),
                },
                Value::Nil => Ok(Value::Nil),
                _ => failure("wrong type of arguments to get"@),
            }
        },
        HostFn::Contains => if args.len() < 2 {
            failure("wrong arity to contains?"@)
        } else {
            match args[0] {
                Value::Dict(es, _) => Ok(
                    Value::Boolean(
                        match as_key(args[1]) {
                            Some(k) => entries_get(es, k) is Some,
                            None => false,
                        },
                    ),
                ),
                _ => failure("wrong type of arguments to contains?"@),
            }
        },
        HostFn::Keys => if args.len() == 0 {
            failure("wrong arity to keys"@)
        } else {
            match args[0] {
                Value::Dict(es, _) => Ok(Value::list(crate::types::key_values(es))),
                _ => failure("wrong type of arguments to keys"@),
            }
        },
        HostFn::Vals => if args.len() == 0 {
            failure("wrong arity to vals"@)
        } else {
            match args[0] {
                Value::Dict(es, _) => Ok(Value::list(crate::types::entry_values(es))),
                _ => failure("wrong type of arguments to vals"@),
            }
        },
        HostFn::Conj => if args.len() == 0 {
            failure("wrong arity to conj"@)
        } else {
            match args[0] {
                Value::List(xs, _) => Ok(
                    Value::list(
                        reversed(args.subrange(1, args.len() as int), (args.len() - 1) as nat) + xs,
                    ),
                ),
                Value::Vector(xs, _) => Ok(Value::vector(xs + args.subrange(1, args.len() as int))),
                _ => failure("wrong type of arguments to conj"@),
            }
        },
        HostFn::ToSeq => if args.len() == 0 {
            failure("could not seq this value"@)
        } else {
            match args[0] {
                Value::List(xs, _) => if xs.len() == 0 {
                    Ok(Value::Nil)
                } else {
                    Ok(Value::list(xs))
                },
                Value::Vector(xs, _) => if xs.len() == 0 {
                    Ok(Value::Nil)
                } else {
                    Ok(Value::list(xs))
                },
                Value::String(s) => if s.len() == 0 {
                    Ok(Value::Nil)
                } else {
                    Ok(Value::list(char_strings(s)))
                },
                Value::Nil => Ok(Value::Nil),
                _ => failure("could not seq this value"@),
            }
        },
        HostFn::Meta => if args.len() == 0 {
            failure("wrong arity to meta"@)
        } else {
            Ok(meta_of_spec(args[0]))
        },
        HostFn::WithMeta => if args.len() < 2 {
            failure("wrong arity to with-meta"@)
        } else {
            with_meta_spec(args[0], args[1])
        },
        _ => if is_predicate(f) {
            if args.len() == 0 {
                failure(predicate_arity_message(f))
            } else {
                Ok(Value::Boolean(predicate(f, args[0])))
            }
        } else {
            failure("not a pure builtin"@)
        },
    }
}

/// The texts of the first `n` arguments with `sep` between neighbours.
pub open spec fn string_of_spec(
    atoms: Seq<Value>,
    args: Seq<Value>,
    readably: bool,
    sep: Seq<char>,
    n: nat,
) -> Seq<char>
    decreases n,
{
    if n == 0 || n > args.len() {
        Seq::empty()
    } else if n == 1 {
        pr_str_spec(atoms, args[0], readably, atoms.len())
    } else {
        string_of_spec(atoms, args, readably, sep, (n - 1) as nat) + sep + pr_str_spec(
            atoms,
            args[n - 1],
            readably,
            atoms.len(),
        )
    }
}


/// How an evaluation ends: its result and the store that it leaves, what
/// passed between it and the host included.
pub enum Outcome {
    Done(Result<Value, Failure>, Store),
}

/// An evaluation that gives `v` and leaves `st`.
pub open spec fn ok(v: Value, st: Store) -> Outcome {
    Outcome::Done(Ok(v), st)
}

/// An evaluation that fails with `e` and leaves `st`.
pub open spec fn fail(e: Failure, st: Store) -> Outcome {
    Outcome::Done(Err(e), st)
}

/// An evaluation that fails with a message and leaves `st`.
pub open spec fn fail_with(text: Seq<char>, st: Store) -> Outcome {
    Outcome::Done(Err(Failure::Message(text)), st)
}

/// An evaluation that ran out of depth.
pub open spec fn too_deep(st: Store) -> Outcome {
    fail_with("evaluation too deep"@, st)
}

/// The special forms.
pub enum Form {
    If,
    Do,
    Def,
    Let,
    Lambda,
    Eval,
    Quote,
    Quasiquote,
    Macro,
    Macroexpand,
    Try,
}

/// The special form that a list with the head `head` is, if it is one.
pub open spec fn special_form(head: Value) -> Option<Form> {
    match head {
        Value::Symbol(s, _) => if s == "if"@ {
            Some(Form::If)
        } else if s == "do"@ {
            Some(Form::Do)
        } else if s == "def!"@ {
            Some(Form::Def)
        } else if s == "let*"@ {
            Some(Form::Let)
        } else if s == "fn*"@ {
            Some(Form::Lambda)
        } else if s == "eval"@ {
            Some(Form::Eval)
        } else if s == "quote"@ {
            Some(Form::Quote)
        } else if s == "quasiquote"@ {
            Some(Form::Quasiquote)
        } else if s == "defmacro!"@ {
            Some(Form::Macro)
        } else if s == "macroexpand"@ {
            Some(Form::Macroexpand)
        } else if s == "try*"@ {
            Some(Form::Try)
        } else {
            None
        },
        _ => None,
    }
}

/// The items of a sequence after the first.
pub open spec fn tail(xs: Seq<Value>) -> Seq<Value> {
    if xs.len() == 0 {
        xs
    } else {
        xs.subrange(1, xs.len() as int)
    }
}

/// The macro that a form calls: the form is a list whose head is a symbol
/// that the environment binds to a macro.
pub open spec fn macro_of(v: Value, env: usize, st: Store) -> Option<Value> {
    match v {
        Value::List(xs, _) => if xs.len() > 0 {
            match xs[0] {
                Value::Symbol(s, _) => match st.get(env, s) {
                    Ok(m) => if m is Macro {
                        Some(m)
                    } else {
                        None
                    },
                    Err(_) => None,
                },
                _ => None,
            }
        } else {
            None
        },
        _ => None,
    }
}

/// Whether a form is a call of a macro.
pub open spec fn is_macro_call_spec(v: Value, env: usize, st: Store) -> bool {
    macro_of(v, env, st) is Some
}

/// The value that a handler receives for a failure: what was thrown, or
/// the failure's message as a string.
pub open spec fn exception_value(e: Failure) -> Value {
    match e {
        Failure::WrongArity(_) => Value::String("wrong arity"@),
        Failure::BadArguments(_) => Value::String("bad arguments to fn"@),
        Failure::MissingSymbol(s) => Value::String(seq!['\''] + s + "' not found"@),
        Failure::Message(m) => Value::String(m),
        Failure::Exception(v) => v,
    }
}

/// The parameter and the body of a handler `(catch* name body)`.
pub open spec fn eval_catch_spec(handler: Value) -> Result<(Value, Value), Failure> {
    match handler {
        Value::List(xs, _) => if xs.len() >= 3 {
            if xs[0].is_symbol_named("catch*"@) {
                Ok((xs[1], xs[2]))
            } else {
                Err(Failure::Message("no catch handler supplied -- missing catch* ?"@))
            }
        } else {
            Err(Failure::Message("wrong arity to catch handler"@))
        },
        _ => Err(Failure::Message("wrong arity to catch handler"@)),
    }
}

/// The arguments of `apply` after the function, with the last one, a list
/// or a vector, spread out.
pub open spec fn flatten_last_spec(args: Seq<Value>) -> Result<Seq<Value>, Failure> {
    if args.len() == 0 {
        Ok(args)
    } else if args.last().is_sequential() {
        Ok(args.drop_last() + args.last().items())
    } else {
        Err(Failure::Message("last argument to apply must be a list"@))
    }
}

/// Whether a value can be called: a lambda or a host function.
pub open spec fn is_callable(v: Value) -> bool {
    v is Lambda || v is Fn
}

/// The lambda that `fn*` makes of its arguments in the environment `env`.
pub open spec fn eval_lambda_spec(args: Seq<Value>, env: usize) -> Result<Value, Failure> {
    if args.len() < 2 {
        failure("wrong arity"@)
    } else if args[0].is_sequential() {
        Ok(
            Value::Lambda {
                params: args[0].items(),
                body: tail(args),
                env,
                metadata: Box::new(Value::Nil),
            },
        )
    } else {
        Err(Failure::BadArguments(args[0]))
    }
}

/// What `quote` gives: its first argument as it stands.
pub open spec fn eval_quote_spec(args: Seq<Value>) -> Result<Value, Failure> {
    if args.len() == 0 {
        failure("wrong arity"@)
    } else {
        Ok(args[0])
    }
}

/// The value of `v` in the environment `env`, given the store `st`, leave
/// to go `fuel` deep, and a host that answers as the transcript `t` says. A symbol is looked up. A list is expanded while
/// it calls a macro, then dispatched on its head. A vector and a map have
/// their items evaluated. Anything else is itself.
pub open spec fn eval_spec(v: Value, env: usize, st: Store, fuel: nat, t: Transcript) -> Outcome
    decreases fuel, 0nat, 0nat,
{
    match v {
        Value::Symbol(s, _) => Outcome::Done(st.get(env, s), st),
        Value::List(xs, _) => if xs.len() == 0 {
            ok(v, st)
        } else if fuel == 0 {
            too_deep(st)
        } else {
            match macroexpand_spec(v, env, st, (fuel - 1) as nat, t) {
                Outcome::Done(Ok(v1), st1) => match v1 {
                    Value::List(ys, _) => if ys.len() == 0 {
                        ok(v1, st1)
                    } else {
                        eval_list_spec(ys, env, st1, (fuel - 1) as nat, t)
                    },
                    _ => eval_spec(v1, env, st1, (fuel - 1) as nat, t),
                },
                other => other,
            }
        },
        Value::Vector(xs, _) => if fuel == 0 {
            too_deep(st)
        } else {
            eval_vector_spec(xs, env, st, (fuel - 1) as nat, t)
        },
        Value::Dict(es, _) => if fuel == 0 {
            too_deep(st)
        } else {
            eval_entries_spec(es, env, st, (fuel - 1) as nat, 0, Seq::empty(), t)
        },
        _ => ok(v, st),
    }
}

/// The vector of the values of the items.
pub open spec fn eval_vector_spec(
    xs: Seq<Value>,
    env: usize,
    st: Store,
    fuel: nat,
    t: Transcript,
) -> Outcome
    decreases fuel, 2nat, 0nat,
{
    match eval_seq_spec(xs, env, st, fuel, 0, Seq::empty(), t) {
        Outcome::Done(Ok(items), st1) => ok(Value::vector(items.items()), st1),
        other => other,
    }
}

/// The values of the items from `i` on, in order, after `acc`, as a list.
pub open spec fn eval_seq_spec(
    xs: Seq<Value>,
    env: usize,
    st: Store,
    fuel: nat,
    i: nat,
    acc: Seq<Value>,
    t: Transcript,
) -> Outcome
    decreases fuel, 1nat, xs.len() - i,
{
    if i >= xs.len() {
        ok(Value::list(acc), st)
    } else {
        match eval_spec(xs[i as int], env, st, fuel, t) {
            Outcome::Done(Ok(v), st1) => eval_seq_spec(xs, env, st1, fuel, i + 1, acc.push(v), t),
            other => other,
        }
    }
}

/// The map whose entries from `i` on have their values evaluated, after `acc`.
pub open spec fn eval_entries_spec(
    es: Entries,
    env: usize,
    st: Store,
    fuel: nat,
    i: nat,
    acc: Entries,
    t: Transcript,
) -> Outcome
    decreases fuel, 1nat, es.len() - i,
{
    if i >= es.len() {
        ok(Value::dict(acc), st)
    } else {
        match eval_spec(es[i as int].1, env, st, fuel, t) {
            Outcome::Done(Ok(v), st1) => eval_entries_spec(
                es,
                env,
                st1,
                fuel,
                i + 1,
                acc.push((es[i as int].0, v)),
                t,
            ),
            other => other,
        }
    }
}

/// The value of the last of the forms from `i` on, each evaluated in turn;
/// no form at all is an error.
pub open spec fn eval_sequence_spec(
    xs: Seq<Value>,
    env: usize,
    st: Store,
    fuel: nat,
    i: nat,
    t: Transcript,
) -> Outcome
    decreases fuel, 1nat, xs.len() - i,
{
    if i >= xs.len() {
        fail_with("could not eval sequence"@, st)
    } else {
        match eval_spec(xs[i as int], env, st, fuel, t) {
            Outcome::Done(Ok(v), st1) => if i + 1 == xs.len() {
                ok(v, st1)
            } else {
                eval_sequence_spec(xs, env, st1, fuel, i + 1, t)
            },
            other => other,
        }
    }
}

/// A call of a lambda: a new frame inside the lambda's own binds the
/// parameters, and the body is evaluated there.
pub open spec fn apply_lambda_spec(
    params: Seq<Value>,
    body: Seq<Value>,
    env: usize,
    args: Seq<Value>,
    st: Store,
    fuel: nat,
    t: Transcript,
) -> Outcome
    decreases fuel, 2nat, 0nat,
{
    match bind_params(params, args) {
        Err(e) => fail(e, st),
        Ok(bindings) => eval_sequence_spec(
            body,
            st.frames.len() as usize,
            st.push_frame(Some(env), bindings),
            fuel,
            0,
            t,
        ),
    }
}

/// The milliseconds in `sec` seconds and `nsec` nanoseconds, where they
/// are a time within range.
pub open spec fn millis_spec(sec: i64, nsec: i32) -> Result<Value, Failure> {
    if nsec < 0 {
        Err(Failure::Message("time out of range"@))
    } else {
        match sec.checked_mul(1000) {
            Some(millis) => match millis.checked_add((nsec / 1000000) as i64) {
                Some(total) => Ok(Value::Number(total)),
                None => Err(Failure::Message("time out of range"@)),
            },
            None => Err(Failure::Message("time out of range"@)),
        }
    }
}

/// What `slurp` gives for what the host found at the path.
pub open spec fn slurp_spec(contents: Option<Seq<char>>) -> Result<Value, Failure> {
    match contents {
        Some(text) => Ok(Value::String(text)),
        None => Err(Failure::Message("slurp could not read file"@)),
    }
}

/// What `readline` gives for what the host read.
pub open spec fn readline_spec(line: Option<Seq<char>>) -> Result<Value, Failure> {
    match line {
        Some(text) => Ok(Value::String(text)),
        None => Ok(Value::Nil),
    }
}

/// A call of a host function. Where it asks the host for something, the
/// answer is the one that stands next in the transcript `t`.
pub open spec fn host_call_spec(
    f: HostFn,
    args: Seq<Value>,
    st: Store,
    fuel: nat,
    t: Transcript,
) -> Outcome
    decreases fuel, 3nat, 0nat,
{
    match f {
        HostFn::Prn => ok(
            Value::Nil,
            st.record(Event::Printed(string_of_spec(st.atoms, args, true, " "@, args.len()))),
        ),
        HostFn::Println => ok(
            Value::Nil,
            st.record(Event::Printed(string_of_spec(st.atoms, args, false, " "@, args.len()))),
        ),
        HostFn::TimeMs => {
            let (sec, nsec) = match st.next_event(t) {
                Some(Event::Clock(sec, nsec)) => (sec, nsec),
                _ => (0i64, 0i32),
            };
            Outcome::Done(millis_spec(sec, nsec), st.record(Event::Clock(sec, nsec)))
        },
        HostFn::Slurp => if args.len() > 0 && args[0] is String {
            let contents = match st.next_event(t) {
                Some(Event::FileRead(_, contents)) => contents,
                _ => None,
            };
            Outcome::Done(
                slurp_spec(contents),
                st.record(Event::FileRead(args[0]->String_0, contents)),
            )
        } else {
            fail_with("slurp could not get filename from args"@, st)
        },
        HostFn::Readline => if args.len() == 0 {
            fail_with("not enough arguments to readline"@, st)
        } else if args[0] is String {
            let line = match st.next_event(t) {
                Some(Event::LineRead(_, line)) => line,
                _ => None,
            };
            Outcome::Done(
                readline_spec(line),
                st.record(Event::LineRead(args[0]->String_0, line)),
            )
        } else {
            fail_with("wrong type of argument to readline"@, st)
        },
        HostFn::PrStr => ok(
            Value::String(string_of_spec(st.atoms, args, true, " "@, args.len())),
            st,
        ),
        HostFn::Str => ok(
            Value::String(string_of_spec(st.atoms, args, false, ""@, args.len())),
            st,
        ),
        HostFn::Atom => if args.len() == 0 {
            fail_with("wrong arity"@, st)
        } else {
            ok(Value::Atom(st.atoms.len() as usize), st.push_atom(args[0]))
        },
        HostFn::Deref => if args.len() == 0 {
            fail(Failure::WrongArity(Value::Nil), st)
        } else {
            match args[0] {
                Value::Atom(id) => match st.deref(id) {
                    Some(v) => ok(v, st),
                    None => fail_with("wrong type of argument to deref"@, st),
                },
                _ => fail_with("wrong type of argument to deref"@, st),
            }
        },
        HostFn::Reset => if args.len() < 2 {
            fail_with("wrong arity"@, st)
        } else {
            match args[0] {
                Value::Atom(id) => if id < st.atoms.len() {
                    ok(args[1], st.reset(id, args[1]))
                } else {
                    fail_with("wrong type of argument to reset!"@, st)
                },
                _ => fail_with("wrong type of argument to reset!"@, st),
            }
        },
        HostFn::Swap => if args.len() < 2 {
            fail_with("wrong arity to swap!"@, st)
        } else {
            match args[0] {
                Value::Atom(id) => if id < st.atoms.len() && is_callable(args[1]) {
                    if fuel == 0 {
                        too_deep(st)
                    } else {
                        match call_spec(
                            args[1],
                            seq![st.atoms[id as int]] + args.subrange(2, args.len() as int),
                            st,
                            (fuel - 1) as nat,
                            t,
                        ) {
                            Outcome::Done(Ok(v), st1) => ok(v, st1.reset(id, v)),
                            other => other,
                        }
                    }
                } else {
                    fail_with("wrong type of arguments to swap!"@, st)
                },
                _ => fail_with("wrong type of arguments to swap!"@, st),
            }
        },
        HostFn::Apply => if args.len() < 2 {
            fail(Failure::WrongArity(Value::Nil), st)
        } else if !is_callable(args[0]) {
            fail_with("expected first argument to apply to be a function"@, st)
        } else {
            match flatten_last_spec(tail(args)) {
                Err(e) => fail(e, st),
                Ok(flat) => if fuel == 0 {
                    too_deep(st)
                } else {
                    call_spec(args[0], flat, st, (fuel - 1) as nat, t)
                },
            }
        },
        HostFn::MapOver => if args.len() == 0 {
            fail_with("wrong arity to map -- missing first arg"@, st)
        } else if args.len() == 1 {
            fail_with("wrong arity to map -- missing rest args"@, st)
        } else if !is_callable(args[0]) {
            fail_with("expected first argument to map to be a lambda value"@, st)
        } else if !args[1].is_sequential() {
            fail_with("expected second argument to map to be a list or vector"@, st)
        } else if fuel == 0 {
            too_deep(st)
        } else {
            map_items_spec(args[0], args[1].items(), st, (fuel - 1) as nat, 0, Seq::empty(), t)
        },
        _ => Outcome::Done(pure_call(f, args), st),
    }
}

/// A call of a value with arguments that are values already.
pub open spec fn call_spec(
    callee: Value,
    args: Seq<Value>,
    st: Store,
    fuel: nat,
    t: Transcript,
) -> Outcome
    decreases fuel, 4nat, 0nat,
{
    match callee {
        Value::Lambda { params, body, env, .. } => apply_lambda_spec(
            params,
            body,
            env,
            args,
            st,
            fuel,
            t,
        ),
        Value::Fn(f, _) => host_call_spec(f, args, st, fuel, t),
        _ => fail(Failure::BadArguments(callee), st),
    }
}

/// The list of what `f` gives for each item from `i` on, after `acc`.
pub open spec fn map_items_spec(
    f: Value,
    xs: Seq<Value>,
    st: Store,
    fuel: nat,
    i: nat,
    acc: Seq<Value>,
    t: Transcript,
) -> Outcome
    decreases fuel, 5nat, xs.len() - i,
{
    if i >= xs.len() {
        ok(Value::list(acc), st)
    } else {
        match call_spec(f, seq![xs[i as int]], st, fuel, t) {
            Outcome::Done(Ok(v), st1) => map_items_spec(f, xs, st1, fuel, i + 1, acc.push(v), t),
            other => other,
        }
    }
}

/// An application: the head is evaluated, then each operand in order, then
/// the head's value is called with the operands' values.
pub open spec fn apply_spec(
    operator: Value,
    operands: Seq<Value>,
    env: usize,
    st: Store,
    fuel: nat,
    t: Transcript,
) -> Outcome
    decreases fuel, 5nat, 0nat,
{
    match eval_spec(operator, env, st, fuel, t) {
        Outcome::Done(Ok(f), st1) => match eval_seq_spec(operands, env, st1, fuel, 0, Seq::empty(), t) {
            Outcome::Done(Ok(args), st2) => call_spec(f, args.items(), st2, fuel, t),
            other => other,
        },
        other => other,
    }
}

/// `if`: the second argument where the first is neither nil nor false,
/// else the third, or nil where there is none.
pub open spec fn eval_if_spec(
    args: Seq<Value>,
    env: usize,
    st: Store,
    fuel: nat,
    t: Transcript,
) -> Outcome
    decreases fuel, 2nat, 0nat,
{
    if args.len() < 2 {
        fail_with("wrong arity"@, st)
    } else {
        match eval_spec(args[0], env, st, fuel, t) {
            Outcome::Done(Ok(p), st1) => if p.is_falsy() {
                if args.len() >= 3 {
                    eval_spec(args[2], env, st1, fuel, t)
                } else {
                    ok(Value::Nil, st1)
                }
            } else {
                eval_spec(args[1], env, st1, fuel, t)
            },
            other => other,
        }
    }
}

/// `def!`: binds the name to the value of the second argument, in the
/// current frame, and gives that value.
pub open spec fn eval_define_spec(
    args: Seq<Value>,
    env: usize,
    st: Store,
    fuel: nat,
    t: Transcript,
) -> Outcome
    decreases fuel, 2nat, 0nat,
{
    if args.len() < 2 {
        fail_with("wrong arity"@, st)
    } else {
        match args[0] {
            Value::Symbol(name, _) => match eval_spec(args[1], env, st, fuel, t) {
                Outcome::Done(Ok(v), st1) => ok(v, st1.set(env, name, v)),
                other => other,
            },
            _ => fail(Failure::BadArguments(args[0]), st),
        }
    }
}

/// The store after the pairs of `bindings` from the `i`-th on are bound in
/// the frame `env`, each value evaluated in that frame as it has grown so far.
pub open spec fn build_let_env_spec(
    bindings: Seq<Value>,
    env: usize,
    st: Store,
    fuel: nat,
    i: nat,
    t: Transcript,
) -> Outcome
    decreases fuel, 1nat, bindings.len() - 2 * i,
{
    if 2 * i + 1 >= bindings.len() {
        ok(Value::Nil, st)
    } else {
        match bindings[2 * (i as int)] {
            Value::Symbol(name, _) => match eval_spec(bindings[2 * (i as int) + 1], env, st, fuel, t) {
                Outcome::Done(Ok(v), st1) => build_let_env_spec(
                    bindings,
                    env,
                    st1.set(env, name, v),
                    fuel,
                    i + 1,
                    t,
                ),
                other => other,
            },
            _ => fail(Failure::BadArguments(bindings[2 * (i as int)]), st),
        }
    }
}

/// `let*`: a new frame inside the current one takes the bindings, and the
/// body is evaluated there.
pub open spec fn eval_let_spec(
    args: Seq<Value>,
    env: usize,
    st: Store,
    fuel: nat,
    t: Transcript,
) -> Outcome
    decreases fuel, 2nat, 0nat,
{
    if args.len() == 0 {
        fail_with("wrong arity"@, st)
    } else if !args[0].is_sequential() {
        fail_with("wrong type!"@, st)
    } else {
        let inner = st.frames.len() as usize;
        match build_let_env_spec(
            args[0].items(),
            inner,
            st.push_frame(Some(env), Map::empty()),
            fuel,
            0,
            t,
        ) {
            Outcome::Done(Ok(_), st1) => eval_sequence_spec(tail(args), inner, st1, fuel, 0, t),
            other => other,
        }
    }
}

/// `eval`: the arguments are evaluated, and the value of the first is
/// evaluated again in the outermost frame.
pub open spec fn eval_eval_spec(
    args: Seq<Value>,
    env: usize,
    st: Store,
    fuel: nat,
    t: Transcript,
) -> Outcome
    decreases fuel, 2nat, 0nat,
{
    match eval_seq_spec(args, env, st, fuel, 0, Seq::empty(), t) {
        Outcome::Done(Ok(vals), st1) => if vals.items().len() == 0 {
            fail_with("wrong arity"@, st1)
        } else {
            eval_spec(vals.items()[0], frames_root(st1.frames, env), st1, fuel, t)
        },
        other => other,
    }
}

/// `quasiquote`: the argument is turned into code, and the code is evaluated.
pub open spec fn eval_quasiquote_spec(
    args: Seq<Value>,
    env: usize,
    st: Store,
    fuel: nat,
    t: Transcript,
) -> Outcome
    decreases fuel, 2nat, 0nat,
{
    if args.len() == 0 {
        fail_with("wrong arity"@, st)
    } else {
        match quasiquote(args[0]) {
            Ok(code) => eval_spec(code, env, st, fuel, t),
            Err(e) => fail(e, st),
        }
    }
}

/// The macro with the parameters, body and frame of a lambda.
pub open spec fn as_macro(f: Value) -> Value {
    match f {
        Value::Lambda { params, body, env, .. } => Value::Macro {
            params,
            body,
            env,
            metadata: Box::new(Value::Nil),
        },
        _ => f,
    }
}

/// `defmacro!`: like `def!`, but the value is a lambda and is bound as a macro.
pub open spec fn eval_macro_spec(
    args: Seq<Value>,
    env: usize,
    st: Store,
    fuel: nat,
    t: Transcript,
) -> Outcome
    decreases fuel, 2nat, 0nat,
{
    if args.len() < 2 {
        fail_with("not enough arguments in call to defmacro!"@, st)
    } else {
        match args[0] {
            Value::Symbol(name, _) => match eval_spec(args[1], env, st, fuel, t) {
                Outcome::Done(Ok(f), st1) => if f is Lambda {
                    ok(as_macro(f), st1.set(env, name, as_macro(f)))
                } else {
                    fail_with("Could not eval macro"@, st1)
                },
                other => other,
            },
            _ => fail(Failure::BadArguments(args[0]), st),
        }
    }
}

/// The form that is left when `v` is expanded for as long as it calls a
/// macro: each time the macro is applied to the form's arguments as they
/// stand, and its result takes the form's place.
pub open spec fn macroexpand_spec(
    v: Value,
    env: usize,
    st: Store,
    fuel: nat,
    t: Transcript,
) -> Outcome
    decreases fuel, 6nat, 0nat,
{
    match macro_of(v, env, st) {
        None => ok(v, st),
        Some(m) => if fuel == 0 {
            too_deep(st)
        } else {
            match m {
                Value::Macro { params, body, env: menv, .. } => match apply_lambda_spec(
                    params,
                    body,
                    menv,
                    tail(v.items()),
                    st,
                    (fuel - 1) as nat,
                    t,
                ) {
                    Outcome::Done(Ok(v1), st1) => macroexpand_spec(v1, env, st1, (fuel - 1) as nat, t),
                    other => other,
                },
                _ => ok(v, st),
            }
        },
    }
}

/// `macroexpand`: the first argument, expanded and not evaluated.
pub open spec fn eval_macroexpand_spec(
    args: Seq<Value>,
    env: usize,
    st: Store,
    fuel: nat,
    t: Transcript,
) -> Outcome
    decreases fuel, 7nat, 0nat,
{
    if args.len() == 0 {
        fail_with("not enough args in call to macroexpand"@, st)
    } else {
        macroexpand_spec(args[0], env, st, fuel, t)
    }
}

/// A handler called with what was caught.
pub open spec fn eval_exception_spec(
    param: Value,
    body: Value,
    exception: Value,
    env: usize,
    st: Store,
    fuel: nat,
    t: Transcript,
) -> Outcome
    decreases fuel, 3nat, 0nat,
{
    apply_lambda_spec(seq![param], seq![body], env, seq![exception], st, fuel, t)
}

/// `try*`: the value of the first argument; where that fails, the handler
/// in the second is called with what was thrown, or with the failure's
/// message.
pub open spec fn eval_try_spec(
    args: Seq<Value>,
    env: usize,
    st: Store,
    fuel: nat,
    t: Transcript,
) -> Outcome
    decreases fuel, 6nat, 0nat,
{
    if args.len() < 2 {
        fail_with("wrong arity"@, st)
    } else {
        match eval_spec(args[0], env, st, fuel, t) {
            Outcome::Done(Err(e), st1) => match eval_catch_spec(args[1]) {
                Ok((param, body)) => eval_exception_spec(
                    param,
                    body,
                    exception_value(e),
                    env,
                    st1,
                    fuel,
                    t,
                ),
                Err(e2) => fail(e2, st1),
            },
            other => other,
        }
    }
}

/// The value of a list that is not empty: a special form where its head
/// names one, else an application.
pub open spec fn eval_list_spec(
    xs: Seq<Value>,
    env: usize,
    st: Store,
    fuel: nat,
    t: Transcript,
) -> Outcome
    decreases fuel, 9nat, 0nat,
{
    if xs.len() == 0 {
        ok(Value::list(xs), st)
    } else {
        match special_form(xs[0]) {
            Some(Form::If) => eval_if_spec(tail(xs), env, st, fuel, t),
            Some(Form::Do) => eval_sequence_spec(tail(xs), env, st, fuel, 0, t),
            Some(Form::Def) => eval_define_spec(tail(xs), env, st, fuel, t),
            Some(Form::Let) => eval_let_spec(tail(xs), env, st, fuel, t),
            Some(Form::Lambda) => Outcome::Done(eval_lambda_spec(tail(xs), env), st),
            Some(Form::Eval) => eval_eval_spec(tail(xs), env, st, fuel, t),
            Some(Form::Quote) => Outcome::Done(eval_quote_spec(tail(xs)), st),
            Some(Form::Quasiquote) => eval_quasiquote_spec(tail(xs), env, st, fuel, t),
            Some(Form::Macro) => eval_macro_spec(tail(xs), env, st, fuel, t),
            Some(Form::Macroexpand) => eval_macroexpand_spec(tail(xs), env, st, fuel, t),
            Some(Form::Try) => eval_try_spec(tail(xs), env, st, fuel, t),
            None => apply_spec(xs[0], tail(xs), env, st, fuel, t),
        }
    }
}

} // verus!
