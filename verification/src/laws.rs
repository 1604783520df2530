//! Laws of evaluation, proved of the semantics that the evaluator is
//! verified against. They hold whatever the host answers: under every
//! transcript.

use crate::model::{
    distinct_keys, entries_index, entries_index_finds, entries_within, frames_find, items_eq,
    lisp_eq, Entries, Failure, HostFn, Store, Transcript, Value,
};
use crate::ns::{core_bindings, host_value};
use crate::semantics::{
    apply_lambda_spec, apply_spec, call_spec, eval_list_spec, eval_quasiquote_spec,
    eval_quote_spec, eval_seq_spec, eval_spec, form1, form2, host_call_spec, is_macro_call_spec,
    macro_of, macroexpand_spec, ok, pure_call, quasiquote, quasiquote_from, special_form,
    starts_with_symbol, tail, Form, Outcome,
};
use vstd::prelude::*;

verus! {

/// Whether a value evaluates to itself whatever the environment holds: it
/// is no symbol, no list, no vector and no map.
pub open spec fn is_self_evaluating(v: Value) -> bool {
    !(v is Symbol || v is List || v is Vector || v is Dict)
}

/// A value that is no symbol, list, vector or map evaluates to itself, in
/// every environment, at every depth, and leaves the store as it was.
pub proof fn self_evaluation(v: Value, env: usize, st: Store, fuel: nat, t: Transcript)
    requires
        is_self_evaluating(v),
    ensures
        eval_spec(v, env, st, fuel, t) == ok(v, st),
{
}

/// What an expansion leaves is no call of a macro, in the store that the
/// expansion leaves.
pub proof fn expansion_is_no_macro_call(v: Value, env: usize, st: Store, fuel: nat, t: Transcript)
    ensures
        match macroexpand_spec(v, env, st, fuel, t) {
            Outcome::Done(Ok(v1), st1) => !is_macro_call_spec(v1, env, st1),
            _ => true,
        },
    decreases fuel,
{
    match macro_of(v, env, st) {
        None => {},
        Some(m) => {
            if fuel > 0 {
                match m {
                    Value::Macro { params, body, env: menv, .. } => {
                        match apply_lambda_spec(
                            params,
                            body,
                            menv,
                            tail(v.items()),
                            st,
                            (fuel - 1) as nat,
                            t,
                        ) {
                            Outcome::Done(Ok(v1), st1) => {
                                expansion_is_no_macro_call(v1, env, st1, (fuel - 1) as nat, t);
                            },
                            _ => {},
                        }
                    },
                    _ => {},
                }
            }
        },
    }
}

/// Macroexpansion is idempotent: expanding what an expansion gave, in the
/// store that it left, gives the same form and leaves the same store, at
/// every depth.
pub proof fn macroexpand_idempotent(
    v: Value,
    env: usize,
    st: Store,
    fuel: nat,
    again: nat,
    t: Transcript,
    later: Transcript,
)
    ensures
        match macroexpand_spec(v, env, st, fuel, t) {
            Outcome::Done(Ok(v1), st1) => macroexpand_spec(v1, env, st1, again, later) == ok(v1, st1),
            _ => true,
        },
{
    expansion_is_no_macro_call(v, env, st, fuel, t);
}


/// Whether a form holds no `unquote` and no `splice-unquote` where
/// quasiquote looks for them: not as an item of the form or of a list or
/// vector inside it, and no item begins with `splice-unquote`.
pub open spec fn is_plain(v: Value) -> bool
    decreases v, 0nat,
{
    match v {
        Value::List(xs, _) => plain_from(xs, 0),
        Value::Vector(xs, _) => plain_from(xs, 0),
        _ => true,
    }
}

/// Whether the items from `i` on are plain.
pub open spec fn plain_from(xs: Seq<Value>, i: nat) -> bool
    decreases xs, xs.len() - i,
{
    i >= xs.len() || (!xs[i as int].is_symbol_named("unquote"@) && !starts_with_symbol(
        xs[i as int],
        "splice-unquote"@,
    ) && is_plain(xs[i as int]) && plain_from(xs, i + 1))
}

/// The form as quasiquote builds it again: every list or vector in it that
/// is not empty becomes a list without metadata; everything else stays.
pub open spec fn listed(v: Value) -> Value
    decreases v, 0nat,
{
    match v {
        Value::List(xs, _) => if xs.len() > 0 {
            Value::list(listed_from(xs, 0))
        } else {
            v
        },
        Value::Vector(xs, _) => if xs.len() > 0 {
            Value::list(listed_from(xs, 0))
        } else {
            v
        },
        _ => v,
    }
}

/// The items from `i` on, each as quasiquote builds it again.
pub open spec fn listed_from(xs: Seq<Value>, i: nat) -> Seq<Value>
    decreases xs, xs.len() - i,
{
    if i >= xs.len() {
        Seq::empty()
    } else {
        seq![listed(xs[i as int])] + listed_from(xs, i + 1)
    }
}

/// How deep the evaluator goes into the code that quasiquote makes of a form.
pub open spec fn quasi_depth(v: Value) -> nat
    decreases v, 0nat,
{
    match v {
        Value::List(xs, _) => if xs.len() > 0 {
            depth_from(xs, 0)
        } else {
            1
        },
        Value::Vector(xs, _) => if xs.len() > 0 {
            depth_from(xs, 0)
        } else {
            1
        },
        _ => 1,
    }
}

/// The same for the items from `i` on.
pub open spec fn depth_from(xs: Seq<Value>, i: nat) -> nat
    decreases xs, xs.len() - i,
{
    if i >= xs.len() {
        1
    } else if quasi_depth(xs[i as int]) >= depth_from(xs, i + 1) {
        1 + quasi_depth(xs[i as int])
    } else {
        1 + depth_from(xs, i + 1)
    }
}

/// Whether the environment leaves `quote` its meaning and binds `cons` to
/// the builtin: no macro is bound to `quote`, and `cons` is the host's.
pub open spec fn knows_quote_and_cons(env: usize, st: Store) -> bool {
    &&& !(st.get(env, "quote"@) matches Ok(m) && m is Macro)
    &&& st.get(env, "cons"@) matches Ok(Value::Fn(f, _)) && f == HostFn::Cons
}

proof fn names_differ()
    ensures
        special_form(Value::symbol("quote"@)) == Some(Form::Quote),
        special_form(Value::symbol("quasiquote"@)) == Some(Form::Quasiquote),
        special_form(Value::symbol("cons"@)) is None,
{
    reveal_strlit("if");
    reveal_strlit("do");
    reveal_strlit("def!");
    reveal_strlit("let*");
    reveal_strlit("fn*");
    reveal_strlit("eval");
    reveal_strlit("quote");
    reveal_strlit("quasiquote");
    reveal_strlit("defmacro!");
    reveal_strlit("macroexpand");
    reveal_strlit("try*");
    reveal_strlit("cons");
    let c = "cons"@;
    assert(c.len() == 4 && c[0] == 'c');
    assert("eval"@[0] == 'e');
    assert("let*"@[0] == 'l');
    assert("def!"@[0] == 'd');
    assert("try*"@[0] == 't');
    let q = "quote"@;
    assert(q.len() == 5);
    let qq = "quasiquote"@;
    assert(qq.len() == 10);
}

/// A quoted form evaluates to what is quoted.
proof fn eval_of_quote(x: Value, env: usize, st: Store, fuel: nat, t: Transcript)
    requires
        fuel >= 1,
        !(st.get(env, "quote"@) matches Ok(m) && m is Macro),
    ensures
        eval_spec(form1("quote"@, x), env, st, fuel, t) == ok(x, st),
{
    names_differ();
    let form = form1("quote"@, x);
    let xs = seq![Value::symbol("quote"@), x];
    assert(form == Value::List(xs, Box::new(Value::Nil)));
    assert(xs.len() == 2);
    assert(xs[0] == Value::symbol("quote"@));
    assert(macro_of(form, env, st) is None);
    assert(macroexpand_spec(form, env, st, (fuel - 1) as nat, t) == ok(form, st));
    assert(tail(xs) =~= seq![x]);
    assert(eval_quote_spec(tail(xs)) == Ok::<Value, Failure>(x));
    assert(eval_list_spec(xs, env, st, (fuel - 1) as nat, t) == ok(x, st));
}

/// A call of `cons` on two forms evaluates to the value of the first put
/// before the items of the value of the second.
proof fn eval_of_cons(
    a: Value,
    b: Value,
    a1: Value,
    b1: Value,
    env: usize,
    st: Store,
    fuel: nat,
    t: Transcript,
)
    requires
        fuel >= 1,
        knows_quote_and_cons(env, st),
        eval_spec(a, env, st, (fuel - 1) as nat, t) == ok(a1, st),
        eval_spec(b, env, st, (fuel - 1) as nat, t) == ok(b1, st),
        b1.is_sequential(),
    ensures
        eval_spec(form2("cons"@, a, b), env, st, fuel, t) == ok(
            Value::list(seq![a1] + b1.items()),
            st,
        ),
{
    names_differ();
    let f = (fuel - 1) as nat;
    let form = form2("cons"@, a, b);
    let head = Value::symbol("cons"@);
    let xs = seq![head, a, b];
    assert(form == Value::List(xs, Box::new(Value::Nil)));
    assert(xs.len() == 3);
    assert(xs[0] == head);
    assert(macro_of(form, env, st) is None);
    assert(macroexpand_spec(form, env, st, f, t) == ok(form, st));
    let operands = tail(xs);
    assert(operands =~= seq![a, b]);
    let callee = st.get(env, "cons"@)->Ok_0;
    assert(eval_spec(head, env, st, f, t) == ok(callee, st));
    let none = Seq::<Value>::empty();
    assert(none.push(a1) =~= seq![a1]);
    assert(seq![a1].push(b1) =~= seq![a1, b1]);
    assert(eval_seq_spec(operands, env, st, f, 2, seq![a1, b1], t) == ok(
        Value::list(seq![a1, b1]),
        st,
    ));
    assert(eval_seq_spec(operands, env, st, f, 1, seq![a1], t) == ok(Value::list(seq![a1, b1]), st));
    assert(eval_seq_spec(operands, env, st, f, 0, none, t) == ok(Value::list(seq![a1, b1]), st));
    let args = seq![a1, b1];
    assert(Value::list(args).items() == args);
    assert(pure_call(HostFn::Cons, args) == Ok::<Value, Failure>(
        Value::list(seq![a1] + b1.items()),
    ));
    assert(host_call_spec(HostFn::Cons, args, st, f, t) == ok(
        Value::list(seq![a1] + b1.items()),
        st,
    ));
    assert(call_spec(callee, args, st, f, t) == ok(Value::list(seq![a1] + b1.items()), st));
    assert(apply_spec(head, operands, env, st, f, t) == ok(
        Value::list(seq![a1] + b1.items()),
        st,
    ));
    assert(eval_list_spec(xs, env, st, f, t) == ok(Value::list(seq![a1] + b1.items()), st));
}

/// The code that quasiquote makes of a plain form evaluates to the form
/// built again, and leaves the store as it was.
pub proof fn quasiquote_code_evaluates(v: Value, env: usize, st: Store, fuel: nat, t: Transcript)
    requires
        is_plain(v),
        knows_quote_and_cons(env, st),
        fuel >= quasi_depth(v),
    ensures
        quasiquote(v) is Ok,
        eval_spec(quasiquote(v)->Ok_0, env, st, fuel, t) == ok(listed(v), st),
    decreases v, 0nat,
{
    match v {
        Value::List(xs, _) => {
            if xs.len() > 0 {
                quasiquote_items_evaluate(xs, 0, env, st, fuel, t);
            } else {
                eval_of_quote(v, env, st, fuel, t);
            }
        },
        Value::Vector(xs, _) => {
            if xs.len() > 0 {
                quasiquote_items_evaluate(xs, 0, env, st, fuel, t);
            } else {
                eval_of_quote(v, env, st, fuel, t);
            }
        },
        _ => {
            eval_of_quote(v, env, st, fuel, t);
        },
    }
}

/// The same for the items of a form from `i` on.
pub proof fn quasiquote_items_evaluate(
    xs: Seq<Value>,
    i: nat,
    env: usize,
    st: Store,
    fuel: nat,
    t: Transcript,
)
    requires
        plain_from(xs, i),
        knows_quote_and_cons(env, st),
        fuel >= depth_from(xs, i),
    ensures
        quasiquote_from(xs, i) is Ok,
        eval_spec(quasiquote_from(xs, i)->Ok_0, env, st, fuel, t) == ok(
            Value::list(listed_from(xs, i)),
            st,
        ),
    decreases xs, xs.len() - i,
{
    if i >= xs.len() {
        eval_of_quote(Value::list(Seq::empty()), env, st, fuel, t);
    } else {
        let f = (fuel - 1) as nat;
        quasiquote_code_evaluates(xs[i as int], env, st, f, t);
        quasiquote_items_evaluate(xs, i + 1, env, st, f, t);
        let a = quasiquote(xs[i as int])->Ok_0;
        let b = quasiquote_from(xs, i + 1)->Ok_0;
        eval_of_cons(
            a,
            b,
            listed(xs[i as int]),
            Value::list(listed_from(xs, i + 1)),
            env,
            st,
            fuel,
            t,
        );
        assert(quasiquote_from(xs, i) == Ok::<Value, Failure>(form2("cons"@, a, b)));
    }
}

/// Quasiquote is the identity on forms without `unquote` and
/// `splice-unquote`: where the environment leaves `quote` and `quasiquote`
/// their meaning and binds `cons` to the builtin, and the depth allows it,
/// a quasiquoted plain form evaluates to that form, its lists and vectors
/// built again as lists, and the store stays as it was.
pub proof fn quasiquote_identity(v: Value, env: usize, st: Store, fuel: nat, t: Transcript)
    requires
        is_plain(v),
        knows_quote_and_cons(env, st),
        !(st.get(env, "quasiquote"@) matches Ok(m) && m is Macro),
        fuel > quasi_depth(v),
    ensures
        eval_spec(form1("quasiquote"@, v), env, st, fuel, t) == ok(listed(v), st),
{
    names_differ();
    let f = (fuel - 1) as nat;
    let form = form1("quasiquote"@, v);
    let xs = seq![Value::symbol("quasiquote"@), v];
    assert(form == Value::List(xs, Box::new(Value::Nil)));
    assert(xs.len() == 2);
    assert(xs[0] == Value::symbol("quasiquote"@));
    assert(macro_of(form, env, st) is None);
    assert(macroexpand_spec(form, env, st, f, t) == ok(form, st));
    assert(tail(xs) =~= seq![v]);
    quasiquote_code_evaluates(v, env, st, f, t);
    assert(eval_quasiquote_spec(tail(xs), env, st, f, t) == ok(listed(v), st));
    assert(eval_list_spec(xs, env, st, f, t) == ok(listed(v), st));
}

/// Whether a value is a literal: nil, a boolean, a number, a string, a
/// keyword, a symbol, a list or vector of literals, or a map of literals
/// that has no key twice; none with metadata.
pub open spec fn is_literal(v: Value) -> bool
    decreases v, 0nat,
{
    match v {
        Value::Nil => true,
        Value::Boolean(_) => true,
        Value::Number(_) => true,
        Value::String(_) => true,
        Value::Keyword(_) => true,
        Value::Symbol(_, m) => *m is Nil,
        Value::List(xs, m) => *m is Nil && literals_from(xs, 0),
        Value::Vector(xs, m) => *m is Nil && literals_from(xs, 0),
        Value::Dict(es, m) => *m is Nil && distinct_keys(es) && literal_entries(es, 0),
        _ => false,
    }
}

/// Whether the values of the entries from `i` on are literals.
pub open spec fn literal_entries(es: Entries, i: nat) -> bool
    decreases es, es.len() - i,
{
    i >= es.len() || (is_literal(es[i as int].1) && literal_entries(es, i + 1))
}

/// Whether the items from `i` on are literals.
pub open spec fn literals_from(xs: Seq<Value>, i: nat) -> bool
    decreases xs, xs.len() - i,
{
    i >= xs.len() || (is_literal(xs[i as int]) && literals_from(xs, i + 1))
}

proof fn listed_from_index(xs: Seq<Value>, i: nat, k: int)
    requires
        i <= xs.len(),
        0 <= k < xs.len() - i,
    ensures
        listed_from(xs, i).len() == xs.len() - i,
        listed_from(xs, i)[k] == listed(xs[i + k]),
    decreases xs.len() - i,
{
    listed_from_len(xs, i + 1);
    if k > 0 {
        listed_from_index(xs, i + 1, k - 1);
    }
}

proof fn listed_from_len(xs: Seq<Value>, i: nat)
    requires
        i <= xs.len(),
    ensures
        listed_from(xs, i).len() == xs.len() - i,
    decreases xs.len() - i,
{
    if i < xs.len() {
        listed_from_len(xs, i + 1);
    }
}

/// A literal built again is equal to the literal.
pub proof fn listed_literal_is_equal(v: Value)
    requires
        is_literal(v),
    ensures
        lisp_eq(listed(v), v),
    decreases v, 0nat,
{
    match v {
        Value::List(xs, m) => {
            assert(lisp_eq(Value::Nil, *m));
            if xs.len() > 0 {
                listed_from_len(xs, 0);
                listed_items_are_equal(xs, 0);
            } else {
                assert(items_eq(xs, xs, 0));
            }
        },
        Value::Vector(xs, m) => {
            assert(lisp_eq(Value::Nil, *m));
            if xs.len() > 0 {
                listed_from_len(xs, 0);
                listed_items_are_equal(xs, 0);
            } else {
                assert(items_eq(xs, xs, 0));
            }
        },
        Value::Symbol(_, m) => {
            assert(lisp_eq(Value::Nil, *m));
        },
        Value::Dict(_, _) => {
            literal_equals_itself(v);
        },
        _ => {},
    }
}

/// A literal is equal to itself.
pub proof fn literal_equals_itself(v: Value)
    requires
        is_literal(v),
    ensures
        lisp_eq(v, v),
    decreases v, 0nat,
{
    match v {
        Value::Symbol(_, m) => {
            assert(lisp_eq(Value::Nil, *m));
        },
        Value::List(xs, m) => {
            assert(lisp_eq(Value::Nil, *m));
            items_equal_themselves(xs, 0);
        },
        Value::Vector(xs, m) => {
            assert(lisp_eq(Value::Nil, *m));
            items_equal_themselves(xs, 0);
        },
        Value::Dict(es, m) => {
            assert(lisp_eq(Value::Nil, *m));
            entries_equal_themselves(es, 0);
        },
        _ => {},
    }
}

proof fn items_equal_themselves(xs: Seq<Value>, j: nat)
    requires
        literals_from(xs, j),
    ensures
        items_eq(xs, xs, j),
    decreases xs, xs.len() - j,
{
    if j < xs.len() {
        literal_equals_itself(xs[j as int]);
        items_equal_themselves(xs, j + 1);
    }
}

proof fn entries_equal_themselves(es: Entries, j: nat)
    requires
        distinct_keys(es),
        literal_entries(es, j),
    ensures
        entries_within(es, es, j),
    decreases es, es.len() - j,
{
    if j < es.len() {
        let key = es[j as int].0;
        entries_index_finds(es, key, 0);
        assert(es[j as int].0 == key);
        assert(entries_index(es, key) == Some(j));
        literal_equals_itself(es[j as int].1);
        entries_equal_themselves(es, j + 1);
    }
}

proof fn listed_items_are_equal(xs: Seq<Value>, j: nat)
    requires
        literals_from(xs, j),
        j <= xs.len(),
    ensures
        items_eq(listed_from(xs, 0), xs, j),
    decreases xs, xs.len() - j,
{
    listed_from_len(xs, 0);
    if j < xs.len() {
        listed_from_index(xs, 0, j as int);
        listed_literal_is_equal(xs[j as int]);
        listed_items_are_equal(xs, j + 1);
    }
}


/// The core leaves `quote` and `quasiquote` their meaning and binds
/// `cons` to the builtin: a frame of the core alone meets what the
/// quasiquote law asks of the environment.
pub proof fn core_knows_quote_and_cons()
    ensures
        !core_bindings().contains_key("quote"@),
        !core_bindings().contains_key("quasiquote"@),
        core_bindings().contains_key("cons"@),
        core_bindings()["cons"@] == host_value(HostFn::Cons),
{
    reveal_strlit("+");
    reveal_strlit("-");
    reveal_strlit("*");
    reveal_strlit("/");
    reveal_strlit("prn");
    reveal_strlit("pr-str");
    reveal_strlit("str");
    reveal_strlit("println");
    reveal_strlit("list");
    reveal_strlit("list?");
    reveal_strlit("empty?");
    reveal_strlit("count");
    reveal_strlit("=");
    reveal_strlit("<");
    reveal_strlit("<=");
    reveal_strlit(">");
    reveal_strlit(">=");
    reveal_strlit("read-string");
    reveal_strlit("slurp");
    reveal_strlit("cons");
    reveal_strlit("concat");
    reveal_strlit("nth");
    reveal_strlit("first");
    reveal_strlit("rest");
    reveal_strlit("throw");
    reveal_strlit("apply");
    reveal_strlit("map");
    reveal_strlit("nil?");
    reveal_strlit("true?");
    reveal_strlit("false?");
    reveal_strlit("symbol?");
    reveal_strlit("readline");
    reveal_strlit("atom");
    reveal_strlit("atom?");
    reveal_strlit("deref");
    reveal_strlit("reset!");
    reveal_strlit("swap!");
    reveal_strlit("symbol");
    reveal_strlit("keyword");
    reveal_strlit("keyword?");
    reveal_strlit("vector");
    reveal_strlit("vector?");
    reveal_strlit("sequential?");
    reveal_strlit("hash-map");
    reveal_strlit("map?");
    reveal_strlit("assoc");
    reveal_strlit("dissoc");
    reveal_strlit("get");
    reveal_strlit("contains?");
    reveal_strlit("keys");
    reveal_strlit("vals");
    reveal_strlit("time-ms");
    reveal_strlit("conj");
    reveal_strlit("string?");
    reveal_strlit("seq");
    reveal_strlit("meta");
    reveal_strlit("with-meta");
    reveal_strlit("fn?");
    reveal_strlit("quote");
    reveal_strlit("quasiquote");
    assert("+"@.len() == 1);
    assert("-"@.len() == 1);
    assert("*"@.len() == 1);
    assert("/"@.len() == 1);
    assert("prn"@.len() == 3);
    assert("pr-str"@.len() == 6);
    assert("str"@.len() == 3);
    assert("println"@.len() == 7);
    assert("list"@.len() == 4);
    assert("list?"@.len() == 5);
    assert("empty?"@.len() == 6);
    assert("count"@.len() == 5);
    assert("="@.len() == 1);
    assert("<"@.len() == 1);
    assert("<="@.len() == 2);
    assert(">"@.len() == 1);
    assert(">="@.len() == 2);
    assert("read-string"@.len() == 11);
    assert("slurp"@.len() == 5);
    assert("cons"@.len() == 4);
    assert("concat"@.len() == 6);
    assert("nth"@.len() == 3);
    assert("first"@.len() == 5);
    assert("rest"@.len() == 4);
    assert("throw"@.len() == 5);
    assert("apply"@.len() == 5);
    assert("map"@.len() == 3);
    assert("nil?"@.len() == 4);
    assert("true?"@.len() == 5);
    assert("false?"@.len() == 6);
    assert("symbol?"@.len() == 7);
    assert("readline"@.len() == 8);
    assert("atom"@.len() == 4);
    assert("atom?"@.len() == 5);
    assert("deref"@.len() == 5);
    assert("reset!"@.len() == 6);
    assert("swap!"@.len() == 5);
    assert("symbol"@.len() == 6);
    assert("keyword"@.len() == 7);
    assert("keyword?"@.len() == 8);
    assert("vector"@.len() == 6);
    assert("vector?"@.len() == 7);
    assert("sequential?"@.len() == 11);
    assert("hash-map"@.len() == 8);
    assert("map?"@.len() == 4);
    assert("assoc"@.len() == 5);
    assert("dissoc"@.len() == 6);
    assert("get"@.len() == 3);
    assert("contains?"@.len() == 9);
    assert("keys"@.len() == 4);
    assert("vals"@.len() == 4);
    assert("time-ms"@.len() == 7);
    assert("conj"@.len() == 4);
    assert("string?"@.len() == 7);
    assert("seq"@.len() == 3);
    assert("meta"@.len() == 4);
    assert("with-meta"@.len() == 9);
    assert("fn?"@.len() == 3);
    assert("quote"@.len() == 5);
    assert("quasiquote"@.len() == 10);
    assert("list?"@[0] == 'l' && "quote"@[0] == 'q');
    assert("count"@[0] == 'c' && "quote"@[0] == 'q');
    assert("slurp"@[0] == 's' && "quote"@[0] == 'q');
    assert("first"@[0] == 'f' && "quote"@[0] == 'q');
    assert("throw"@[0] == 't' && "quote"@[0] == 'q');
    assert("apply"@[0] == 'a' && "quote"@[0] == 'q');
    assert("true?"@[0] == 't' && "quote"@[0] == 'q');
    assert("atom?"@[0] == 'a' && "quote"@[0] == 'q');
    assert("deref"@[0] == 'd' && "quote"@[0] == 'q');
    assert("swap!"@[0] == 's' && "quote"@[0] == 'q');
    assert("assoc"@[0] == 'a' && "quote"@[0] == 'q');
    assert("list"@[0] == 'l' && "cons"@[0] == 'c');
    assert("rest"@[0] == 'r' && "cons"@[0] == 'c');
    assert("nil?"@[0] == 'n' && "cons"@[0] == 'c');
    assert("atom"@[0] == 'a' && "cons"@[0] == 'c');
    assert("map?"@[0] == 'm' && "cons"@[0] == 'c');
    assert("keys"@[0] == 'k' && "cons"@[0] == 'c');
    assert("vals"@[0] == 'v' && "cons"@[0] == 'c');
    assert("conj"@[3] == 'j' && "cons"@[3] == 's');
    assert("meta"@[0] == 'm' && "cons"@[0] == 'c');
}


/// Quasiquote is the identity on literals: a quasiquoted literal that
/// holds no `unquote` and no `splice-unquote` evaluates to a value that is
/// equal to the literal, and leaves the store as it was.
pub proof fn quasiquote_of_literal(v: Value, env: usize, st: Store, fuel: nat, t: Transcript)
    requires
        is_literal(v),
        is_plain(v),
        knows_quote_and_cons(env, st),
        !(st.get(env, "quasiquote"@) matches Ok(m) && m is Macro),
        fuel > quasi_depth(v),
    ensures
        eval_spec(form1("quasiquote"@, v), env, st, fuel, t) == ok(listed(v), st),
        lisp_eq(listed(v), v),
{
    quasiquote_identity(v, env, st, fuel, t);
    listed_literal_is_equal(v);
}

/// The same in the core's own frame.
pub proof fn quasiquote_of_literal_in_core(
    v: Value,
    env: usize,
    st: Store,
    fuel: nat,
    t: Transcript,
)
    requires
        env < st.frames.len(),
        st.frames[env as int].bindings == core_bindings(),
        st.frames[env as int].outer is None,
        is_literal(v),
        is_plain(v),
        fuel > quasi_depth(v),
    ensures
        eval_spec(form1("quasiquote"@, v), env, st, fuel, t) == ok(listed(v), st),
        lisp_eq(listed(v), v),
{
    quasiquote_identity_in_core(v, env, st, fuel, t);
    listed_literal_is_equal(v);
}

/// In the core's own frame quasiquote is the identity on plain forms.
pub proof fn quasiquote_identity_in_core(v: Value, env: usize, st: Store, fuel: nat, t: Transcript)
    requires
        env < st.frames.len(),
        st.frames[env as int].bindings == core_bindings(),
        st.frames[env as int].outer is None,
        is_plain(v),
        fuel > quasi_depth(v),
    ensures
        eval_spec(form1("quasiquote"@, v), env, st, fuel, t) == ok(listed(v), st),
{
    core_knows_quote_and_cons();
    assert(frames_find(st.frames, env, "quote"@) is None);
    assert(frames_find(st.frames, env, "quasiquote"@) is None);
    assert(frames_find(st.frames, env, "cons"@) == Some(host_value(HostFn::Cons)));
    quasiquote_identity(v, env, st, fuel, t);
}

} // verus!
