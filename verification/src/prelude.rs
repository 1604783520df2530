//! The definitions that the interpreter makes in its own language before
//! the first turn of the loop.

use crate::env::Env;
use crate::error::{Error, Trouble};
use crate::heap::Heap;
use crate::host::Host;
use crate::model::{begins, Store, Transcript};
use crate::repl::{rep, rep_spec, Turn};
use crate::text::owned;
use vstd::prelude::*;

verus! {

/// The name under which the interpreter knows itself.
pub const IMPLEMENTATION_NAME: &'static str = "mal-rs";

/// The forms of the prelude, in the order in which they are evaluated.
pub open spec fn prelude_forms() -> Seq<Seq<char>> {
    seq![
        "(def! not (fn* (a) (if a false true)))"@,
        "(def! load-file (fn* (f) (eval (read-string (str \"(do \" (slurp f) \")\")))))"@,
        "(def! *ARGV* (list))"@,
        "(defmacro! cond (fn* (& xs) (if (> (count xs) 0) (list 'if (first xs) (if (> (count xs) 1) (nth xs 1) (throw \"odd number of forms to cond\")) (cons 'cond (rest (rest xs)))))))"@,
        "(def! *gensym-counter* (atom 0))"@,
        "(def! gensym (fn* [] (symbol (str \"G__\" (swap! *gensym-counter* (fn* [x] (+ 1 x)))))))"@,
        "(defmacro! or (fn* (& xs) (if (empty? xs) nil (if (= 1 (count xs)) (first xs) (let* (condvar (gensym)) `(let* (~condvar ~(first xs)) (if ~condvar ~condvar (or ~@(rest xs)))))))))"@,
        "(def! *host-language* \"mal-rs\")"@,
    ]
}

/// The forms of the prelude.
pub fn inputs() -> (r: Vec<&'static str>)
    ensures
        r@.len() == prelude_forms().len(),
        forall|i: int| 0 <= i < r@.len() ==> (#[trigger] r@[i])@ == prelude_forms()[i],
{
    let mut forms: Vec<&'static str> = Vec::new();
    forms.push("(def! not (fn* (a) (if a false true)))");
    forms.push("(def! load-file (fn* (f) (eval (read-string (str \"(do \" (slurp f) \")\")))))");
    forms.push("(def! *ARGV* (list))");
    forms.push(
        "(defmacro! cond (fn* (& xs) (if (> (count xs) 0) (list 'if (first xs) (if (> (count xs) 1) (nth xs 1) (throw \"odd number of forms to cond\")) (cons 'cond (rest (rest xs)))))))",
    );
    forms.push("(def! *gensym-counter* (atom 0))");
    forms.push(
        "(def! gensym (fn* [] (symbol (str \"G__\" (swap! *gensym-counter* (fn* [x] (+ 1 x)))))))",
    );
    forms.push(
        "(defmacro! or (fn* (& xs) (if (empty? xs) nil (if (= 1 (count xs)) (first xs) (let* (condvar (gensym)) `(let* (~condvar ~(first xs)) (if ~condvar ~condvar (or ~@(rest xs)))))))))",
    );
    forms.push("(def! *host-language* \"mal-rs\")");
    forms
}

/// How evaluating the forms from the `i`-th on ends: with the first error
/// and the store it leaves, or with the store after the last form.
pub open spec fn load_spec(
    forms: Seq<Seq<char>>,
    env: usize,
    st: Store,
    fuel: nat,
    i: nat,
    t: Transcript,
) -> Turn
    decreases forms.len() - i,
{
    if i >= forms.len() {
        Turn::Done(Ok(Seq::empty()), st)
    } else {
        match rep_spec(forms[i as int], env, st, fuel, t) {
            Turn::Done(Ok(_), st1) => load_spec(forms, env, st1, fuel, i + 1, t),
            other => other,
        }
    }
}

/// Whether the result of a load and the store it leaves are what `turn` says.
pub open spec fn load_agrees(turn: Turn, r: Result<(), Error>, st: Store) -> bool {
    match turn {
        Turn::Done(res, st2) => st == st2 && match r {
            Ok(_) => res is Ok,
            Err(e) => res == Err::<Seq<char>, Trouble>(e@),
        },
    }
}

/// Evaluates the forms of the prelude in `env`, up to the first that fails.
pub fn load<H: Host>(env: Env, heap: &mut Heap, host: &mut H, fuel: usize) -> (r: Result<(), Error>)
    ensures
        forall|t: Transcript| #[trigger]
            begins(final(heap)@.log, t) ==> begins(old(heap)@.log, t) && load_agrees(
                load_spec(prelude_forms(), env, old(heap)@, fuel as nat, 0, t),
                r,
                final(heap)@,
            ),
{
    let forms = inputs();
    let mut i: usize = 0;
    while i < forms.len()
        invariant
            i <= forms.len(),
            forms@.len() == prelude_forms().len(),
            forall|j: int| 0 <= j < forms@.len() ==> (#[trigger] forms@[j])@ == prelude_forms()[j],
            forall|t: Transcript| #[trigger]
                begins(heap@.log, t) ==> begins(old(heap)@.log, t) && load_spec(
                    prelude_forms(),
                    env,
                    old(heap)@,
                    fuel as nat,
                    0,
                    t,
                ) == load_spec(
                    prelude_forms(),
                    env,
                    heap@,
                    fuel as nat,
                    i as nat,
                    t,
                ),
        decreases forms.len() - i,
    {
        match rep(owned(forms[i]), env, heap, host, fuel) {
            Ok(_) => {},
            Err(e) => {
                return Err(e);
            },
        }
        i += 1;
    }
    Ok(())
}

} // verus!
