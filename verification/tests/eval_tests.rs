use mal::env::{core_env, empty_from};
use mal::error::{Error, EvaluationError};
use mal::eval::{apply_lambda, call_value, eval, eval_quasiquote_for, is_macro_call, macroexpand};
use mal::heap::Heap;
use mal::host::Scripted;
use mal::model::HostFn;
use mal::prelude::load;
use mal::printer::{pr_str, print};
use mal::reader::read;
use mal::repl::rep;
use mal::types::{equal, new_fn, new_list, new_number, new_string, new_symbol, LispType, LispValue};

const FUEL: usize = 300;

struct Session {
    heap: Heap,
    env: usize,
    host: Scripted,
}

fn session() -> Session {
    let mut heap = Heap::new();
    let env = core_env(&mut heap.envs);
    let mut host = Scripted::new();
    assert!(load(env, &mut heap, &mut host, FUEL).is_ok());
    Session { heap, env, host }
}

fn run(s: &mut Session, input: &str) -> String {
    match rep(input.to_string(), s.env, &mut s.heap, &mut s.host, FUEL) {
        Ok(text) => text,
        Err(Error::EvaluationError(e)) => format!("error: {}", e.to_string(&s.heap)),
        Err(Error::ReaderError(e)) => format!("reader error: {}", e.to_string()),
        Err(Error::ReplError(e)) => format!("repl error: {}", e.to_string()),
    }
}

fn value(s: &mut Session, input: &str) -> LispValue {
    let ast = read(input.to_string()).ok().unwrap();
    eval(&ast, s.env, &mut s.heap, &mut s.host, FUEL).ok().unwrap()
}

#[test]
fn nested_arithmetic() {
    let mut s = session();
    assert_eq!(run(&mut s, "(+ 1 2 (* 3 4))"), "15");
}

#[test]
fn recursive_factorial() {
    let mut s = session();
    assert_eq!(run(&mut s, "(def! fact (fn* (n) (if (<= n 1) 1 (* n (fact (- n 1))))))"), "#<fn>");
    assert_eq!(run(&mut s, "(fact 6)"), "720");
}

#[test]
fn let_bindings_see_earlier_ones() {
    let mut s = session();
    assert_eq!(run(&mut s, "(let* (a 1 b (+ a 1)) (+ a b))"), "3");
}

#[test]
fn user_macro_unless() {
    let mut s = session();
    assert_eq!(run(&mut s, "(defmacro! unless (fn* (p a b) (list 'if p b a)))"), "#<macro>");
    assert_eq!(run(&mut s, "(unless false 1 2)"), "1");
    assert_eq!(run(&mut s, "(unless true 1 2)"), "2");
}

#[test]
fn atom_swap_and_deref() {
    let mut s = session();
    assert_eq!(run(&mut s, "(def! a (atom 0))"), "(atom 0)");
    assert_eq!(run(&mut s, "(swap! a (fn* (x) (+ x 10)))"), "10");
    assert_eq!(run(&mut s, "(deref a)"), "10");
    assert_eq!(run(&mut s, "(swap! a + 1 2)"), "13");
    assert_eq!(run(&mut s, "@a"), "13");
    assert_eq!(run(&mut s, "(reset! a (list 1))"), "(1)");
    assert_eq!(run(&mut s, "a"), "(atom (1))");
}

#[test]
fn try_catches_a_thrown_value() {
    let mut s = session();
    let input = "(try* (throw {\"msg\" \"oops\"}) (catch* e (get e \"msg\")))";
    assert_eq!(run(&mut s, input), "\"oops\"");
    let v = value(&mut s, input);
    assert_eq!(pr_str(&v, true, &s.heap), "\"oops\"");
    assert_eq!(pr_str(&v, false, &s.heap), "oops");
}

#[test]
fn quasiquote_with_unquote_and_splice() {
    let mut s = session();
    assert_eq!(run(&mut s, "`(1 ~(+ 1 1) ~@(list 3 4))"), "(1 2 3 4)");
}

#[test]
fn atoms_of_the_language_evaluate_to_themselves() {
    let mut s = session();
    for text in ["nil", "true", "false", "7", "-7", "\"text\"", ":kw", "()"] {
        assert_eq!(run(&mut s, text), text);
    }
    let f = new_fn(HostFn::Add, None);
    let again = eval(&f, s.env, &mut s.heap, &mut s.host, 0).ok().unwrap();
    assert!(matches!(*again, LispType::Fn(HostFn::Add, _)));
    let n = eval(&new_number(5), 99, &mut s.heap, &mut s.host, 0).ok().unwrap();
    assert!(equal(&n, &new_number(5)));
}

#[test]
fn symbols_are_looked_up() {
    let mut s = session();
    assert_eq!(run(&mut s, "(def! x 3)"), "3");
    assert_eq!(run(&mut s, "x"), "3");
    assert_eq!(run(&mut s, "nope"), "error: unbound symbol: nope");
    assert_eq!(run(&mut s, "+"), "#<host-fn>");
}

#[test]
fn vectors_and_maps_evaluate_their_items() {
    let mut s = session();
    assert_eq!(run(&mut s, "[1 (+ 1 1) [(* 2 2)]]"), "[1 2 [4]]");
    assert_eq!(run(&mut s, "{:a (+ 1 1) \"b\" [(+ 1 2)]}"), "{:a 2 \"b\" [3]}");
    assert_eq!(run(&mut s, "[nope]"), "error: unbound symbol: nope");
}

#[test]
fn if_takes_nil_and_false_for_false() {
    let mut s = session();
    assert_eq!(run(&mut s, "(if true 1 2)"), "1");
    assert_eq!(run(&mut s, "(if false 1 2)"), "2");
    assert_eq!(run(&mut s, "(if nil 1 2)"), "2");
    assert_eq!(run(&mut s, "(if 0 1 2)"), "1");
    assert_eq!(run(&mut s, "(if \"\" 1 2)"), "1");
    assert_eq!(run(&mut s, "(if () 1 2)"), "1");
    assert_eq!(run(&mut s, "(if false 1)"), "nil");
    assert_eq!(run(&mut s, "(if true)"), "error: wrong arity");
    assert_eq!(run(&mut s, "(if true 1 (nope))"), "1");
}

#[test]
fn do_gives_the_last_value() {
    let mut s = session();
    assert_eq!(run(&mut s, "(do 1 2 3)"), "3");
    assert_eq!(run(&mut s, "(do (def! y 4) (+ y 1))"), "5");
    assert_eq!(run(&mut s, "(do)"), "error: could not eval sequence");
    assert_eq!(run(&mut s, "(do (nope) (def! z 1))"), "error: unbound symbol: nope");
    assert_eq!(run(&mut s, "z"), "error: unbound symbol: z");
}

#[test]
fn def_binds_in_the_current_frame() {
    let mut s = session();
    assert_eq!(run(&mut s, "(def! a 1)"), "1");
    assert_eq!(run(&mut s, "(let* (b 2) (do (def! a 5) a))"), "5");
    assert_eq!(run(&mut s, "a"), "1");
    assert_eq!(run(&mut s, "(def! a)"), "error: wrong arity");
    assert_eq!(run(&mut s, "(def! 1 2)"), "error: bad inputs for fn: 1");
}

#[test]
fn let_makes_a_frame_of_its_own() {
    let mut s = session();
    assert_eq!(run(&mut s, "(def! x 1)"), "1");
    assert_eq!(run(&mut s, "(let* [x 2 y (* x 10)] y)"), "20");
    assert_eq!(run(&mut s, "x"), "1");
    assert_eq!(run(&mut s, "(let* (x 2) 1 2 x)"), "2");
    assert_eq!(run(&mut s, "(let* (x 2 dangling) x)"), "2");
    assert_eq!(run(&mut s, "(let*)"), "error: wrong arity");
    assert_eq!(run(&mut s, "(let* 1 2)"), "error: wrong type!");
    assert_eq!(run(&mut s, "(let* (1 2) 3)"), "error: bad inputs for fn: 1");
    assert_eq!(run(&mut s, "(let* (q (nope)) 3)"), "error: unbound symbol: nope");
    assert_eq!(run(&mut s, "(let* (q 1))"), "error: could not eval sequence");
}

#[test]
fn closures_keep_their_frame() {
    let mut s = session();
    assert_eq!(run(&mut s, "(def! adder (fn* (n) (fn* (m) (+ n m))))"), "#<fn>");
    assert_eq!(run(&mut s, "(def! add5 (adder 5))"), "#<fn>");
    assert_eq!(run(&mut s, "(add5 3)"), "8");
    assert_eq!(run(&mut s, "((adder 1) 1)"), "2");
    assert_eq!(run(&mut s, "((fn* (a b) (do a b)) 1 2)"), "2");
}

#[test]
fn rest_parameters_take_what_is_left() {
    let mut s = session();
    assert_eq!(run(&mut s, "((fn* (a b & c) (list a b c)) 1 2 3 4)"), "(1 2 (3 4))");
    assert_eq!(run(&mut s, "((fn* (a b & c) (list a b c)) 1 2)"), "(1 2 ())");
    assert_eq!(run(&mut s, "((fn* (& c) c))"), "()");
    assert_eq!(run(&mut s, "((fn* (a b & c) a) 1)"), "error: wrong number of arguments for fn: (a b & c)");
    assert_eq!(run(&mut s, "((fn* (a) a))"), "error: wrong number of arguments for fn: (a)");
    assert_eq!(run(&mut s, "((fn* (a) a) 1 2)"), "error: wrong number of arguments for fn: (a)");
    assert_eq!(run(&mut s, "((fn* (a 1) a) 1 2)"), "error: bad inputs for fn: (a 1)");
    assert_eq!(run(&mut s, "(fn* (a))"), "error: wrong arity");
    assert_eq!(run(&mut s, "(fn* 1 2)"), "error: bad inputs for fn: 1");
}

#[test]
fn only_callables_can_be_applied() {
    let mut s = session();
    assert_eq!(run(&mut s, "(1 2)"), "error: bad inputs for fn: 1");
    assert_eq!(run(&mut s, "(\"f\")"), "error: bad inputs for fn: \"f\"");
    assert_eq!(run(&mut s, "((list 1) 2)"), "error: bad inputs for fn: (1)");
}

#[test]
fn operands_are_evaluated_left_to_right() {
    let mut s = session();
    assert_eq!(run(&mut s, "(def! log (atom ()))"), "(atom ())");
    assert_eq!(run(&mut s, "(def! note (fn* (x) (do (swap! log conj x) x)))"), "#<fn>");
    assert_eq!(run(&mut s, "(list (note 1) (note 2) (note 3))"), "(1 2 3)");
    assert_eq!(run(&mut s, "@log"), "(3 2 1)");
}

#[test]
fn quote_leaves_its_argument_alone() {
    let mut s = session();
    assert_eq!(run(&mut s, "(quote (+ 1 2))"), "(+ 1 2)");
    assert_eq!(run(&mut s, "'nope"), "nope");
    assert_eq!(run(&mut s, "(quote)"), "error: wrong arity");
}

#[test]
fn quasiquote_expansion_is_code() {
    let heap = Heap::new();
    let cases = [
        ("x", "(quote x)"),
        ("7", "(quote 7)"),
        ("()", "(quote ())"),
        ("[]", "(quote [])"),
        ("(unquote y)", "y"),
        ("(a b)", "(cons (quote a) (cons (quote b) (quote ())))"),
        ("[a b]", "(cons (quote a) (cons (quote b) (quote ())))"),
        ("((splice-unquote y) z)", "(concat y (cons (quote z) (quote ())))"),
        ("(a (unquote b))", "(cons (quote a) (cons b (quote ())))"),
        ("(a unquote b)", "(cons (quote a) b)"),
        ("((a))", "(cons (cons (quote a) (quote ())) (quote ()))"),
    ];
    for (input, want) in cases {
        let ast = read(input.to_string()).ok().unwrap();
        let code = eval_quasiquote_for(&ast).ok().unwrap();
        assert_eq!(print(&code, &heap), want);
    }
    let bare = read("(unquote)".to_string()).ok().unwrap();
    assert!(matches!(eval_quasiquote_for(&bare), Err(EvaluationError::WrongArity(_))));
    let splice = read("((splice-unquote))".to_string()).ok().unwrap();
    assert!(matches!(eval_quasiquote_for(&splice), Err(EvaluationError::BadArguments(_))));
}

#[test]
fn quasiquote_of_a_literal_is_the_literal() {
    let mut s = session();
    for text in ["7", "sym", "\"s\"", ":k", "(1 2 (3 (4)))", "(a (b c) \"d\" :e)", "()"] {
        let quoted = format!("`{}", text);
        assert_eq!(run(&mut s, &quoted), text);
    }
    assert_eq!(run(&mut s, "`[1 [2]]"), "(1 (2))");
    assert_eq!(run(&mut s, "(= `[1 [2]] [1 [2]])"), "true");
    assert_eq!(run(&mut s, "(= `(1 {:k [2 \"s\"] \":k\" (3)} [4]) (list 1 {:k [2 \"s\"] \":k\" (list 3)} [4]))"), "true");
    assert_eq!(run(&mut s, "(= `(1 {:k \"s\" \":k\" 3} [4]) '(1 {:k \"s\" \":k\" 3} [4]))"), "true");
    assert_eq!(run(&mut s, "`{:a (1 2)}"), "{:a (1 2)}");
    assert_eq!(run(&mut s, "(quasiquote)"), "error: wrong arity");
}

#[test]
fn macros_expand_before_evaluation() {
    let mut s = session();
    assert_eq!(run(&mut s, "(defmacro! twice (fn* (x) (list 'do x x)))"), "#<macro>");
    assert_eq!(run(&mut s, "(def! n (atom 0))"), "(atom 0)");
    assert_eq!(run(&mut s, "(twice (swap! n + 1))"), "2");
    assert_eq!(run(&mut s, "(macroexpand (twice (f)))"), "(do (f) (f))");
    assert_eq!(run(&mut s, "(macroexpand (+ 1 2))"), "(+ 1 2)");
    assert_eq!(run(&mut s, "(macroexpand 7)"), "7");
    assert_eq!(run(&mut s, "(macroexpand)"), "error: not enough args in call to macroexpand");
    assert_eq!(run(&mut s, "(defmacro! m 1)"), "error: Could not eval macro");
    assert_eq!(run(&mut s, "(defmacro! m)"), "error: not enough arguments in call to defmacro!");
    assert_eq!(run(&mut s, "(defmacro! 1 (fn* () 1))"), "error: bad inputs for fn: 1");
    assert_eq!(run(&mut s, "(twice)"), "error: wrong number of arguments for fn: (x)");
}

#[test]
fn macroexpansion_runs_until_the_head_is_no_macro() {
    let mut s = session();
    assert_eq!(run(&mut s, "(defmacro! one (fn* () '(two)))"), "#<macro>");
    assert_eq!(run(&mut s, "(defmacro! two (fn* () '(+ 1 2)))"), "#<macro>");
    assert_eq!(run(&mut s, "(macroexpand (one))"), "(+ 1 2)");
    assert_eq!(run(&mut s, "(one)"), "3");
    let form = read("(one)".to_string()).ok().unwrap();
    assert!(is_macro_call(&form, s.env, &s.heap));
    let once = macroexpand(form, s.env, &mut s.heap, &mut s.host, FUEL).ok().unwrap();
    assert!(!is_macro_call(&once, s.env, &s.heap));
    let twice = macroexpand(once.clone(), s.env, &mut s.heap, &mut s.host, FUEL).ok().unwrap();
    assert!(equal(&once, &twice));
    assert_eq!(print(&twice, &s.heap), "(+ 1 2)");
}

#[test]
fn try_turns_errors_into_values() {
    let mut s = session();
    assert_eq!(run(&mut s, "(try* 1 (catch* e 2))"), "1");
    assert_eq!(run(&mut s, "(try* (throw 7) (catch* e (+ e 1)))"), "8");
    assert_eq!(run(&mut s, "(try* (throw) (catch* e e))"), "nil");
    assert_eq!(run(&mut s, "(try* nope (catch* e e))"), "\"'nope' not found\"");
    assert_eq!(run(&mut s, "(try* (do) (catch* e e))"), "\"could not eval sequence\"");
    assert_eq!(run(&mut s, "(try* ((fn* (a) a)) (catch* e e))"), "\"wrong arity\"");
    assert_eq!(run(&mut s, "(try* (+ 1 \"a\") (catch* e e))"), "\"bad arguments to fn\"");
    assert_eq!(run(&mut s, "(try* (throw 1))"), "error: wrong arity");
    assert_eq!(run(&mut s, "(try* (throw 1) (catch* e))"), "error: wrong arity to catch handler");
    assert_eq!(run(&mut s, "(try* (throw 1) 5)"), "error: wrong arity to catch handler");
    assert_eq!(
        run(&mut s, "(try* (throw 1) (caught e e))"),
        "error: no catch handler supplied -- missing catch* ?"
    );
    assert_eq!(run(&mut s, "(try* 1 (garbage))"), "1");
    assert_eq!(run(&mut s, "(try* (throw 1) (catch* e (throw (+ e 1))))"), "error: 2");
    assert_eq!(run(&mut s, "(throw (list 1 \"a\"))"), "error: (1 \"a\")");
}

#[test]
fn eval_runs_in_the_outermost_frame() {
    let mut s = session();
    assert_eq!(run(&mut s, "(def! x 1)"), "1");
    assert_eq!(run(&mut s, "(let* (x 2) (eval 'x))"), "1");
    assert_eq!(run(&mut s, "(let* (y 2) (eval (list '+ y 1)))"), "3");
    assert_eq!(run(&mut s, "(let* (z 5) (eval '(def! w 9)))"), "9");
    assert_eq!(run(&mut s, "w"), "9");
    assert_eq!(run(&mut s, "(eval)"), "error: wrong arity");
    assert_eq!(run(&mut s, "(eval (read-string \"(+ 2 3)\"))"), "5");
}

#[test]
fn depth_is_bounded() {
    let mut s = session();
    assert_eq!(run(&mut s, "(def! forever (fn* (n) (forever (+ n 1))))"), "#<fn>");
    let form = read("(forever 0)".to_string()).ok().unwrap();
    match eval(&form, s.env, &mut s.heap, &mut s.host, 40) {
        Err(EvaluationError::Message(m)) => assert_eq!(m, "evaluation too deep"),
        _ => panic!("expected the depth to run out"),
    }
    match eval(&form, s.env, &mut s.heap, &mut s.host, 0) {
        Err(EvaluationError::Message(m)) => assert_eq!(m, "evaluation too deep"),
        _ => panic!("expected the depth to run out"),
    }
    assert_eq!(run(&mut s, "(defmacro! again (fn* () '(again)))"), "#<macro>");
    let form = read("(again)".to_string()).ok().unwrap();
    assert!(matches!(
        macroexpand(form, s.env, &mut s.heap, &mut s.host, 30),
        Err(EvaluationError::Message(_))
    ));
}

#[test]
fn lambdas_can_be_called_from_outside() {
    let mut s = session();
    let f = value(&mut s, "(fn* (a & more) (list a (count more)))");
    let r = call_value(&f, vec![new_number(1), new_number(2), new_number(3)], &mut s.heap, &mut s.host, FUEL)
        .ok()
        .unwrap();
    assert_eq!(print(&r, &s.heap), "(1 2)");
    let plus = new_fn(HostFn::Add, None);
    let r = call_value(&plus, vec![new_number(1), new_number(2)], &mut s.heap, &mut s.host, FUEL).ok().unwrap();
    assert_eq!(print(&r, &s.heap), "3");
    assert!(matches!(
        call_value(&new_string("f"), vec![], &mut s.heap, &mut s.host, FUEL),
        Err(EvaluationError::BadArguments(_))
    ));
    let inner = empty_from(&mut s.heap.envs, s.env);
    s.heap.envs.set(inner, "k".to_string(), new_number(10));
    let params = vec![new_symbol("x", None)];
    let body = vec![new_list(vec![new_symbol("+", None), new_symbol("x", None), new_symbol("k", None)], None)];
    let r = apply_lambda(&params, &body, inner, vec![new_number(5)], &mut s.heap, &mut s.host, FUEL).ok().unwrap();
    assert_eq!(print(&r, &s.heap), "15");
}

#[test]
fn prelude_definitions_work() {
    let mut s = session();
    assert_eq!(run(&mut s, "(gensym)"), "G__1");
    assert_eq!(run(&mut s, "(gensym)"), "G__2");
    assert_eq!(run(&mut s, "(not true)"), "false");
    assert_eq!(run(&mut s, "(not nil)"), "true");
    assert_eq!(run(&mut s, "*ARGV*"), "()");
    assert_eq!(run(&mut s, "*host-language*"), "\"mal-rs\"");
    assert_eq!(run(&mut s, "(cond false 1 true 2)"), "2");
    assert_eq!(run(&mut s, "(cond false 1 nil 2)"), "nil");
    assert_eq!(run(&mut s, "(cond true 1 (nope) 2)"), "1");
    assert_eq!(run(&mut s, "(cond false 1 true)"), "error: \"odd number of forms to cond\"");
    assert_eq!(run(&mut s, "(or)"), "nil");
    assert_eq!(run(&mut s, "(or 7)"), "7");
    assert_eq!(run(&mut s, "(or nil false 3 (nope))"), "3");
    assert_eq!(run(&mut s, "(or nil false)"), "false");
    assert_eq!(run(&mut s, "(symbol? (gensym))"), "true");
    assert_eq!(run(&mut s, "(= (gensym) (gensym))"), "false");
}

#[test]
fn reader_errors_reach_the_caller() {
    let mut s = session();
    assert_eq!(run(&mut s, ""), "reader error: ");
    assert_eq!(run(&mut s, "(1 2"), "reader error: did not close seq properly");
    assert_eq!(run(&mut s, "1 2"), "reader error: extra input after full form");
}
