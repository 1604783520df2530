use mal::env::core_env;
use mal::error::Error;
use mal::heap::Heap;
use mal::host::Scripted;
use mal::prelude::load;
use mal::repl::rep;

const FUEL: usize = 300;

struct Session {
    heap: Heap,
    env: usize,
    host: Scripted,
}

fn session() -> Session {
    let mut heap = Heap::new();
    let env = core_env(&mut heap.envs);
    let mut host = Scripted::new();
    assert!(load(env, &mut heap, &mut host, FUEL).is_ok());
    Session { heap, env, host }
}

fn run(s: &mut Session, input: &str) -> String {
    match rep(input.to_string(), s.env, &mut s.heap, &mut s.host, FUEL) {
        Ok(text) => text,
        Err(Error::EvaluationError(e)) => format!("error: {}", e.to_string(&s.heap)),
        Err(Error::ReaderError(e)) => format!("reader error: {}", e.to_string()),
        Err(Error::ReplError(e)) => format!("repl error: {}", e.to_string()),
    }
}

#[test]
fn mutual_recursion() {
    let mut s = session();
    run(&mut s, "(def! even? (fn* (n) (if (= n 0) true (odd? (- n 1)))))");
    run(&mut s, "(def! odd? (fn* (n) (if (= n 0) false (even? (- n 1)))))");
    assert_eq!(run(&mut s, "(even? 10)"), "true");
    assert_eq!(run(&mut s, "(odd? 7)"), "true");
    assert_eq!(run(&mut s, "(even? 7)"), "false");
}

#[test]
fn fibonacci_and_sums() {
    let mut s = session();
    run(&mut s, "(def! fib (fn* (n) (if (< n 2) n (+ (fib (- n 1)) (fib (- n 2))))))");
    assert_eq!(run(&mut s, "(fib 15)"), "610");
    run(&mut s, "(def! sum (fn* (xs) (if (empty? xs) 0 (+ (first xs) (sum (rest xs))))))");
    assert_eq!(run(&mut s, "(sum (list 1 2 3 4 5 6 7 8 9 10))"), "55");
    run(&mut s, "(def! range (fn* (a b) (if (>= a b) () (cons a (range (+ a 1) b)))))");
    assert_eq!(run(&mut s, "(sum (range 0 20))"), "190");
    assert_eq!(run(&mut s, "(count (range 0 20))"), "20");
}

#[test]
fn higher_order_functions() {
    let mut s = session();
    run(&mut s, "(def! compose (fn* (f g) (fn* (x) (f (g x)))))");
    run(&mut s, "(def! inc (fn* (x) (+ x 1)))");
    run(&mut s, "(def! double (fn* (x) (* x 2)))");
    assert_eq!(run(&mut s, "((compose inc double) 5)"), "11");
    assert_eq!(run(&mut s, "(map (compose double inc) [1 2 3])"), "(4 6 8)");
    run(&mut s, "(def! reduce (fn* (f acc xs) (if (empty? xs) acc (reduce f (f acc (first xs)) (rest xs)))))");
    assert_eq!(run(&mut s, "(reduce + 0 [1 2 3 4])"), "10");
    assert_eq!(run(&mut s, "(reduce (fn* (acc x) (conj acc x)) [] (list 1 2))"), "[1 2]");
    assert_eq!(run(&mut s, "(apply map (list inc [1 2]))"), "(2 3)");
}

#[test]
fn counters_close_over_atoms() {
    let mut s = session();
    run(&mut s, "(def! make-counter (fn* () (let* (n (atom 0)) (fn* () (swap! n + 1)))))");
    run(&mut s, "(def! c1 (make-counter))");
    run(&mut s, "(def! c2 (make-counter))");
    assert_eq!(run(&mut s, "(c1)"), "1");
    assert_eq!(run(&mut s, "(c1)"), "2");
    assert_eq!(run(&mut s, "(c2)"), "1");
    assert_eq!(run(&mut s, "(list (c1) (c2) (c1))"), "(3 2 4)");
}

#[test]
fn macros_build_code() {
    let mut s = session();
    run(&mut s, "(defmacro! when (fn* (c & body) `(if ~c (do ~@body) nil)))");
    assert_eq!(run(&mut s, "(when true 1 2 3)"), "3");
    assert_eq!(run(&mut s, "(when false (nope))"), "nil");
    assert_eq!(run(&mut s, "(macroexpand (when x a b))"), "(if x (do a b) nil)");
    run(&mut s, "(defmacro! swap-args (fn* (f a b) (list f b a)))");
    assert_eq!(run(&mut s, "(swap-args - 1 10)"), "9");
    assert_eq!(run(&mut s, "(let* (x 5) `(x ~x ~@(list x x) [~x]))"), "(x 5 5 5 (5))");
    assert_eq!(run(&mut s, "`(1 `(2 ~(+ 1 2)))"), "(1 (quasiquote (2 3)))");
    assert_eq!(run(&mut s, "(cond (= 1 2) :a (= 1 1) :b \"else\" :c)"), ":b");
    assert_eq!(run(&mut s, "(or (= 1 2) (< 3 2) :last)"), ":last");
}

#[test]
fn programs_print_as_they_go() {
    let mut s = session();
    run(&mut s, "(def! shout (fn* (x) (do (prn x) (println \"got\" x) x)))");
    assert_eq!(run(&mut s, "(map shout (list \"a\" :b 3))"), "(\"a\" :b 3)");
    assert_eq!(
        s.host.printed,
        vec!["\"a\"", "got a", ":b", "got :b", "3", "got 3"]
    );
}

#[test]
fn a_file_of_several_forms_loads() {
    let mut s = session();
    s.host.files.push((
        "prog.mal".to_string(),
        ";; a program\n(def! sq (fn* (x) (* x x))) ; square\n(def! answer (sq 7))\n(prn answer)\n answer\n".to_string(),
    ));
    assert_eq!(run(&mut s, "(load-file \"prog.mal\")"), "49");
    assert_eq!(run(&mut s, "(sq 3)"), "9");
    assert_eq!(s.host.printed, vec!["49"]);
    s.host.files.push(("bad.mal".to_string(), "(def! a 1) (nope)".to_string()));
    assert_eq!(run(&mut s, "(load-file \"bad.mal\")"), "error: unbound symbol: nope");
    assert_eq!(run(&mut s, "a"), "1");
    s.host.files.push(("open.mal".to_string(), "(def! b 1".to_string()));
    assert_eq!(run(&mut s, "(load-file \"open.mal\")"), "error: did not close seq properly");
    s.host.files.push(("tail-comment.mal".to_string(), "(def! c 1) ; no newline".to_string()));
    assert_eq!(
        run(&mut s, "(load-file \"tail-comment.mal\")"),
        "error: did not close seq properly"
    );
}

#[test]
fn an_interactive_program_reads_lines() {
    let mut s = session();
    s.host.input.push("(+ 2 3)".to_string());
    s.host.input.push("quit".to_string());
    run(&mut s, "(def! ask (fn* () (let* (line (readline \"calc> \")) (if (= line \"quit\") :bye (eval (read-string line))))))");
    assert_eq!(run(&mut s, "(ask)"), "5");
    assert_eq!(run(&mut s, "(ask)"), ":bye");
    assert_eq!(run(&mut s, "(ask)"), "error: wrong type of first argument");
}

#[test]
fn strings_round_trip_through_the_language() {
    let mut s = session();
    assert_eq!(run(&mut s, "(str \"a\" \"b\\nc\" \"\\\\\")"), "\"ab\\nc\\\\\"");
    assert_eq!(run(&mut s, "(read-string (pr-str \"x\\\"y\\\\z\\n\"))"), "\"x\\\"y\\\\z\\n\"");
    assert_eq!(run(&mut s, "(= (read-string (pr-str [1 \"two\" :three {:four 4}])) [1 \"two\" :three {:four 4}])"), "true");
    assert_eq!(run(&mut s, "(count (seq \"héllo\"))"), "5");
    assert_eq!(run(&mut s, "(apply str (seq \"abc\"))"), "\"abc\"");
    assert_eq!(run(&mut s, "(symbol? (symbol \"x y\"))"), "true");
}
