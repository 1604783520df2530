use mal::env::core_env;
use mal::error::{Error, EvaluationError};
use mal::heap::Heap;
use mal::host::{Host, Scripted};
use mal::model::HostFn;
use mal::ns::{
    call_host_fn, millis_from, new_from, read_string_outcome, readline_outcome, slurp_outcome,
    string_of,
};
use mal::prelude::load;
use mal::printer::print;
use mal::repl::{load_file_form, rep};
use mal::types::{
    equal, key_of, new_keyword, new_list, new_number, new_string, new_symbol, value_of_key, Assoc,
    LispType, MapKey,
};

const FUEL: usize = 300;

struct Session {
    heap: Heap,
    env: usize,
    host: Scripted,
}

fn session() -> Session {
    let mut heap = Heap::new();
    let env = core_env(&mut heap.envs);
    let mut host = Scripted::new();
    assert!(load(env, &mut heap, &mut host, FUEL).is_ok());
    Session { heap, env, host }
}

fn run(s: &mut Session, input: &str) -> String {
    match rep(input.to_string(), s.env, &mut s.heap, &mut s.host, FUEL) {
        Ok(text) => text,
        Err(Error::EvaluationError(e)) => format!("error: {}", e.to_string(&s.heap)),
        Err(Error::ReaderError(e)) => format!("reader error: {}", e.to_string()),
        Err(Error::ReplError(e)) => format!("repl error: {}", e.to_string()),
    }
}

#[test]
fn arithmetic_folds_from_the_left() {
    let mut s = session();
    assert_eq!(run(&mut s, "(+ 1 2)"), "3");
    assert_eq!(run(&mut s, "(+ 1 2 3 4)"), "10");
    assert_eq!(run(&mut s, "(- 10 1 2)"), "7");
    assert_eq!(run(&mut s, "(* 2 3 4)"), "24");
    assert_eq!(run(&mut s, "(/ 100 5 2)"), "10");
    assert_eq!(run(&mut s, "(/ 7 2)"), "3");
    assert_eq!(run(&mut s, "(/ -7 2)"), "-3");
    assert_eq!(run(&mut s, "(/ 7 -2)"), "-3");
    assert_eq!(run(&mut s, "(- 5 8)"), "-3");
}

#[test]
fn arithmetic_errors() {
    let mut s = session();
    assert_eq!(run(&mut s, "(+ 1)"), "error: not enough args to op");
    assert_eq!(run(&mut s, "(+)"), "error: not enough args to op");
    assert_eq!(run(&mut s, "(/ 1 0)"), "error: division by zero");
    assert_eq!(run(&mut s, "(+ 9223372036854775807 1)"), "error: integer overflow");
    assert_eq!(run(&mut s, "(- -9223372036854775808 1)"), "error: integer overflow");
    assert_eq!(run(&mut s, "(* 4611686018427387904 2)"), "error: integer overflow");
    assert_eq!(run(&mut s, "(/ -9223372036854775808 -1)"), "error: integer overflow");
    assert_eq!(run(&mut s, "(+ 1 \"a\")"), "error: bad inputs for fn: \"a\"");
    assert_eq!(run(&mut s, "(+ nil 1)"), "error: bad inputs for fn: nil");
    assert_eq!(run(&mut s, "(* 2 3 :k)"), "error: bad inputs for fn: :k");
}

#[test]
fn comparisons() {
    let mut s = session();
    assert_eq!(run(&mut s, "(< 1 2)"), "true");
    assert_eq!(run(&mut s, "(< 2 2)"), "false");
    assert_eq!(run(&mut s, "(<= 2 2)"), "true");
    assert_eq!(run(&mut s, "(> 3 2)"), "true");
    assert_eq!(run(&mut s, "(> 2 3)"), "false");
    assert_eq!(run(&mut s, "(>= 2 3)"), "false");
    assert_eq!(run(&mut s, "(>= 3 3)"), "true");
    assert_eq!(run(&mut s, "(< 1)"), "error: could not determine if args are ordered");
    assert_eq!(run(&mut s, "(< 1 nil)"), "error: bad inputs for fn: nil");
    assert_eq!(run(&mut s, "(< \"a\" 1)"), "error: bad inputs for fn: \"a\"");
}

#[test]
fn equality_is_structural() {
    let mut s = session();
    assert_eq!(run(&mut s, "(= 1 1)"), "true");
    assert_eq!(run(&mut s, "(= 1 2)"), "false");
    assert_eq!(run(&mut s, "(= \"a\" \"a\")"), "true");
    assert_eq!(run(&mut s, "(= :a :a)"), "true");
    assert_eq!(run(&mut s, "(= :a \":a\")"), "false");
    assert_eq!(run(&mut s, "(= 'a 'a)"), "true");
    assert_eq!(run(&mut s, "(= nil nil)"), "true");
    assert_eq!(run(&mut s, "(= nil false)"), "false");
    assert_eq!(run(&mut s, "(= (list 1 2) [1 2])"), "true");
    assert_eq!(run(&mut s, "(= [1 [2 '(3)]] (list 1 (list 2 [3])))"), "true");
    assert_eq!(run(&mut s, "(= [1 2] [1 2 3])"), "false");
    assert_eq!(run(&mut s, "(= {:a 1 :b 2} {:b 2 :a 1})"), "true");
    assert_eq!(run(&mut s, "(= {:a 1} {:a 2})"), "false");
    assert_eq!(run(&mut s, "(= {:a 1} {:a 1 :b 2})"), "false");
    assert_eq!(run(&mut s, "(= (with-meta [1] {:m 1}) [1])"), "false");
    assert_eq!(run(&mut s, "(= (with-meta [1] {:m 1}) (with-meta (list 1) {:m 1}))"), "true");
    assert_eq!(run(&mut s, "(= + +)"), "true");
    assert_eq!(run(&mut s, "(= + -)"), "false");
    assert_eq!(run(&mut s, "(= (fn* (a) a) (fn* (a) a))"), "false");
    assert_eq!(run(&mut s, "(= (atom 1) (atom 1))"), "false");
    assert_eq!(run(&mut s, "(= 1)"), "error: could not determine if args are equal");
    assert_eq!(run(&mut s, "(= 1 1 1)"), "error: could not determine if args are equal");
}

#[test]
fn printing_builtins() {
    let mut s = session();
    assert_eq!(run(&mut s, "(pr-str 1 \"a\" :k (list \"b\"))"), "\"1 \\\"a\\\" :k (\\\"b\\\")\"");
    assert_eq!(run(&mut s, "(str 1 \"a\" :k (list \"b\"))"), "\"1a:k(b)\"");
    assert_eq!(run(&mut s, "(str)"), "\"\"");
    assert_eq!(run(&mut s, "(pr-str)"), "\"\"");
    assert_eq!(run(&mut s, "(prn 1 \"a\")"), "nil");
    assert_eq!(run(&mut s, "(println 1 \"a\")"), "nil");
    assert_eq!(run(&mut s, "(println)"), "nil");
    assert_eq!(s.host.printed, vec!["1 \"a\"", "1 a", ""]);
    let args = vec![new_number(1), new_string("x")];
    assert_eq!(string_of(&args, true, ", ", &s.heap), "1, \"x\"");
    assert_eq!(string_of(&args, false, "", &s.heap), "1x");
}

#[test]
fn sequence_constructors_and_predicates() {
    let mut s = session();
    assert_eq!(run(&mut s, "(list)"), "()");
    assert_eq!(run(&mut s, "(list 1 (+ 1 1))"), "(1 2)");
    assert_eq!(run(&mut s, "(vector 1 2)"), "[1 2]");
    assert_eq!(run(&mut s, "(list? (list))"), "true");
    assert_eq!(run(&mut s, "(list? [])"), "false");
    assert_eq!(run(&mut s, "(list?)"), "error: could not determine if seq is list");
    assert_eq!(run(&mut s, "(vector? [1])"), "true");
    assert_eq!(run(&mut s, "(vector? (list))"), "false");
    assert_eq!(run(&mut s, "(sequential? [1])"), "true");
    assert_eq!(run(&mut s, "(sequential? (list))"), "true");
    assert_eq!(run(&mut s, "(sequential? {})"), "false");
    assert_eq!(run(&mut s, "(empty? ())"), "true");
    assert_eq!(run(&mut s, "(empty? [1])"), "false");
    assert_eq!(run(&mut s, "(empty? nil)"), "error: could not determine if seq is empty");
    assert_eq!(run(&mut s, "(count (list 1 2 3))"), "3");
    assert_eq!(run(&mut s, "(count [])"), "0");
    assert_eq!(run(&mut s, "(count nil)"), "0");
    assert_eq!(run(&mut s, "(count 7)"), "error: could not determine count of seq");
}

#[test]
fn sequence_operations() {
    let mut s = session();
    assert_eq!(run(&mut s, "(cons 1 (list 2 3))"), "(1 2 3)");
    assert_eq!(run(&mut s, "(cons 1 [2 3])"), "(1 2 3)");
    assert_eq!(run(&mut s, "(cons (list 1) ())"), "((1))");
    assert_eq!(run(&mut s, "(cons 1 2)"), "error: call to cons failed");
    assert_eq!(run(&mut s, "(cons 1)"), "error: call to cons failed");
    assert_eq!(run(&mut s, "(concat)"), "()");
    assert_eq!(run(&mut s, "(concat (list 1) [2 3] ())"), "(1 2 3)");
    assert_eq!(run(&mut s, "(concat (list 1) 2)"), "error: wrong arg type for concat");
    assert_eq!(run(&mut s, "(nth (list 1 2 3) 0)"), "1");
    assert_eq!(run(&mut s, "(nth [1 2 3] 2)"), "3");
    assert_eq!(run(&mut s, "(nth [1 2 3] 3)"), "error: call to nth failed");
    assert_eq!(run(&mut s, "(nth [1 2 3] -1)"), "error: call to nth failed");
    assert_eq!(run(&mut s, "(nth [1 2 3] nil)"), "error: call to nth failed");
    assert_eq!(run(&mut s, "(nth 5 0)"), "error: call to nth failed");
    assert_eq!(run(&mut s, "(first (list 1 2))"), "1");
    assert_eq!(run(&mut s, "(first [])"), "nil");
    assert_eq!(run(&mut s, "(first nil)"), "nil");
    assert_eq!(run(&mut s, "(first 1)"), "error: call to first failed");
    assert_eq!(run(&mut s, "(rest (list 1 2 3))"), "(2 3)");
    assert_eq!(run(&mut s, "(rest [1])"), "()");
    assert_eq!(run(&mut s, "(rest [])"), "()");
    assert_eq!(run(&mut s, "(rest nil)"), "()");
    assert_eq!(run(&mut s, "(rest 1)"), "error: call to rest failed");
    assert_eq!(run(&mut s, "(conj (list 1 2) 3 4)"), "(4 3 1 2)");
    assert_eq!(run(&mut s, "(conj [1 2] 3 4)"), "[1 2 3 4]");
    assert_eq!(run(&mut s, "(conj (list))"), "()");
    assert_eq!(run(&mut s, "(conj 1 2)"), "error: wrong type of arguments to conj");
    assert_eq!(run(&mut s, "(conj)"), "error: wrong arity to conj");
    assert_eq!(run(&mut s, "(seq (list 1 2))"), "(1 2)");
    assert_eq!(run(&mut s, "(seq [1 2])"), "(1 2)");
    assert_eq!(run(&mut s, "(seq \"abc\")"), "(\"a\" \"b\" \"c\")");
    assert_eq!(run(&mut s, "(seq \"\")"), "nil");
    assert_eq!(run(&mut s, "(seq [])"), "nil");
    assert_eq!(run(&mut s, "(seq ())"), "nil");
    assert_eq!(run(&mut s, "(seq nil)"), "nil");
    assert_eq!(run(&mut s, "(seq 1)"), "error: could not seq this value");
}

#[test]
fn higher_order_builtins() {
    let mut s = session();
    assert_eq!(run(&mut s, "(map (fn* (x) (* x x)) (list 1 2 3))"), "(1 4 9)");
    assert_eq!(run(&mut s, "(map list [1 2])"), "((1) (2))");
    assert_eq!(run(&mut s, "(map first [[1] [2]])"), "(1 2)");
    assert_eq!(run(&mut s, "(map (fn* (x) x) ())"), "()");
    assert_eq!(run(&mut s, "(map)"), "error: wrong arity to map -- missing first arg");
    assert_eq!(run(&mut s, "(map +)"), "error: wrong arity to map -- missing rest args");
    assert_eq!(run(&mut s, "(map 1 [1])"), "error: expected first argument to map to be a lambda value");
    assert_eq!(run(&mut s, "(map + 1)"), "error: expected second argument to map to be a list or vector");
    assert_eq!(run(&mut s, "(map (fn* (x) (throw x)) [1 2])"), "error: 1");
    assert_eq!(run(&mut s, "(apply + (list 1 2))"), "3");
    assert_eq!(run(&mut s, "(apply + 1 2 [3 4])"), "10");
    assert_eq!(run(&mut s, "(apply (fn* (a & b) (list a b)) 1 [2 3])"), "(1 (2 3))");
    assert_eq!(run(&mut s, "(apply list 'a '(b c))"), "(a b c)");
    assert_eq!(run(&mut s, "(apply +)"), "error: wrong number of arguments for fn: nil");
    assert_eq!(run(&mut s, "(apply 1 [1])"), "error: expected first argument to apply to be a function");
    assert_eq!(run(&mut s, "(apply + 1 2)"), "error: last argument to apply must be a list");
}

#[test]
fn type_predicates_and_constructors() {
    let mut s = session();
    assert_eq!(run(&mut s, "(nil? nil)"), "true");
    assert_eq!(run(&mut s, "(nil? false)"), "false");
    assert_eq!(run(&mut s, "(true? true)"), "true");
    assert_eq!(run(&mut s, "(true? 1)"), "false");
    assert_eq!(run(&mut s, "(false? false)"), "true");
    assert_eq!(run(&mut s, "(false? nil)"), "false");
    assert_eq!(run(&mut s, "(symbol? 'a)"), "true");
    assert_eq!(run(&mut s, "(symbol? \"a\")"), "false");
    assert_eq!(run(&mut s, "(keyword? :a)"), "true");
    assert_eq!(run(&mut s, "(keyword? 'a)"), "false");
    assert_eq!(run(&mut s, "(string? \"a\")"), "true");
    assert_eq!(run(&mut s, "(string? :a)"), "false");
    assert_eq!(run(&mut s, "(string?)"), "error: wrong arity to string?");
    assert_eq!(run(&mut s, "(atom? (atom 1))"), "true");
    assert_eq!(run(&mut s, "(atom? 1)"), "false");
    assert_eq!(run(&mut s, "(map? {})"), "true");
    assert_eq!(run(&mut s, "(map? [])"), "false");
    assert_eq!(run(&mut s, "(fn? +)"), "true");
    assert_eq!(run(&mut s, "(fn? (fn* (a) a))"), "true");
    assert_eq!(run(&mut s, "(fn? cond)"), "false");
    assert_eq!(run(&mut s, "(fn? 1)"), "false");
    assert_eq!(run(&mut s, "(nil?)"), "error: wrong arity");
    assert_eq!(run(&mut s, "(symbol \"abc\")"), "abc");
    assert_eq!(run(&mut s, "(symbol 1)"), "error: wrong type to symbol");
    assert_eq!(run(&mut s, "(symbol)"), "error: wrong arity");
    assert_eq!(run(&mut s, "(keyword \"abc\")"), ":abc");
    assert_eq!(run(&mut s, "(keyword :abc)"), ":abc");
    assert_eq!(run(&mut s, "(keyword (keyword \"abc\"))"), ":abc");
    assert_eq!(run(&mut s, "(keyword 1)"), "error: wrong type to keyword");
    assert_eq!(run(&mut s, "(= (keyword \"a\") :a)"), "true");
}

#[test]
fn map_operations() {
    let mut s = session();
    assert_eq!(run(&mut s, "(hash-map)"), "{}");
    assert_eq!(run(&mut s, "(hash-map :a 1 \"b\" 2)"), "{:a 1 \"b\" 2}");
    assert_eq!(run(&mut s, "(hash-map :a)"), "error: need an even number of elements to make a map");
    assert_eq!(run(&mut s, "(hash-map 1 2)"), "error: key value is not hashable");
    assert_eq!(run(&mut s, "(def! m {:a 1 :b 2})"), "{:a 1 :b 2}");
    assert_eq!(run(&mut s, "(assoc m :c 3 :a 9)"), "{:a 9 :b 2 :c 3}");
    assert_eq!(run(&mut s, "m"), "{:a 1 :b 2}");
    assert_eq!(run(&mut s, "(assoc m :c)"), "error: need an even number of elements to make a map");
    assert_eq!(run(&mut s, "(assoc 1 :c 1)"), "error: wrong type of arguments to assoc");
    assert_eq!(run(&mut s, "(assoc)"), "error: wrong arity to assoc");
    assert_eq!(run(&mut s, "(dissoc m :a :zzz)"), "{:b 2}");
    assert_eq!(run(&mut s, "(dissoc m)"), "{:a 1 :b 2}");
    assert_eq!(run(&mut s, "(dissoc m 1)"), "error: wrong type of arguments to dissoc");
    assert_eq!(run(&mut s, "(dissoc 1 :a)"), "error: wrong type of arguments to dissoc");
    assert_eq!(run(&mut s, "(get m :a)"), "1");
    assert_eq!(run(&mut s, "(get m :zzz)"), "nil");
    assert_eq!(run(&mut s, "(get m 5)"), "nil");
    assert_eq!(run(&mut s, "(get nil :a)"), "nil");
    assert_eq!(run(&mut s, "(get 1 :a)"), "error: wrong type of arguments to get");
    assert_eq!(run(&mut s, "(get m)"), "error: wrong arity to get");
    assert_eq!(run(&mut s, "(contains? m :a)"), "true");
    assert_eq!(run(&mut s, "(contains? m :zzz)"), "false");
    assert_eq!(run(&mut s, "(contains? m 1)"), "false");
    assert_eq!(run(&mut s, "(contains? 1 :a)"), "error: wrong type of arguments to contains?");
    assert_eq!(run(&mut s, "(keys m)"), "(:a :b)");
    assert_eq!(run(&mut s, "(keys {\"x\" 1})"), "(\"x\")");
    assert_eq!(run(&mut s, "(vals m)"), "(1 2)");
    assert_eq!(run(&mut s, "(keys 1)"), "error: wrong type of arguments to keys");
    assert_eq!(run(&mut s, "(vals)"), "error: wrong arity to vals");
}

#[test]
fn assoc_methods() {
    let heap = Heap::new();
    let mut a = Assoc::new();
    assert_eq!(a.print(true, &heap), "");
    assert!(a.insert(new_string("k"), new_number(1)).is_ok());
    assert!(a.insert(mal::types::new_keyword(":q"), new_string("v")).is_ok());
    assert!(a.insert(new_string("k"), new_number(2)).is_ok());
    assert!(matches!(a.insert(new_number(1), new_number(2)), Err(EvaluationError::Message(m)) if m == "key value is not hashable"));
    assert_eq!(a.print(true, &heap), "\"k\" 2 :q \"v\"");
    assert_eq!(a.print(false, &heap), "k 2 :q v");
    assert!(matches!(*a.get(&new_string("k")).ok().unwrap(), LispType::Number(2)));
    assert!(matches!(a.get(&new_string("zz")), Err(EvaluationError::Message(m)) if m == "could not find value in map"));
    assert!(matches!(a.get(&new_number(1)), Err(EvaluationError::Message(m)) if m == "key value is not hashable"));
    assert!(matches!(*a.contains(&new_string("k")).ok().unwrap(), LispType::Boolean(true)));
    assert!(matches!(*a.contains(&new_number(1)).ok().unwrap(), LispType::Boolean(false)));
    assert_eq!(print(&a.keys().ok().unwrap(), &heap), "(\"k\" :q)");
    assert_eq!(print(&a.vals().ok().unwrap(), &heap), "(2 \"v\")");
    let mut b = Assoc::from_seq(vec![new_string("k"), new_number(7), new_string("n"), new_number(8)]).ok().unwrap();
    assert!(b.merge(&a).is_ok());
    assert_eq!(b.print(true, &heap), "\"k\" 2 \"n\" 8 :q \"v\"");
    b.remove(&MapKey::Keyword("k".to_string()));
    assert_eq!(b.print(true, &heap), "\"k\" 2 \"n\" 8 :q \"v\"");
    b.remove(&MapKey::String("k".to_string()));
    b.remove(&MapKey::String("absent".to_string()));
    assert_eq!(b.print(true, &heap), "\"n\" 8 :q \"v\"");
    assert!(Assoc::from_seq(vec![new_string("k")]).is_err());
    assert_eq!(a.position(&MapKey::Keyword(":q".to_string())), Some(1));
    assert_eq!(a.position(&MapKey::String(":q".to_string())), None);
    assert_eq!(a.position(&MapKey::String("none".to_string())), None);
}

#[test]
fn a_string_key_and_a_keyword_key_of_one_text_are_two_keys() {
    let heap = Heap::new();
    let m = Assoc::from_seq(vec![new_string(":a"), new_number(1)]).ok().unwrap();
    assert_eq!(m.print(true, &heap), "\":a\" 1");
    assert_eq!(m.print(false, &heap), ":a 1");
    let keys = m.keys().ok().unwrap();
    assert_eq!(print(&keys, &heap), "(\":a\")");
    match &*keys {
        LispType::List(items, _) => {
            assert_eq!(items.len(), 1);
            assert!(matches!(&*items[0], LispType::String(s) if s == ":a"));
            assert!(matches!(*m.contains(&items[0]).ok().unwrap(), LispType::Boolean(true)));
        }
        _ => panic!("expected a list of keys"),
    }
    assert!(matches!(*m.contains(&new_keyword(":a")).ok().unwrap(), LispType::Boolean(false)));
    assert!(m.get(&new_keyword(":a")).is_err());

    let both = Assoc::from_seq(vec![new_string(":a"), new_number(1), new_keyword(":a"), new_number(2)])
        .ok()
        .unwrap();
    assert_eq!(both.bindings.len(), 2);
    assert_eq!(both.print(true, &heap), "\":a\" 1 :a 2");
    assert_eq!(print(&both.keys().ok().unwrap(), &heap), "(\":a\" :a)");
    assert_eq!(print(&both.get(&new_string(":a")).ok().unwrap(), &heap), "1");
    assert_eq!(print(&both.get(&new_keyword(":a")).ok().unwrap(), &heap), "2");
    assert!(m != both);

    let k = key_of(&new_keyword(":k")).unwrap();
    assert!(matches!(&k, MapKey::Keyword(s) if s == ":k"));
    assert!(k.same(&k.copy()));
    assert!(!k.same(&MapKey::String(":k".to_string())));
    assert!(equal(&value_of_key(&k), &new_keyword(":k")));
    assert!(equal(&value_of_key(&MapKey::String(":k".to_string())), &new_string(":k")));
    assert!(key_of(&new_number(1)).is_none());

    let mut s = session();
    assert_eq!(run(&mut s, "{\":a\" 1}"), "{\":a\" 1}");
    assert_eq!(run(&mut s, "(keys {\":a\" 1})"), "(\":a\")");
    assert_eq!(run(&mut s, "(keys {:a 1})"), "(:a)");
    assert_eq!(run(&mut s, "{\":a\" 1 :a 2}"), "{\":a\" 1 :a 2}");
    assert_eq!(run(&mut s, "(get {\":a\" 1} :a)"), "nil");
    assert_eq!(run(&mut s, "(get {\":a\" 1 :a 2} :a)"), "2");
    assert_eq!(run(&mut s, "(contains? {:a 1} \":a\")"), "false");
    assert_eq!(run(&mut s, "(dissoc {\":a\" 1 :a 2} :a)"), "{\":a\" 1}");
    assert_eq!(run(&mut s, "(assoc {:a 1} \":a\" 2)"), "{:a 1 \":a\" 2}");
    assert_eq!(run(&mut s, "(= {:a 1} {\":a\" 1})"), "false");
    assert_eq!(run(&mut s, "(= (read-string (pr-str {\":a\" 1 :a 2})) {\":a\" 1 :a 2})"), "true");
    assert_eq!(run(&mut s, "(str {\":a\" 1})"), "\"{:a 1}\"");
}

#[test]
fn metadata() {
    let mut s = session();
    assert_eq!(run(&mut s, "(meta [1])"), "nil");
    assert_eq!(run(&mut s, "(meta 1)"), "nil");
    assert_eq!(run(&mut s, "(meta (with-meta [1] {:a 1}))"), "{:a 1}");
    assert_eq!(run(&mut s, "(with-meta [1 2] {:a 1})"), "[1 2]");
    assert_eq!(run(&mut s, "(meta (with-meta (list 1) 7))"), "7");
    assert_eq!(run(&mut s, "(meta (with-meta {:k 1} \"m\"))"), "\"m\"");
    assert_eq!(run(&mut s, "(meta (with-meta 'sym :m))"), ":m");
    assert_eq!(run(&mut s, "(meta (with-meta + :m))"), ":m");
    assert_eq!(run(&mut s, "(meta +)"), "nil");
    assert_eq!(run(&mut s, "(def! f (with-meta (fn* (a) (+ a 1)) {:doc \"inc\"}))"), "#<fn>");
    assert_eq!(run(&mut s, "(meta f)"), "{:doc \"inc\"}");
    assert_eq!(run(&mut s, "(f 1)"), "2");
    assert_eq!(run(&mut s, "(meta ^{:b 2} [3])"), "{:b 2}");
    assert_eq!(run(&mut s, "(meta (with-meta cond 1))"), "1");
    assert_eq!(run(&mut s, "(with-meta cond 1)"), "#<macro>");
    assert_eq!(run(&mut s, "(with-meta 1 {})"), "error: type of this argument does not support metadata");
    assert_eq!(run(&mut s, "(with-meta [1])"), "error: wrong arity to with-meta");
    assert_eq!(run(&mut s, "(meta)"), "error: wrong arity to meta");
}

#[test]
fn atoms() {
    let mut s = session();
    assert_eq!(run(&mut s, "(atom)"), "error: wrong arity");
    assert_eq!(run(&mut s, "(deref)"), "error: wrong number of arguments for fn: nil");
    assert_eq!(run(&mut s, "(deref 1)"), "error: wrong type of argument to deref");
    assert_eq!(run(&mut s, "(reset! 1 2)"), "error: wrong type of argument to reset!");
    assert_eq!(run(&mut s, "(reset! (atom 1))"), "error: wrong arity");
    assert_eq!(run(&mut s, "(swap! (atom 1))"), "error: wrong arity to swap!");
    assert_eq!(run(&mut s, "(swap! 1 +)"), "error: wrong type of arguments to swap!");
    assert_eq!(run(&mut s, "(swap! (atom 1) 2)"), "error: wrong type of arguments to swap!");
    assert_eq!(run(&mut s, "(def! a (atom 1))"), "(atom 1)");
    assert_eq!(run(&mut s, "(swap! a (fn* (x) (throw \"no\")))"), "error: \"no\"");
    assert_eq!(run(&mut s, "@a"), "1");
    assert_eq!(run(&mut s, "(def! b a)"), "(atom 1)");
    assert_eq!(run(&mut s, "(reset! b 2)"), "2");
    assert_eq!(run(&mut s, "@a"), "2");
}

#[test]
fn read_string_reads_one_form() {
    let mut s = session();
    assert_eq!(run(&mut s, "(read-string \"(1 2 (3))\")"), "(1 2 (3))");
    assert_eq!(run(&mut s, "(read-string \"7 ;; note\")"), "error: extra input after full form");
    assert_eq!(run(&mut s, "(read-string \"\")"), "error: input was empty");
    assert_eq!(run(&mut s, "(read-string \"(1\")"), "error: did not close seq properly");
    assert_eq!(run(&mut s, "(read-string 1)"), "error: wrong type of first argument");
    assert_eq!(run(&mut s, "(read-string)"), "error: not enough arg in args");
    assert!(read_string_outcome(Err(mal::error::ReaderError::EmptyInput)).is_err());
    assert!(read_string_outcome(Ok(new_number(1))).is_ok());
}

#[test]
fn files_come_from_the_host() {
    let mut s = session();
    s.host.files.push(("lib.mal".to_string(), "(def! one 1)\n(def! two (+ one 1))".to_string()));
    assert_eq!(run(&mut s, "(slurp \"lib.mal\")"), "\"(def! one 1)\\n(def! two (+ one 1))\"");
    assert_eq!(run(&mut s, "(slurp \"missing.mal\")"), "error: slurp could not read file");
    assert_eq!(run(&mut s, "(slurp 1)"), "error: slurp could not get filename from args");
    assert_eq!(run(&mut s, "(slurp)"), "error: slurp could not get filename from args");
    assert_eq!(run(&mut s, "(load-file \"lib.mal\")"), "2");
    assert_eq!(run(&mut s, "two"), "2");
    assert_eq!(load_file_form("lib.mal"), "(load-file \"lib.mal\")");
    assert_eq!(run(&mut s, &load_file_form("lib.mal")), "2");
    assert!(matches!(*slurp_outcome(Some("x".to_string())).ok().unwrap(), LispType::String(_)));
    assert!(slurp_outcome(None).is_err());
}

#[test]
fn lines_come_from_the_host() {
    let mut s = session();
    s.host.input.push("first line".to_string());
    assert_eq!(run(&mut s, "(readline \"> \")"), "\"first line\"");
    assert_eq!(run(&mut s, "(readline \"> \")"), "nil");
    assert_eq!(run(&mut s, "(readline 1)"), "error: wrong type of argument to readline");
    assert_eq!(run(&mut s, "(readline)"), "error: not enough arguments to readline");
    assert!(matches!(*readline_outcome(None).ok().unwrap(), LispType::Nil));
    assert!(matches!(*readline_outcome(Some("l".to_string())).ok().unwrap(), LispType::String(_)));
}

#[test]
fn the_heap_passes_requests_on_to_the_host() {
    let mut heap = Heap::new();
    let mut host = Scripted::new();
    host.files.push(("f".to_string(), "text".to_string()));
    host.input.push("typed".to_string());
    heap.print_line(&mut host, "shown");
    assert_eq!(host.printed, vec!["shown"]);
    assert_eq!(heap.read_file(&mut host, "f"), Some("text".to_string()));
    assert_eq!(heap.read_file(&mut host, "g"), None);
    assert_eq!(heap.read_line(&mut host, "> "), Some("typed".to_string()));
    assert_eq!(heap.read_line(&mut host, "> "), None);
    let (sec, nsec) = heap.read_clock();
    assert!(sec > 1_600_000_000);
    assert!((0..1_000_000_000).contains(&nsec));
    let env = mal::env::empty(&mut heap.envs);
    heap.set(env, "k".to_string(), new_number(4));
    assert_eq!(print(&heap.envs.get(env, "k").ok().unwrap(), &heap), "4");
    let id = heap.new_cell(new_number(1));
    assert_eq!(print(&heap.deref(id).unwrap(), &heap), "1");
    assert!(heap.reset(id, new_number(2)));
    assert!(!heap.reset(id + 1, new_number(3)));
    assert_eq!(print(&heap.deref(id).unwrap(), &heap), "2");
    assert!(heap.deref(id + 1).is_none());
}

#[test]
fn scripted_host_answers_from_its_tables() {
    let mut host = Scripted::new();
    host.print_line("out");
    assert_eq!(host.printed, vec!["out"]);
    host.files.push(("a".to_string(), "1".to_string()));
    host.files.push(("a".to_string(), "2".to_string()));
    assert_eq!(host.read_file("a"), Some("1".to_string()));
    assert_eq!(host.read_file("b"), None);
    host.input.push("x".to_string());
    host.input.push("y".to_string());
    assert_eq!(host.read_line("p"), Some("x".to_string()));
    assert_eq!(host.read_line("p"), Some("y".to_string()));
    assert_eq!(host.read_line("p"), None);
    assert_eq!(host.consumed, 2);
}

#[test]
fn the_clock_gives_milliseconds() {
    let mut s = session();
    let mut heap = Heap::new();
    let mut host = Scripted::new();
    match call_host_fn(HostFn::TimeMs, vec![], &mut heap, &mut host, 0) {
        Ok(v) => match *v {
            LispType::Number(n) => assert!(n > 1_600_000_000_000),
            _ => panic!("expected a number"),
        },
        Err(_) => panic!("expected the time"),
    }
    assert_eq!(run(&mut s, "(<= (time-ms) (time-ms))"), "true");
    assert!(matches!(*millis_from(1, 999_999_999).ok().unwrap(), LispType::Number(1999)));
    assert!(matches!(*millis_from(-2, 800_000_000).ok().unwrap(), LispType::Number(-1200)));
    assert!(matches!(*millis_from(0, 0).ok().unwrap(), LispType::Number(0)));
    assert!(matches!(millis_from(i64::MAX, 0), Err(EvaluationError::Message(m)) if m == "time out of range"));
    assert!(matches!(millis_from(0, -1), Err(EvaluationError::Message(m)) if m == "time out of range"));
}

#[test]
fn parameters_bind_to_arguments() {
    let heap = Heap::new();
    let params = vec![new_symbol("a", None), new_symbol("&", None), new_symbol("r", None)];
    let ns = new_from(&params, vec![new_number(1), new_number(2), new_number(3)]).ok().unwrap();
    assert_eq!(print(ns.get("a").unwrap(), &heap), "1");
    assert_eq!(print(ns.get("r").unwrap(), &heap), "(2 3)");
    assert!(ns.get("&").is_none());
    assert!(matches!(new_from(&params, vec![]), Err(EvaluationError::WrongArity(_))));
    let fixed = vec![new_symbol("a", None)];
    assert!(matches!(new_from(&fixed, vec![]), Err(EvaluationError::WrongArity(_))));
    assert!(matches!(
        new_from(&fixed, vec![new_number(1), new_number(2)]),
        Err(EvaluationError::WrongArity(_))
    ));
    let bad = vec![new_list(vec![], None)];
    assert!(matches!(new_from(&bad, vec![new_number(1)]), Err(EvaluationError::BadArguments(_))));
    let twice = vec![new_symbol("a", None), new_symbol("a", None)];
    let ns = new_from(&twice, vec![new_number(1), new_number(2)]).ok().unwrap();
    assert_eq!(print(ns.get("a").unwrap(), &heap), "2");
}

#[test]
fn error_texts() {
    let heap = Heap::new();
    assert_eq!(mal::error::error_message("m").to_string(&heap), "m");
    assert_eq!(EvaluationError::MissingSymbol("s".to_string()).to_string(&heap), "unbound symbol: s");
    assert_eq!(
        EvaluationError::WrongArity(new_number(1)).to_string(&heap),
        "wrong number of arguments for fn: 1"
    );
    assert_eq!(EvaluationError::BadArguments(new_string("a")).to_string(&heap), "bad inputs for fn: \"a\"");
    assert_eq!(EvaluationError::Exception(new_string("a")).to_string(&heap), "\"a\"");
    assert_eq!(mal::error::ReplError::EvalError("e".to_string()).to_string(), "e");
    assert_eq!(mal::error::ReplError::EOF.to_string(), "");
    assert_eq!(mal::error::ReplError::EmptyOutput.to_string(), "");
    assert_eq!(mal::DEFAULT_PROMPT, "user> ");
}
