use mal::env::{core_env, empty, empty_from, new, root, EnvData};
use mal::ns;
use mal::types::{new_number, new_symbol, LispType};

#[test]
fn test_nesting() {
    let mut envs = EnvData::new();
    let one = empty(&mut envs);
    envs.set(one, "a".to_string(), new_symbol("a", None));
    let two = empty_from(&mut envs, one);
    envs.set(two, "b".to_string(), new_symbol("b", None));

    let onea = envs.get(one, "a");
    match onea {
        Ok(x) => match *x {
            LispType::Symbol(ref s, _) => assert!(s.as_str() == "a"),
            _ => panic!("wrong ast type"),
        },
        Err(_) => panic!("missing binding"),
    }

    let oneb = envs.get(one, "b");
    assert!(oneb.is_err());

    let twob = envs.get(two, "b");
    match twob {
        Ok(x) => match *x {
            LispType::Symbol(ref s, _) => assert!(s.as_str() == "b"),
            _ => panic!("wrong ast type"),
        },
        Err(_) => panic!("could not get binding"),
    }
    let twoa = envs.get(two, "a");
    match twoa {
        Ok(x) => match *x {
            LispType::Symbol(ref s, _) => assert!(s.as_str() == "a"),
            _ => panic!("wrong ast type"),
        },
        Err(_) => panic!("could not get binding"),
    }
}

fn number_in(envs: &EnvData, env: usize, key: &str) -> Option<i64> {
    match envs.get(env, key) {
        Ok(v) => match *v {
            LispType::Number(n) => Some(n),
            _ => None,
        },
        Err(_) => None,
    }
}

#[test]
fn inner_binding_shadows_outer() {
    let mut envs = EnvData::new();
    let outer = empty(&mut envs);
    envs.set(outer, "n".to_string(), new_number(1));
    let inner = empty_from(&mut envs, outer);
    envs.set(inner, "n".to_string(), new_number(2));
    assert_eq!(number_in(&envs, inner, "n"), Some(2));
    assert_eq!(number_in(&envs, outer, "n"), Some(1));
}

#[test]
fn set_overwrites_in_the_same_frame() {
    let mut envs = EnvData::new();
    let env = empty(&mut envs);
    envs.set(env, "n".to_string(), new_number(1));
    envs.set(env, "n".to_string(), new_number(5));
    assert_eq!(number_in(&envs, env, "n"), Some(5));
}

#[test]
fn missing_symbol_names_the_key() {
    let mut envs = EnvData::new();
    let env = empty(&mut envs);
    match envs.get(env, "nope") {
        Err(mal::error::EvaluationError::MissingSymbol(s)) => assert_eq!(s, "nope"),
        _ => panic!("expected a missing symbol"),
    }
}

#[test]
fn dangling_handle_binds_nothing() {
    let mut envs = EnvData::new();
    envs.set(7, "n".to_string(), new_number(1));
    assert_eq!(envs.len(), 0);
    assert!(envs.get(7, "n").is_err());
    assert_eq!(root(&envs, 7), 7);
}

#[test]
fn root_walks_to_the_outermost_frame() {
    let mut envs = EnvData::new();
    let a = empty(&mut envs);
    let b = empty_from(&mut envs, a);
    let c = empty_from(&mut envs, b);
    let other = empty(&mut envs);
    assert_eq!(root(&envs, c), a);
    assert_eq!(root(&envs, b), a);
    assert_eq!(root(&envs, a), a);
    assert_eq!(root(&envs, other), other);
}

#[test]
fn new_frame_takes_its_bindings() {
    let mut envs = EnvData::new();
    let outer = empty(&mut envs);
    let bindings = ns::new(vec![
        ("x".to_string(), new_number(1)),
        ("y".to_string(), new_number(2)),
        ("x".to_string(), new_number(3)),
    ]);
    let env = new(&mut envs, Some(outer), bindings);
    assert_eq!(number_in(&envs, env, "x"), Some(3));
    assert_eq!(number_in(&envs, env, "y"), Some(2));
    assert_eq!(number_in(&envs, outer, "x"), None);
}

#[test]
fn core_binds_the_builtins() {
    let mut envs = EnvData::new();
    let env = core_env(&mut envs);
    for name in ["+", "-", "*", "/", "cons", "concat", "swap!", "with-meta", "time-ms", "fn?"] {
        match envs.get(env, name) {
            Ok(v) => assert!(matches!(*v, LispType::Fn(_, _))),
            Err(_) => panic!("builtin is not bound"),
        }
    }
    assert!(envs.get(env, "no-such-builtin").is_err());
}
