use mal::env::core_env;
use mal::error::{Error, EvaluationError, ReaderError, ReplError};
use mal::heap::Heap;
use mal::host::Scripted;
use mal::prelude::{inputs, load, IMPLEMENTATION_NAME};
use mal::readline::{trim, DefaultReader};
use mal::repl::{
    after_prelude, after_script, after_turn, argv_list, bind_argv, rep, rep_from_file,
    rep_from_reader, Action, ARGV_SYMBOL, GREETING_FORM,
};
use mal::printer::print;
use mal::types::{
    new_list, new_map_from_fn, new_number, new_string, new_symbol, new_vector, Assoc, MapKey,
};

const FUEL: usize = 300;

fn shown(action: Action) -> String {
    match action {
        Action::Print(s) => format!("print {}", s),
        Action::Report(s) => format!("report {}", s),
        Action::Skip => "skip".to_string(),
        Action::Quit => "quit".to_string(),
    }
}

#[test]
fn a_turn_reads_evaluates_and_prints() {
    let mut heap = Heap::new();
    let env = core_env(&mut heap.envs);
    let mut host = Scripted::new();
    assert_eq!(rep("(+ 1 2)".to_string(), env, &mut heap, &mut host, FUEL).ok().unwrap(), "3");
    assert_eq!(rep("\"a\\nb\"".to_string(), env, &mut heap, &mut host, FUEL).ok().unwrap(), "\"a\\nb\"");
    assert!(matches!(
        rep("(".to_string(), env, &mut heap, &mut host, FUEL),
        Err(Error::ReaderError(ReaderError::Message(_)))
    ));
    assert!(matches!(
        rep("nope".to_string(), env, &mut heap, &mut host, FUEL),
        Err(Error::EvaluationError(EvaluationError::MissingSymbol(_)))
    ));
    assert!(matches!(
        rep("not".to_string(), env, &mut heap, &mut host, FUEL),
        Err(Error::EvaluationError(EvaluationError::MissingSymbol(_)))
    ));
}

#[test]
fn the_prelude_loads_in_the_core() {
    let mut heap = Heap::new();
    let env = core_env(&mut heap.envs);
    let mut host = Scripted::new();
    assert!(load(env, &mut heap, &mut host, FUEL).is_ok());
    assert_eq!(rep("(not 1)".to_string(), env, &mut heap, &mut host, FUEL).ok().unwrap(), "false");
    assert_eq!(inputs().len(), 8);
    assert_eq!(IMPLEMENTATION_NAME, "mal-rs");
    assert!(inputs()[7].contains(IMPLEMENTATION_NAME));
    assert_eq!(rep(GREETING_FORM.to_string(), env, &mut heap, &mut host, FUEL).ok().unwrap(), "nil");
    assert_eq!(host.printed, vec!["Mal [mal-rs]"]);
}

#[test]
fn the_prelude_stops_at_its_first_error() {
    let mut heap = Heap::new();
    let env = mal::env::empty(&mut heap.envs);
    let mut host = Scripted::new();
    assert!(matches!(
        load(env, &mut heap, &mut host, FUEL),
        Err(Error::EvaluationError(EvaluationError::MissingSymbol(_)))
    ));
    assert!(matches!(
        load(env, &mut heap, &mut host, 0),
        Err(Error::EvaluationError(EvaluationError::Message(_)))
    ));
}

#[test]
fn the_loop_decides_what_to_show() {
    let heap = Heap::new();
    assert_eq!(shown(after_turn(&Ok("3".to_string()), &heap)), "print 3");
    assert_eq!(shown(after_turn(&Err(Error::ReaderError(ReaderError::EmptyInput)), &heap)), "skip");
    assert_eq!(
        shown(after_turn(&Err(Error::ReaderError(ReaderError::Message("m".to_string()))), &heap)),
        "report m"
    );
    assert_eq!(
        shown(after_turn(&Err(Error::ReaderError(ReaderError::ExtraInput(vec![], 0))), &heap)),
        "report extra input after full form"
    );
    assert_eq!(
        shown(after_turn(&Err(Error::EvaluationError(EvaluationError::MissingSymbol("x".to_string()))), &heap)),
        "report unbound symbol: x"
    );
    assert_eq!(
        shown(after_turn(&Err(Error::EvaluationError(EvaluationError::Exception(new_string("boom")))), &heap)),
        "report \"boom\""
    );
    assert_eq!(shown(after_turn(&Err(Error::ReplError(ReplError::EmptyOutput)), &heap)), "skip");
    assert_eq!(
        shown(after_turn(&Err(Error::ReplError(ReplError::EvalError("e".to_string()))), &heap)),
        "report e"
    );
    assert_eq!(shown(after_turn(&Err(Error::ReplError(ReplError::EOF)), &heap)), "quit");

    assert_eq!(shown(after_script(&Ok("3".to_string()), &heap)), "print 3");
    assert_eq!(
        shown(after_script(&Err(Error::EvaluationError(mal::error::error_message("bad"))), &heap)),
        "report bad"
    );
    assert_eq!(shown(after_script(&Err(Error::ReaderError(ReaderError::EmptyInput)), &heap)), "skip");
    assert_eq!(shown(after_script(&Err(Error::ReplError(ReplError::EOF)), &heap)), "skip");

    assert_eq!(shown(after_prelude(&Ok(()), &heap)), "skip");
    assert_eq!(shown(after_prelude(&Err(Error::ReplError(ReplError::EmptyOutput)), &heap)), "skip");
    assert_eq!(
        shown(after_prelude(&Err(Error::ReaderError(ReaderError::Message("r".to_string()))), &heap)),
        "report r"
    );
    assert_eq!(
        shown(after_prelude(&Err(Error::EvaluationError(mal::error::error_message("e"))), &heap)),
        "report e"
    );
}

#[test]
fn the_end_of_input_ends_the_loop() {
    let mut heap = Heap::new();
    let env = core_env(&mut heap.envs);
    let mut host = Scripted::new();
    assert!(matches!(
        rep_from_reader(None, env, &mut heap, &mut host, FUEL),
        Err(Error::ReplError(ReplError::EOF))
    ));
    assert_eq!(
        rep_from_reader(Some("(* 2 3)".to_string()), env, &mut heap, &mut host, FUEL).ok().unwrap(),
        "6"
    );
}

#[test]
fn a_script_sees_its_arguments() {
    let mut heap = Heap::new();
    let env = core_env(&mut heap.envs);
    let mut host = Scripted::new();
    assert!(load(env, &mut heap, &mut host, FUEL).is_ok());
    host.files.push(("script.mal".to_string(), "(def! n (count *ARGV*))\n(list n *ARGV*)".to_string()));
    bind_argv(&vec!["one".to_string(), "two".to_string()], env, &mut heap);
    assert_eq!(
        rep_from_file("script.mal", env, &mut heap, &mut host, FUEL).ok().unwrap(),
        "(2 (one two))"
    );
    assert_eq!(print(&argv_list(&vec![]), &heap), "()");
    assert_eq!(ARGV_SYMBOL, "*ARGV*");
    assert!(matches!(
        rep_from_file("absent.mal", env, &mut heap, &mut host, FUEL),
        Err(Error::EvaluationError(EvaluationError::Message(_)))
    ));
}

#[test]
fn lines_are_trimmed() {
    assert_eq!(trim("  (+ 1 2) \n"), "(+ 1 2)");
    assert_eq!(trim("\t\r\n"), "");
    assert_eq!(trim(""), "");
    assert_eq!(trim("a b"), "a b");
    assert_eq!(trim("\u{a0}\u{2003}x\u{3000}"), "x");
    assert_eq!(trim(" \u{200b} "), "\u{200b}");
    for text in ["  x  ", "\n", " a \t b ", "\u{85}y\u{1680}", "\u{2028}\u{2029}z\u{202f}\u{205f}"] {
        assert_eq!(trim(text), text.trim());
    }
    let reader = DefaultReader::new("user> ".to_string());
    assert_eq!(reader.prompt, "user> ");
    assert_eq!(reader.line(Some(6), " (a) \n"), Some("(a)".to_string()));
    assert_eq!(reader.line(Some(1), "\n"), Some("".to_string()));
    assert_eq!(reader.line(Some(0), ""), None);
    assert_eq!(reader.line(None, "left over"), None);
}

#[test]
fn errors_convert_into_the_common_error() {
    assert!(matches!(Error::from(ReaderError::EmptyInput), Error::ReaderError(ReaderError::EmptyInput)));
    assert!(matches!(Error::from(ReplError::EOF), Error::ReplError(ReplError::EOF)));
    assert!(matches!(
        Error::from(mal::error::error_message("m")),
        Error::EvaluationError(EvaluationError::Message(_))
    ));
}

#[test]
fn values_compare_with_the_equality_operator() {
    assert!(new_list(vec![new_number(1)], None) == new_vector(vec![new_number(1)], None));
    assert!(new_number(1) != new_number(2));
    assert!(new_symbol("a", None) == new_symbol("a", None));
    assert!(new_symbol("a", Some(new_number(1))) != new_symbol("a", None));
    let a = Assoc::from_seq(vec![new_string("k"), new_number(1), new_string("l"), new_number(2)]).ok().unwrap();
    let b = Assoc::from_seq(vec![new_string("l"), new_number(2), new_string("k"), new_number(1)]).ok().unwrap();
    let c = Assoc::from_seq(vec![new_string("k"), new_number(1)]).ok().unwrap();
    assert!(a == b);
    assert!(a != c);
    assert!(c != a);
}

#[test]
fn a_map_is_made_from_a_function_of_its_bindings() {
    let heap = Heap::new();
    let m = Assoc::from_seq(vec![new_string("a"), new_number(1), new_string("b"), new_number(2)]).ok().unwrap();
    let doubled = new_map_from_fn(&m, |k, v| {
        let n = match *v {
            mal::types::LispType::Number(n) => n,
            _ => 0,
        };
        let text = match k {
            MapKey::String(s) => s,
            MapKey::Keyword(s) => s,
        };
        Ok((MapKey::String(format!("{}{}", text, text)), new_number(n * 2)))
    })
    .ok()
    .unwrap();
    assert_eq!(print(&doubled, &heap), "{\"aa\" 2 \"bb\" 4}");
    let merged = new_map_from_fn(&m, |_, v| Ok((MapKey::String("same".to_string()), v))).ok().unwrap();
    assert_eq!(print(&merged, &heap), "{\"same\" 2}");
    let failed = new_map_from_fn(&m, |k, v| {
        if k.same(&MapKey::String("b".to_string())) {
            Err(mal::error::error_message("no b"))
        } else {
            Ok((k, v))
        }
    });
    assert!(matches!(failed, Err(EvaluationError::Message(m)) if m == "no b"));
}
