use mal::heap::Heap;
use mal::model::HostFn;
use mal::printer::{pr_seq, pr_str, print, unread_keyword, unread_str};
use mal::types::{
    new_atom, new_boolean, new_fn, new_keyword, new_lambda, new_list, new_macro, new_map_from_seq,
    new_nil, new_number, new_string, new_symbol, new_vector,
};

#[test]
fn test_print_symbol() {
    let heap = Heap::new();
    let input = "foobar";
    let ast = new_symbol(&input, None);
    let output = print(&ast, &heap);
    if output.as_str() != input {
        panic!("not equal")
    }
}

#[test]
fn test_print_number() {
    let heap = Heap::new();
    let ast = new_number(3);
    let output = print(&ast, &heap);
    if output.as_str() != "3" {
        panic!("not equal")
    }
}

#[test]
fn test_print_list() {
    let heap = Heap::new();
    let ast = new_list(vec![new_symbol("+", None), new_number(2), new_number(3)], None);
    let output = print(&ast, &heap);
    if output.as_str() != "(+ 2 3)" {
        panic!("not equal")
    }
}

#[test]
fn prints_atoms_of_every_kind() {
    let heap = Heap::new();
    assert_eq!(print(&new_nil(), &heap), "nil");
    assert_eq!(print(&new_boolean(true), &heap), "true");
    assert_eq!(print(&new_boolean(false), &heap), "false");
    assert_eq!(print(&new_number(0), &heap), "0");
    assert_eq!(print(&new_number(-42), &heap), "-42");
    assert_eq!(print(&new_number(1234567890), &heap), "1234567890");
    assert_eq!(print(&new_number(i64::MAX), &heap), "9223372036854775807");
    assert_eq!(print(&new_number(i64::MIN), &heap), "-9223372036854775808");
    assert_eq!(print(&new_keyword(":kw"), &heap), ":kw");
    assert_eq!(print(&new_fn(HostFn::Add, None), &heap), "#<host-fn>");
    assert_eq!(print(&new_lambda(vec![], vec![new_nil()], 0, None), &heap), "#<fn>");
    assert_eq!(print(&new_macro(vec![], vec![new_nil()], 0, None), &heap), "#<macro>");
}

#[test]
fn strings_print_readably_or_plainly() {
    let heap = Heap::new();
    let s = new_string("a\"b\\c\nd");
    assert_eq!(pr_str(&s, true, &heap), "\"a\\\"b\\\\c\\nd\"");
    assert_eq!(pr_str(&s, false, &heap), "a\"b\\c\nd");
    assert_eq!(unread_str("plain"), "\"plain\"");
    assert_eq!(unread_str(""), "\"\"");
    assert_eq!(unread_keyword(":k"), ":k");
}

#[test]
fn collections_print_with_their_brackets() {
    let heap = Heap::new();
    assert_eq!(print(&new_list(vec![], None), &heap), "()");
    assert_eq!(print(&new_vector(vec![], None), &heap), "[]");
    let v = new_vector(vec![new_number(1), new_list(vec![new_string("x")], None)], None);
    assert_eq!(print(&v, &heap), "[1 (\"x\")]");
    assert_eq!(pr_str(&v, false, &heap), "[1 (x)]");
    let m = new_map_from_seq(vec![
        new_keyword(":a"),
        new_number(1),
        new_string("b"),
        new_vector(vec![new_number(2)], None),
    ])
    .ok()
    .unwrap();
    assert_eq!(print(&m, &heap), "{:a 1 \"b\" [2]}");
    assert_eq!(pr_str(&m, false, &heap), "{:a 1 b [2]}");
    assert_eq!(pr_seq(&vec![new_number(1), new_number(2)], true, &heap), "1 2");
    assert_eq!(pr_seq(&vec![], true, &heap), "");
}

#[test]
fn atoms_print_what_they_hold() {
    let mut heap = Heap::new();
    let a = new_atom(new_string("x"), &mut heap);
    assert_eq!(print(&a, &heap), "(atom \"x\")");
    assert_eq!(pr_str(&a, false, &heap), "(atom \"x\")");
    let b = new_atom(a.clone(), &mut heap);
    assert_eq!(print(&b, &heap), "(atom (atom \"x\"))");
}

#[test]
fn an_atom_that_holds_itself_prints_in_finite_text() {
    let mut heap = Heap::new();
    let a = new_atom(new_nil(), &mut heap);
    assert!(heap.reset(0, a.clone()));
    assert_eq!(print(&a, &heap), "(atom (atom ...))");
}
