use mal::error::ReaderError;
use mal::heap::Heap;
use mal::printer::print;
use mal::reader::{
    boolean_from, keyword_from, nil_from, number_from, read, read_form, read_str, read_tokens,
    rest_is_blank,
    string_from, symbol_from, token_from, tokenizer, Direction, Reader, Token,
};
use mal::types::{equal, new_keyword, new_list, new_number, new_string, new_symbol, LispType};

#[test]
fn test_tokenizer() {
    let inputstr = "(+ 1 (* 1 1 1) (- 3 2 1))";
    let tokens = tokenizer(inputstr.to_string());
    for t in tokens.iter() {
        println!("{:?}", t)
    }
    assert_eq!(tokens.len(), 16);
    assert!(matches!(tokens[0], Token::List(Direction::Open)));
    assert!(matches!(tokens[15], Token::List(Direction::Close)));
    match &tokens[1] {
        Token::Atom(s) => assert_eq!(s, "+"),
        _ => panic!("expected an atom"),
    }
}

#[test]
fn test_reader() {
    let inputstr = "(+ 1 (* 1 1 1) (- 3 2 1)) ;; abc \n (+ 1 2)";
    let tokens = tokenizer(inputstr.to_string());
    let mut reader = Reader::new(tokens);
    println!("{}", inputstr);
    let mut seen = 0;
    while let Some(token) = reader.next() {
        println!("{:?}", token);
        seen += 1;
    }
    assert_eq!(seen, 22);
    assert!(reader.is_empty());
}

#[test]
fn test_read_form() {
    let heap = Heap::new();
    let inputstr = r#"~@(a b c)"#;
    let tokens = tokenizer(inputstr.to_string());
    let mut reader = Reader::new(tokens);
    let ast = read_form(&mut reader).unwrap();
    println!("{} => ", inputstr);
    println!("{}", print(&ast, &heap));
    assert_eq!(print(&ast, &heap), "(splice-unquote (a b c))");
}

fn printed(input: &str) -> String {
    let heap = Heap::new();
    match read(input.to_string()) {
        Ok(v) => print(&v, &heap),
        Err(e) => format!("error: {}", e.to_string()),
    }
}

#[test]
fn tokens_are_cut_as_the_pattern_says() {
    let tokens = tokenizer("[1, {:a \"x y\"}] ; rest".to_string());
    let texts: Vec<String> = tokens.iter().map(|t| format!("{:?}", t)).collect();
    assert_eq!(
        texts,
        vec![
            "Vector(Open)",
            "Atom(\"1\")",
            "Dict(Open)",
            "Atom(\":a\")",
            "Atom(\"\\\"x y\\\"\")",
            "Dict(Close)",
            "Vector(Close)",
            "Comment(\"; rest\")",
        ]
    );
}

#[test]
fn token_from_classifies_text() {
    assert!(matches!(token_from("("), Token::List(Direction::Open)));
    assert!(matches!(token_from(")"), Token::List(Direction::Close)));
    assert!(matches!(token_from("["), Token::Vector(Direction::Open)));
    assert!(matches!(token_from("]"), Token::Vector(Direction::Close)));
    assert!(matches!(token_from("{"), Token::Dict(Direction::Open)));
    assert!(matches!(token_from("}"), Token::Dict(Direction::Close)));
    assert!(matches!(token_from(";x"), Token::Comment(_)));
    assert!(matches!(token_from("abc"), Token::Atom(_)));
    assert!(matches!(token_from(""), Token::Atom(_)));
}

#[test]
fn atoms_are_classified_in_order() {
    assert_eq!(printed("nil"), "nil");
    assert_eq!(printed("true"), "true");
    assert_eq!(printed("false"), "false");
    assert_eq!(printed("42"), "42");
    assert_eq!(printed("-7"), "-7");
    assert_eq!(printed("+7"), "7");
    assert_eq!(printed(":kw"), ":kw");
    assert_eq!(printed("\"hi\""), "\"hi\"");
    assert_eq!(printed("abc"), "abc");
    assert_eq!(printed("-"), "-");
    assert_eq!(printed("12ab"), "12ab");
    assert!(matches!(*read("12ab".to_string()).ok().unwrap(), LispType::Symbol(_, _)));
    assert!(matches!(*read("99999999999999999999".to_string()).ok().unwrap(), LispType::Symbol(_, _)));
    assert!(matches!(
        *read("9223372036854775807".to_string()).ok().unwrap(),
        LispType::Number(9223372036854775807)
    ));
    assert!(matches!(
        *read("-9223372036854775808".to_string()).ok().unwrap(),
        LispType::Number(i64::MIN)
    ));
    assert!(matches!(*read("9223372036854775808".to_string()).ok().unwrap(), LispType::Symbol(_, _)));
}

#[test]
fn atom_readers_say_why_they_fail() {
    assert!(nil_from("nil").is_ok());
    assert!(matches!(nil_from("x"), Err(ReaderError::Message(m)) if m == "could not parse nil"));
    assert!(boolean_from("true").is_ok());
    assert!(matches!(boolean_from("x"), Err(ReaderError::Message(m)) if m == "could not parse boolean from this token"));
    assert!(number_from("12").is_ok());
    assert!(matches!(number_from(""), Err(ReaderError::Message(m)) if m == "could not parse number from this token"));
    assert!(matches!(number_from("-"), Err(ReaderError::Message(_))));
    assert!(matches!(number_from("1 "), Err(ReaderError::Message(_))));
    assert!(keyword_from(":a").is_ok());
    assert!(matches!(keyword_from("a"), Err(ReaderError::Message(m)) if m == "could not parse keyword properly"));
    assert!(string_from("\"a\"").is_ok());
    assert!(matches!(string_from("\"a"), Err(ReaderError::Message(m)) if m == "could not produce a string for this token"));
    assert!(matches!(string_from("\""), Err(ReaderError::Message(_))));
    assert!(symbol_from("anything").is_ok());
}

#[test]
fn escapes_are_decoded_left_to_right() {
    assert_eq!(read_str("a\\nb"), "a\nb");
    assert_eq!(read_str("a\\\"b"), "a\"b");
    assert_eq!(read_str("a\\\\b"), "a\\b");
    assert_eq!(read_str("a\\\\nb"), "a\\nb");
    assert_eq!(read_str("a\\tb"), "a\\tb");
    assert_eq!(read_str("tail\\"), "tail\\");
    assert_eq!(read_str(""), "");
}

#[test]
fn sigils_rewrite_the_next_form() {
    assert_eq!(printed("'x"), "(quote x)");
    assert_eq!(printed("`x"), "(quasiquote x)");
    assert_eq!(printed("~x"), "(unquote x)");
    assert_eq!(printed("~@x"), "(splice-unquote x)");
    assert_eq!(printed("@a"), "(deref a)");
    assert_eq!(printed("^{:a 1} [1 2]"), "(with-meta [1 2] {:a 1})");
    assert_eq!(printed("'(1 'x)"), "(quote (1 (quote x)))");
}

#[test]
fn collections_nest() {
    assert_eq!(printed("(1 [2 {:k (3)}] ())"), "(1 [2 {:k (3)}] ())");
    assert_eq!(printed("( 1 , 2 ,,, 3 )"), "(1 2 3)");
    assert_eq!(printed("(1 ; note\n 2)"), "(1 2)");
    assert_eq!(printed("(1 2 ; trailing\n)"), "(1 2)");
    assert_eq!(printed("{\"a\" 1 \"a\" 2}"), "{\"a\" 2}");
}

#[test]
fn reader_errors() {
    assert!(matches!(read("".to_string()), Err(ReaderError::EmptyInput)));
    assert!(matches!(read("   ".to_string()), Err(ReaderError::EmptyInput)));
    assert!(matches!(read("1 2".to_string()), Err(ReaderError::ExtraInput(_, 1))));
    assert!(matches!(read("(1 2".to_string()), Err(ReaderError::Message(m)) if m == "did not close seq properly"));
    assert!(matches!(read("(1 2]".to_string()), Err(ReaderError::Message(m)) if m == "did not close seq properly"));
    assert!(matches!(read("[1 2 ".to_string()), Err(ReaderError::Message(m)) if m == "did not close seq properly"));
    assert!(matches!(read("{:a}".to_string()), Err(ReaderError::Message(m)) if m == "need an even number of elements to make a map"));
    assert!(matches!(read("{1 2}".to_string()), Err(ReaderError::Message(m)) if m == "key value is not hashable"));
    assert!(matches!(read(")".to_string()), Err(ReaderError::Message(m)) if m == "could not read form"));
    assert!(matches!(read("(1) )".to_string()), Err(ReaderError::ExtraInput(_, 3))));
    assert!(matches!(read("; only a comment".to_string()), Err(ReaderError::Message(m)) if m == "could not read form"));
    assert!(matches!(read("'".to_string()), Err(ReaderError::Message(m)) if m == "could not read form"));
    assert!(matches!(read("\"abc".to_string()), Err(ReaderError::Message(m)) if m == "unterminated string"));
    assert!(matches!(read("(1 \"abc)".to_string()), Err(ReaderError::Message(m)) if m == "unterminated string"));
    assert!(matches!(read("(1 \"abc".to_string()), Err(ReaderError::Message(m)) if m == "unterminated string"));
    assert!(matches!(read("'".to_string() + " "), Err(ReaderError::Message(m)) if m == "could not read form"));
    assert!(matches!(read(",, ,".to_string()), Err(ReaderError::EmptyInput)));
    assert_eq!(printed("(1 2) "), "(1 2)");
}

#[test]
fn a_blank_token_is_an_error_unless_all_are_blank() {
    let blank = || Token::Atom("".to_string());
    let word = || Token::Atom("abc".to_string());
    assert!(matches!(read_tokens(vec![blank()]), Err(ReaderError::EmptyInput)));
    assert!(matches!(read_tokens(vec![blank(), blank()]), Err(ReaderError::EmptyInput)));
    assert!(matches!(
        read_tokens(vec![blank(), word()]),
        Err(ReaderError::Message(m)) if m == "unterminated string"
    ));
    assert!(matches!(
        read_tokens(vec![Token::Comment(";c".to_string()), blank()]),
        Err(ReaderError::Message(m)) if m == "could not read form"
    ));
    assert!(matches!(
        read_tokens(vec![Token::List(Direction::Open), word(), blank()]),
        Err(ReaderError::Message(m)) if m == "did not close seq properly"
    ));
    assert!(matches!(
        read_tokens(vec![Token::List(Direction::Open), blank(), word(), Token::List(Direction::Close)]),
        Err(ReaderError::Message(m)) if m == "unterminated string"
    ));
    assert!(rest_is_blank(&vec![word(), blank()], 1));
    assert!(!rest_is_blank(&vec![word(), blank()], 0));
    assert!(rest_is_blank(&vec![], 0));
    assert!(rest_is_blank(&vec![word()], 5));
    assert!(blank().is_blank());
    assert!(!word().is_blank());
    assert!(!Token::Comment("".to_string()).is_blank());
}

#[test]
fn reader_error_texts() {
    assert_eq!(ReaderError::Message("m".to_string()).to_string(), "m");
    assert_eq!(ReaderError::ExtraInput(vec![], 0).to_string(), "extra input after full form");
    assert_eq!(ReaderError::EmptyInput.to_string(), "");
}

#[test]
fn read_tokens_reads_what_the_tokens_spell() {
    let tokens = vec![
        Token::List(Direction::Open),
        Token::Atom("+".to_string()),
        Token::Atom("1".to_string()),
        Token::Comment("; c".to_string()),
        Token::Atom("\"s\"".to_string()),
        Token::List(Direction::Close),
        Token::Atom("".to_string()),
    ];
    let v = read_tokens(tokens).ok().unwrap();
    let want = new_list(vec![new_symbol("+", None), new_number(1), new_string("s")], None);
    assert!(equal(&v, &want));
    let stray = vec![Token::Atom(":k".to_string()), Token::Vector(Direction::Close)];
    assert!(matches!(read_tokens(stray), Err(ReaderError::ExtraInput(_, 1))));
    let k = read_tokens(vec![Token::Atom(":k".to_string())]).ok().unwrap();
    assert!(equal(&k, &new_keyword(":k")));
}

#[test]
fn what_is_printed_reads_back() {
    let heap = Heap::new();
    for text in [
        "nil",
        "true",
        "-12",
        ":kw",
        "sym",
        "\"a \\\"quoted\\\" \\\\ line\\nnext\"",
        "(1 (2 [3 \"x\"]) {:a 1 \"b\" (2)})",
        "[]",
        "()",
        "{}",
    ] {
        let v = read(text.to_string()).ok().unwrap();
        let again = read(print(&v, &heap)).ok().unwrap();
        assert!(equal(&v, &again));
        assert_eq!(print(&v, &heap), text);
    }
}
