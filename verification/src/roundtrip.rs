//! The reader undoes the printer: laws of numerals, of string literals,
//! and of the tokens that a printed value consists of.

use crate::model::{
    as_key, distinct_keys, entries_from_items, entries_from_pairs, entries_index,
    entries_index_finds, entries_index_from, entries_put, key_value, pairs_are_distinct, Entries,
    Failure, Key, Value,
};
use crate::printer::{
    escape_char, escape_upto, pr_entries_spec, pr_entry_spec, pr_key_spec, pr_seq_spec,
    pr_str_spec, unread_str_spec,
};
use crate::reader::{
    atom_value, close_seq, escape_target, is_string_token, read_form_spec, read_seq_spec,
    read_str_spec, read_tokens_spec, sigil_name, tokenizer_spec, unescape_from, Bracket,
    ReadFailure, Tok,
};
use crate::text::{all_digits, digit_char, digit_value, digits, digits_value, int_text, parse_int};
use vstd::prelude::*;

verus! {

/// The digits of a number are digits, at least one of them, and denote the number.
pub proof fn digits_denote(n: nat)
    ensures
        digits(n).len() > 0,
        all_digits(digits(n)),
        digits_value(digits(n)) == n,
    decreases n,
{
    let d = digit_char((n % 10) as int);
    assert(digit_value(d) == Some((n % 10) as int));
    if n < 10 {
        let s = digits(n);
        assert(s =~= seq![d]);
        assert(s.drop_last() =~= Seq::<char>::empty());
        assert(digits_value(s.drop_last()) == 0);
        assert(s.last() == d);
    } else {
        digits_denote(n / 10);
        let front = digits(n / 10);
        let s = digits(n);
        assert(s == front.push(d));
        assert(s.drop_last() =~= front);
        assert(s.last() == d);
        assert forall|i: int| 0 <= i < s.len() implies (#[trigger] digit_value(s[i])) is Some by {
            if i < front.len() {
                assert(s[i] == front[i]);
            }
        }
    }
}

/// The numeral of a 64-bit integer reads back as that integer.
pub proof fn numeral_reads_back(n: i64)
    ensures
        parse_int(int_text(n as int)) == Some(n),
{
    let s = int_text(n as int);
    if n < 0 {
        let m = (-(n as int)) as nat;
        digits_denote(m);
        let body = digits(m);
        assert(s == seq!['-'] + body);
        assert(s[0] == '-');
        assert(s.subrange(1, s.len() as int) =~= body);
    } else {
        let m = n as nat;
        digits_denote(m);
        assert(s == digits(m));
        assert(digit_value(s[0]) is Some);
        assert(s[0] != '-' && s[0] != '+');
    }
}

/// Each shorter escaped prefix is a prefix of each longer one.
pub proof fn escape_grows(s: Seq<char>, k: nat, n: nat)
    requires
        k <= n <= s.len(),
    ensures
        escape_upto(s, k).len() <= escape_upto(s, n).len(),
        escape_upto(s, n).subrange(0, escape_upto(s, k).len() as int) == escape_upto(s, k),
    decreases n - k,
{
    if k < n {
        escape_grows(s, k, (n - 1) as nat);
        let shorter = escape_upto(s, (n - 1) as nat);
        let longer = escape_upto(s, n);
        assert(longer == shorter + escape_char(s[n - 1]));
        assert(longer.subrange(0, escape_upto(s, k).len() as int) =~= shorter.subrange(
            0,
            escape_upto(s, k).len() as int,
        ));
    } else {
        assert(escape_upto(s, n).subrange(0, escape_upto(s, n).len() as int) =~= escape_upto(
            s,
            n,
        ));
    }
}

/// Decoding the escaped text from where the first `k` characters end
/// gives the characters that are left.
pub proof fn unescape_rest(s: Seq<char>, k: nat, acc: Seq<char>)
    requires
        k <= s.len(),
    ensures
        unescape_from(escape_upto(s, s.len()), escape_upto(s, k).len(), acc) == acc + s.subrange(
            k as int,
            s.len() as int,
        ),
    decreases s.len() - k,
{
    let whole = escape_upto(s, s.len());
    let p = escape_upto(s, k).len();
    escape_grows(s, k, s.len());
    if k == s.len() {
        assert(acc + s.subrange(k as int, s.len() as int) =~= acc);
    } else {
        let c = s[k as int];
        let next = escape_upto(s, k + 1);
        escape_grows(s, k + 1, s.len());
        assert(next == escape_upto(s, k) + escape_char(c));
        assert(whole.subrange(0, next.len() as int) == next);
        assert forall|j: int| 0 <= j < next.len() implies whole[j] == next[j] by {
            assert(whole.subrange(0, next.len() as int)[j] == whole[j]);
        }
        unescape_rest(s, k + 1, acc.push(c));
        assert(acc.push(c) + s.subrange(k as int + 1, s.len() as int) =~= acc + s.subrange(
            k as int,
            s.len() as int,
        ));
        if c == '\n' || c == '\\' || c == '"' {
            assert(escape_char(c).len() == 2);
            assert(whole[p as int] == next[p as int]);
            assert(whole[p as int + 1] == next[p as int + 1]);
            assert(next[p as int] == '\\');
            assert(escape_target(next[p as int + 1]) == Some(c));
        } else {
            assert(escape_char(c).len() == 1);
            assert(whole[p as int] == next[p as int]);
            assert(next[p as int] == c);
        }
    }
}

/// A string literal reads back as the string it was written for.
pub proof fn literal_reads_back(s: Seq<char>)
    ensures
        ({
            let t = unread_str_spec(s);
            &&& t.len() >= 2
            &&& t[0] == '"'
            &&& t.last() == '"'
            &&& read_str_spec(t.subrange(1, t.len() - 1)) == s
        }),
{
    let t = unread_str_spec(s);
    let inner = escape_upto(s, s.len());
    assert(t == seq!['"'] + inner + seq!['"']);
    assert(t.subrange(1, t.len() - 1) =~= inner);
    unescape_rest(s, 0, Seq::empty());
    assert(escape_upto(s, 0).len() == 0);
    assert(Seq::<char>::empty() + s.subrange(0, s.len() as int) =~= s);
}


/// The tokens that the readable text of a value consists of.
pub open spec fn spell(v: Value) -> Seq<Tok>
    decreases v, 0nat,
{
    match v {
        Value::Nil => seq![Tok::Atom("nil"@)],
        Value::Boolean(b) => seq![
            Tok::Atom(
                if b {
                    "true"@
                } else {
                    "false"@
                },
            ),
        ],
        Value::String(s) => seq![Tok::Atom(unread_str_spec(s))],
        Value::Keyword(s) => seq![Tok::Atom(s)],
        Value::Number(n) => seq![Tok::Atom(int_text(n as int))],
        Value::Symbol(s, _) => seq![Tok::Atom(s)],
        Value::List(xs, _) => seq![Tok::Open(Bracket::List)] + spell_items(xs, 0) + seq![
            Tok::Close(Bracket::List),
        ],
        Value::Vector(xs, _) => seq![Tok::Open(Bracket::Vector)] + spell_items(xs, 0) + seq![
            Tok::Close(Bracket::Vector),
        ],
        Value::Dict(es, _) => seq![Tok::Open(Bracket::Dict)] + spell_entries(es, 0) + seq![
            Tok::Close(Bracket::Dict),
        ],
        Value::Lambda { .. } => seq![Tok::Atom("#<fn>"@)],
        Value::Macro { .. } => seq![Tok::Atom("#<macro>"@)],
        Value::Fn(_, _) => seq![Tok::Atom("#<host-fn>"@)],
        Value::Atom(_) => seq![Tok::Atom("(atom ...)"@)],
    }
}

/// The tokens of the items from `i` on.
pub open spec fn spell_items(xs: Seq<Value>, i: nat) -> Seq<Tok>
    decreases xs, xs.len() - i,
{
    if i >= xs.len() {
        Seq::empty()
    } else {
        spell(xs[i as int]) + spell_items(xs, i + 1)
    }
}

/// The tokens of the entries from `i` on: each key, then its value.
pub open spec fn spell_entries(es: Entries, i: nat) -> Seq<Tok>
    decreases es, es.len() - i,
{
    if i >= es.len() {
        Seq::empty()
    } else {
        seq![Tok::Atom(pr_key_spec(es[i as int].0, true))] + spell(es[i as int].1) + spell_entries(
            es,
            i + 1,
        )
    }
}

/// Whether a text, read as an atom, is the symbol of that name: it is not
/// empty, no sigil, and no other kind of atom.
pub open spec fn is_symbol_text(s: Seq<char>) -> bool {
    s.len() > 0 && sigil_name(s) is None && s != "^"@ && atom_value(s) == Value::symbol(s)
}

/// Whether a value is one that the reader can give: it is made of nil,
/// booleans, numbers, strings, keywords that begin with a colon, symbols
/// whose names read as symbols, and lists, vectors and maps of such
/// values; nothing carries metadata, and no map has a key twice.
pub open spec fn readable(v: Value) -> bool
    decreases v, 0nat,
{
    match v {
        Value::Nil => true,
        Value::Boolean(_) => true,
        Value::Number(_) => true,
        Value::String(_) => true,
        Value::Keyword(s) => s.len() > 0 && s[0] == ':',
        Value::Symbol(s, m) => *m is Nil && is_symbol_text(s),
        Value::List(xs, m) => *m is Nil && readable_items(xs, 0),
        Value::Vector(xs, m) => *m is Nil && readable_items(xs, 0),
        Value::Dict(es, m) => *m is Nil && distinct_keys(es) && readable_entries(es, 0),
        _ => false,
    }
}

/// Whether the items from `i` on are readable.
pub open spec fn readable_items(xs: Seq<Value>, i: nat) -> bool
    decreases xs, xs.len() - i,
{
    i >= xs.len() || (readable(xs[i as int]) && readable_items(xs, i + 1))
}

/// Whether a key is one that the reader can give: a string, or a keyword
/// that begins with a colon.
pub open spec fn readable_key(k: Key) -> bool {
    match k {
        Key::String(_) => true,
        Key::Keyword(s) => s.len() > 0 && s[0] == ':',
    }
}

/// Whether the keys and the values of the entries from `i` on are readable.
pub open spec fn readable_entries(es: Entries, i: nat) -> bool
    decreases es, es.len() - i,
{
    i >= es.len() || (readable_key(es[i as int].0) && readable(es[i as int].1)
        && readable_entries(es, i + 1))
}

/// The first `n` entries as the reader meets them: key, value, key, value.
pub open spec fn entry_items(es: Entries, n: nat) -> Seq<Value>
    decreases n,
{
    if n == 0 || n > es.len() {
        Seq::empty()
    } else {
        entry_items(es, (n - 1) as nat).push(key_value(es[n - 1].0)).push(es[n - 1].1)
    }
}

proof fn sigils_revealed()
    ensures
        "'"@ == seq!['\''],
        "`"@ == seq!['`'],
        "~"@ == seq!['~'],
        "~@"@ == seq!['~', '@'],
        "@"@ == seq!['@'],
        "^"@ == seq!['^'],
        "nil"@ == seq!['n', 'i', 'l'],
        "true"@ == seq!['t', 'r', 'u', 'e'],
        "false"@ == seq!['f', 'a', 'l', 's', 'e'],
{
    reveal_strlit("'");
    reveal_strlit("`");
    reveal_strlit("~");
    reveal_strlit("~@");
    reveal_strlit("@");
    reveal_strlit("^");
    reveal_strlit("nil");
    reveal_strlit("true");
    reveal_strlit("false");
    assert("'"@ =~= seq!['\'']);
    assert("`"@ =~= seq!['`']);
    assert("~"@ =~= seq!['~']);
    assert("~@"@ =~= seq!['~', '@']);
    assert("@"@ =~= seq!['@']);
    assert("^"@ =~= seq!['^']);
    assert("nil"@ =~= seq!['n', 'i', 'l']);
    assert("true"@ =~= seq!['t', 'r', 'u', 'e']);
    assert("false"@ =~= seq!['f', 'a', 'l', 's', 'e']);
}

/// A text whose first character begins no sigil and no word of the
/// language is neither.
proof fn plain_start(t: Seq<char>)
    requires
        t.len() > 0,
        t[0] != '\'' && t[0] != '`' && t[0] != '~' && t[0] != '@' && t[0] != '^',
        t[0] != 'n' && t[0] != 't' && t[0] != 'f',
    ensures
        sigil_name(t) is None,
        t != "^"@,
        t != "nil"@,
        t != "true"@,
        t != "false"@,
{
    sigils_revealed();
    assert("'"@[0] == '\'');
    assert("`"@[0] == '`');
    assert("~"@[0] == '~');
    assert("~@"@[0] == '~');
    assert("@"@[0] == '@');
    assert("^"@[0] == '^');
    assert("nil"@[0] == 'n');
    assert("true"@[0] == 't');
    assert("false"@[0] == 'f');
}

/// The words `nil`, `true` and `false` read as themselves.
proof fn words_read_back()
    ensures
        is_atom_of("nil"@, Value::Nil),
        is_atom_of("true"@, Value::Boolean(true)),
        is_atom_of("false"@, Value::Boolean(false)),
{
    sigils_revealed();
    assert("nil"@.len() == 3 && "true"@.len() == 4 && "false"@.len() == 5);
    assert("'"@.len() == 1 && "`"@.len() == 1 && "~"@.len() == 1 && "~@"@.len() == 2 && "@"@.len()
        == 1 && "^"@.len() == 1);
}

/// Whether the text `t` is no sigil and reads as the atom `v`.
pub open spec fn is_atom_of(t: Seq<char>, v: Value) -> bool {
    t.len() > 0 && sigil_name(t) is None && t != "^"@ && atom_value(t) == v
}

/// The numeral of a number reads as that number.
proof fn number_token(n: i64)
    ensures
        is_atom_of(int_text(n as int), Value::Number(n)),
{
    let t = int_text(n as int);
    numeral_reads_back(n);
    if n < 0 {
        digits_denote((-(n as int)) as nat);
        assert(t[0] == '-');
    } else {
        digits_denote(n as nat);
        assert(digit_value(t[0]) is Some);
    }
    plain_start(t);
}

/// A text that begins with a colon reads as the keyword of that text.
proof fn keyword_token(s: Seq<char>)
    requires
        s.len() > 0,
        s[0] == ':',
    ensures
        is_atom_of(s, Value::Keyword(s)),
{
    plain_start(s);
    assert(digit_value(s[0]) is None);
    if s.len() > 0 && all_digits(s) {
        assert(digit_value(s[0]) is Some);
    }
    assert(parse_int(s) is None);
}

/// The literal of a string reads as that string.
proof fn string_token(s: Seq<char>)
    ensures
        is_atom_of(unread_str_spec(s), Value::String(s)),
{
    let t = unread_str_spec(s);
    literal_reads_back(s);
    plain_start(t);
    assert(digit_value(t[0]) is None);
    if all_digits(t) {
        assert(digit_value(t[0]) is Some);
    }
    assert(parse_int(t) is None);
    assert(is_string_token(t));
}

/// The text of a readable key reads as the value that the key is.
proof fn key_token(k: Key)
    requires
        readable_key(k),
    ensures
        is_atom_of(pr_key_spec(k, true), key_value(k)),
{
    match k {
        Key::Keyword(s) => {
            keyword_token(s);
        },
        Key::String(s) => {
            string_token(s);
        },
    }
}

/// An atom's token reads as the atom, and the reader moves past it.
proof fn atom_reads(toks: Seq<Tok>, p: nat, t: Seq<char>, v: Value)
    requires
        p < toks.len(),
        toks[p as int] == Tok::Atom(t),
        is_atom_of(t, v),
    ensures
        read_form_spec(toks, p) == (Ok::<Value, ReadFailure>(v), p + 1),
{
}

/// A window of tokens that holds two runs side by side holds each of them.
proof fn split_window(toks: Seq<Tok>, q: nat, a: Seq<Tok>, b: Seq<Tok>)
    requires
        q + a.len() + b.len() <= toks.len(),
        toks.subrange(q as int, (q + a.len() + b.len()) as int) == a + b,
    ensures
        toks.subrange(q as int, (q + a.len()) as int) == a,
        toks.subrange((q + a.len()) as int, (q + a.len() + b.len()) as int) == b,
{
    let w = toks.subrange(q as int, (q + a.len() + b.len()) as int);
    assert forall|j: int| 0 <= j < a.len() implies toks[(q + j) as int] == a[j] by {
        assert(w[j] == (a + b)[j]);
    }
    assert forall|j: int| 0 <= j < b.len() implies toks[(q + a.len() + j) as int] == b[j] by {
        assert(w[a.len() + j] == (a + b)[a.len() + j]);
    }
    assert(toks.subrange(q as int, (q + a.len()) as int) =~= a);
    assert(toks.subrange((q + a.len()) as int, (q + a.len() + b.len()) as int) =~= b);
}

/// The tokens of a value begin with an atom or an opening bracket.
proof fn spell_starts(v: Value)
    ensures
        spell(v).len() > 0,
        spell(v)[0] is Atom || spell(v)[0] is Open,
{
}

/// The tokens of a readable value, wherever they stand among others, read
/// as the value, and the reader moves past them.
pub proof fn reads_back_at(toks: Seq<Tok>, p: nat, v: Value)
    requires
        readable(v),
        p + spell(v).len() <= toks.len(),
        toks.subrange(p as int, (p + spell(v).len()) as int) == spell(v),
    ensures
        spell(v).len() > 0,
        read_form_spec(toks, p) == (Ok::<Value, ReadFailure>(v), p + spell(v).len()),
    decreases v, 0nat,
{
    spell_starts(v);
    let w = toks.subrange(p as int, (p + spell(v).len()) as int);
    assert(toks[p as int] == w[0]);
    match v {
        Value::Nil => {
            words_read_back();
            atom_reads(toks, p, "nil"@, v);
        },
        Value::Boolean(b) => {
            words_read_back();
            if b {
                atom_reads(toks, p, "true"@, v);
            } else {
                atom_reads(toks, p, "false"@, v);
            }
        },
        Value::Number(n) => {
            number_token(n);
            atom_reads(toks, p, int_text(n as int), v);
        },
        Value::String(s) => {
            string_token(s);
            atom_reads(toks, p, unread_str_spec(s), v);
        },
        Value::Keyword(s) => {
            keyword_token(s);
            atom_reads(toks, p, s, v);
        },
        Value::Symbol(s, m) => {
            atom_reads(toks, p, s, v);
        },
        Value::List(xs, m) => {
            seq_reads_back(toks, p, Bracket::List, xs);
        },
        Value::Vector(xs, m) => {
            seq_reads_back(toks, p, Bracket::Vector, xs);
        },
        Value::Dict(es, m) => {
            let body = spell_entries(es, 0);
            let open = seq![Tok::Open(Bracket::Dict)];
            let close = seq![Tok::Close(Bracket::Dict)];
            assert(spell(v) == open + body + close);
            assert(open + body + close =~= open + (body + close));
            split_window(toks, p, open, body + close);
            split_window(toks, p + 1, body, close);
            assert(toks[(p + 1 + body.len()) as int] == toks.subrange((p + 1 + body.len()) as int, (p + 1 + body.len() + 1) as int)[0]);
            entries_read_back(toks, p + 1, es, 0, Seq::empty());
            pairs_give_entries(es, es.len());
            let items = entry_items(es, es.len());
            entry_items_len(es, es.len());
            assert(es.subrange(0, es.len() as int) =~= es);
            assert(entries_from_items(items) == Ok::<Entries, Failure>(es));
            assert(close_seq(Bracket::Dict, items) == Ok::<Value, ReadFailure>(v));
        },
        _ => {},
    }
}

/// The same for a list or a vector with the items `xs`.
proof fn seq_reads_back(toks: Seq<Tok>, p: nat, b: Bracket, xs: Seq<Value>)
    requires
        readable_items(xs, 0),
        !(b is Dict),
        p + spell_items(xs, 0).len() + 2 <= toks.len(),
        toks.subrange(p as int, (p + spell_items(xs, 0).len() + 2) as int) == seq![Tok::Open(b)]
            + spell_items(xs, 0) + seq![Tok::Close(b)],
    ensures
        read_form_spec(toks, p) == (close_seq(b, xs), p + spell_items(xs, 0).len() + 2),
    decreases xs, xs.len() + 1,
{
    let body = spell_items(xs, 0);
    let open = seq![Tok::Open(b)];
    let close = seq![Tok::Close(b)];
    assert(open + body + close =~= open + (body + close));
    split_window(toks, p, open, body + close);
    split_window(toks, p + 1, body, close);
    assert(toks[p as int] == toks.subrange(p as int, (p + 1) as int)[0]);
    assert(toks[(p + 1 + body.len()) as int] == toks.subrange((p + 1 + body.len()) as int, (p + 1 + body.len() + 1) as int)[0]);
    assert(xs.subrange(0, 0) =~= Seq::<Value>::empty());
    items_read_back(toks, p + 1, b, xs, 0, Seq::empty());
}

/// The tokens of the items from `i` on, followed by the closing bracket,
/// read as the items, after those that were read before.
proof fn items_read_back(
    toks: Seq<Tok>,
    q: nat,
    b: Bracket,
    xs: Seq<Value>,
    i: nat,
    acc: Seq<Value>,
)
    requires
        readable_items(xs, i),
        i <= xs.len(),
        acc == xs.subrange(0, i as int),
        q + spell_items(xs, i).len() < toks.len(),
        toks.subrange(q as int, (q + spell_items(xs, i).len()) as int) == spell_items(xs, i),
        toks[(q + spell_items(xs, i).len()) as int] == Tok::Close(b),
    ensures
        read_seq_spec(toks, q, b, acc) == (
            Ok::<Seq<Value>, ReadFailure>(xs),
            q + spell_items(xs, i).len() + 1,
        ),
    decreases xs, xs.len() - i,
{
    if i >= xs.len() {
        assert(acc =~= xs);
    } else {
        let x = xs[i as int];
        let first = spell(x);
        let rest = spell_items(xs, i + 1);
        spell_starts(x);
        split_window(toks, q, first, rest);
        assert(toks[q as int] == toks.subrange(q as int, (q + first.len()) as int)[0]);
        reads_back_at(toks, q, x);
        assert(acc.push(x) =~= xs.subrange(0, (i + 1) as int));
        items_read_back(toks, q + first.len(), b, xs, i + 1, acc.push(x));
    }
}

/// The same for the entries of a map from the `j`-th on.
proof fn entries_read_back(toks: Seq<Tok>, q: nat, es: Entries, j: nat, acc: Seq<Value>)
    requires
        readable_entries(es, j),
        j <= es.len(),
        acc == entry_items(es, j),
        q + spell_entries(es, j).len() < toks.len(),
        toks.subrange(q as int, (q + spell_entries(es, j).len()) as int) == spell_entries(es, j),
        toks[(q + spell_entries(es, j).len()) as int] == Tok::Close(Bracket::Dict),
    ensures
        read_seq_spec(toks, q, Bracket::Dict, acc) == (
            Ok::<Seq<Value>, ReadFailure>(entry_items(es, es.len())),
            q + spell_entries(es, j).len() + 1,
        ),
    decreases es, es.len() - j,
{
    if j >= es.len() {
    } else {
        let k = es[j as int].0;
        let x = es[j as int].1;
        let key = seq![Tok::Atom(pr_key_spec(k, true))];
        let val = spell(x);
        let rest = spell_entries(es, j + 1);
        spell_starts(x);
        assert(key + val + rest =~= key + (val + rest));
        split_window(toks, q, key, val + rest);
        split_window(toks, q + 1, val, rest);
        assert(toks[q as int] == toks.subrange(q as int, (q + 1) as int)[0]);
        key_token(k);
        atom_reads(toks, q, pr_key_spec(k, true), key_value(k));
        assert(toks[(q + 1) as int] == toks.subrange((q + 1) as int, (q + 1 + val.len()) as int)[0]);
        reads_back_at(toks, q + 1, x);
        let acc1 = acc.push(key_value(k));
        let acc2 = acc1.push(x);
        assert(acc2 == entry_items(es, j + 1));
        entries_read_back(toks, q + 1 + val.len(), es, j + 1, acc2);
        assert(read_seq_spec(toks, q + 1, Bracket::Dict, acc1) == read_seq_spec(
            toks,
            q + 1 + val.len(),
            Bracket::Dict,
            acc2,
        ));
    }
}

proof fn entry_items_len(es: Entries, n: nat)
    requires
        n <= es.len(),
    ensures
        entry_items(es, n).len() == 2 * n,
    decreases n,
{
    if n > 0 {
        entry_items_len(es, (n - 1) as nat);
    }
}

proof fn entry_items_at(es: Entries, n: nat, j: int)
    requires
        n <= es.len(),
        0 <= j < n,
    ensures
        entry_items(es, n).len() == 2 * n,
        entry_items(es, n)[2 * j] == key_value(es[j].0),
        entry_items(es, n)[2 * j + 1] == es[j].1,
    decreases n,
{
    entry_items_len(es, n);
    entry_items_len(es, (n - 1) as nat);
    if j < n - 1 {
        entry_items_at(es, (n - 1) as nat, j);
    }
}

/// A key that no entry has is found nowhere.
proof fn absent_key(es: Entries, key: Key, i: nat)
    requires
        forall|j: int| i <= j < es.len() ==> (#[trigger] es[j]).0 != key,
    ensures
        entries_index_from(es, key, i) is None,
    decreases es.len() - i,
{
    if i < es.len() {
        absent_key(es, key, i + 1);
    }
}

/// The pairs of the first `n` entries give those entries back, where no
/// key comes twice.
proof fn pairs_give_entries(es: Entries, n: nat)
    requires
        distinct_keys(es),
        n <= es.len(),
    ensures
        entries_from_pairs(entry_items(es, es.len()), n) == Ok::<Entries, Failure>(
            es.subrange(0, n as int),
        ),
    decreases n,
{
    let items = entry_items(es, es.len());
    entry_items_len(es, es.len());
    if n == 0 {
        assert(es.subrange(0, 0) =~= Seq::<(Key, Value)>::empty());
    } else {
        pairs_give_entries(es, (n - 1) as nat);
        entry_items_at(es, es.len(), n - 1);
        let before = es.subrange(0, (n - 1) as int);
        let k = es[n - 1].0;
        assert(as_key(key_value(k)) == Some(k));
        assert forall|j: int| 0 <= j < before.len() implies (#[trigger] before[j]).0 != k by {
            assert(before[j] == es[j]);
        }
        absent_key(before, k, 0);
        assert(entries_put(before, k, es[n - 1].1) =~= es.subrange(0, n as int));
    }
}

/// The reader undoes the printer on tokens: the tokens that the readable
/// text of a readable value consists of read as that value.
pub proof fn printed_tokens_read_back(v: Value)
    requires
        readable(v),
    ensures
        read_tokens_spec(spell(v)) == Ok::<Value, ReadFailure>(v),
{
    let toks = spell(v);
    assert(toks.subrange(0, toks.len() as int) =~= toks);
    reads_back_at(toks, 0, v);
}


/// The text of one token.
pub open spec fn token_text(t: Tok) -> Seq<char> {
    match t {
        Tok::Open(Bracket::List) => seq!['('],
        Tok::Open(Bracket::Vector) => seq!['['],
        Tok::Open(Bracket::Dict) => seq!['{'],
        Tok::Close(Bracket::List) => seq![')'],
        Tok::Close(Bracket::Vector) => seq![']'],
        Tok::Close(Bracket::Dict) => seq!['}'],
        Tok::Atom(s) => s,
        Tok::Comment(s) => s,
    }
}

/// What stands between two neighbouring tokens in print: nothing after
/// an opening bracket and before a closing one, else one space.
pub open spec fn gap(a: Tok, b: Tok) -> Seq<char> {
    if a is Open || b is Close {
        Seq::empty()
    } else {
        seq![' ']
    }
}

/// The first `n` tokens set side by side as the printer sets them.
pub open spec fn tokens_text(toks: Seq<Tok>, n: nat) -> Seq<char>
    decreases n,
{
    if n == 0 || n > toks.len() {
        Seq::empty()
    } else if n == 1 {
        token_text(toks[0])
    } else {
        tokens_text(toks, (n - 1) as nat) + gap(toks[n - 2], toks[n - 1]) + token_text(toks[n - 1])
    }
}

/// The tokens set side by side as the printer sets them.
pub open spec fn text_of(toks: Seq<Tok>) -> Seq<char> {
    tokens_text(toks, toks.len())
}

/// The text of the first `n` tokens depends on those tokens only.
proof fn tokens_text_prefix(x: Seq<Tok>, y: Seq<Tok>, n: nat)
    requires
        n <= x.len(),
        n <= y.len(),
        forall|i: int| 0 <= i < n ==> x[i] == y[i],
    ensures
        tokens_text(x, n) == tokens_text(y, n),
    decreases n,
{
    if n > 1 {
        tokens_text_prefix(x, y, (n - 1) as nat);
    }
}

/// The text of two runs of tokens side by side is their texts with the
/// gap between the last token of the first and the first of the second.
proof fn text_of_joined(a: Seq<Tok>, b: Seq<Tok>, m: nat)
    requires
        a.len() > 0,
        1 <= m <= b.len(),
    ensures
        tokens_text(a + b, a.len() + m) == text_of(a) + gap(a.last(), b[0]) + tokens_text(b, m),
    decreases m,
{
    let ab = a + b;
    let n = a.len() + m;
    tokens_text_prefix(ab, a, a.len());
    assert(ab[n - 1] == b[m - 1]);
    if m == 1 {
        assert(ab[n - 2] == a.last());
        assert(n >= 2);
    } else {
        text_of_joined(a, b, (m - 1) as nat);
        assert(ab[n - 2] == b[m - 2]);
        assert(tokens_text(ab, n) =~= text_of(a) + gap(a.last(), b[0]) + tokens_text(b, m));
    }
}

/// The tokens of a value end with an atom or a closing bracket.
proof fn spell_ends(v: Value)
    ensures
        spell(v).len() > 0,
        spell(v).last() is Atom || spell(v).last() is Close,
{
}

/// The tokens of the first `n` items.
pub open spec fn spell_upto(xs: Seq<Value>, n: nat) -> Seq<Tok>
    decreases n,
{
    if n == 0 || n > xs.len() {
        Seq::empty()
    } else {
        spell_upto(xs, (n - 1) as nat) + spell(xs[n - 1])
    }
}

proof fn spell_items_split(xs: Seq<Value>, n: nat)
    requires
        n <= xs.len(),
    ensures
        spell_upto(xs, n) + spell_items(xs, n) == spell_items(xs, 0),
    decreases n,
{
    if n == 0 {
        assert(spell_upto(xs, 0) + spell_items(xs, 0) =~= spell_items(xs, 0));
    } else {
        spell_items_split(xs, (n - 1) as nat);
        let before = spell_upto(xs, (n - 1) as nat);
        let one = spell(xs[n - 1]);
        assert(spell_items(xs, (n - 1) as nat) == one + spell_items(xs, n));
        assert(before + (one + spell_items(xs, n)) =~= (before + one) + spell_items(xs, n));
    }
}

/// The tokens of the first `n` entries.
pub open spec fn spell_entries_upto(es: Entries, n: nat) -> Seq<Tok>
    decreases n,
{
    if n == 0 || n > es.len() {
        Seq::empty()
    } else {
        spell_entries_upto(es, (n - 1) as nat) + (seq![Tok::Atom(pr_key_spec(es[n - 1].0, true))]
            + spell(es[n - 1].1))
    }
}

proof fn spell_entries_split(es: Entries, n: nat)
    requires
        n <= es.len(),
    ensures
        spell_entries_upto(es, n) + spell_entries(es, n) == spell_entries(es, 0),
    decreases n,
{
    if n == 0 {
        assert(spell_entries_upto(es, 0) + spell_entries(es, 0) =~= spell_entries(es, 0));
    } else {
        spell_entries_split(es, (n - 1) as nat);
        let before = spell_entries_upto(es, (n - 1) as nat);
        let key = seq![Tok::Atom(pr_key_spec(es[n - 1].0, true))];
        let val = spell(es[n - 1].1);
        let rest = spell_entries(es, n);
        assert(spell_entries(es, (n - 1) as nat) == key + val + rest);
        assert(before + (key + val + rest) =~= (before + (key + val)) + rest);
    }
}

/// The text of a bracketed run of tokens is the text of the run between
/// the texts of the brackets.
proof fn text_of_bracketed(open: Tok, body: Seq<Tok>, close: Tok)
    requires
        open is Open,
        close is Close,
    ensures
        text_of(seq![open] + body + seq![close]) == token_text(open) + text_of(body) + token_text(
            close,
        ),
{
    let o = seq![open];
    let c = seq![close];
    assert(text_of(o) == token_text(open));
    assert(text_of(c) == token_text(close));
    if body.len() == 0 {
        assert(o + body + c =~= o + c);
        text_of_joined(o, c, 1);
        assert(text_of(body) =~= Seq::<char>::empty());
        assert(text_of(o + c) =~= token_text(open) + text_of(body) + token_text(close));
    } else {
        text_of_joined(o, body, body.len());
        text_of_joined(o + body, c, 1);
        assert((o + body).last() == body.last());
        assert(text_of(o + body + c) =~= token_text(open) + text_of(body) + token_text(close));
    }
}

/// The readable text of a readable value is its tokens set side by side.
pub proof fn printed_text_is_spelled(atoms: Seq<Value>, v: Value, depth: nat)
    requires
        readable(v),
    ensures
        pr_str_spec(atoms, v, true, depth) == text_of(spell(v)),
    decreases v, 0nat,
{
    match v {
        Value::List(xs, _) => {
            items_text_is_spelled(atoms, xs, depth, xs.len());
            spell_items_split(xs, xs.len());
            assert(spell_upto(xs, xs.len()) + spell_items(xs, xs.len()) =~= spell_upto(
                xs,
                xs.len(),
            ));
            text_of_bracketed(
                Tok::Open(Bracket::List),
                spell_items(xs, 0),
                Tok::Close(Bracket::List),
            );
        },
        Value::Vector(xs, _) => {
            items_text_is_spelled(atoms, xs, depth, xs.len());
            spell_items_split(xs, xs.len());
            assert(spell_upto(xs, xs.len()) + spell_items(xs, xs.len()) =~= spell_upto(
                xs,
                xs.len(),
            ));
            text_of_bracketed(
                Tok::Open(Bracket::Vector),
                spell_items(xs, 0),
                Tok::Close(Bracket::Vector),
            );
        },
        Value::Dict(es, _) => {
            entries_text_is_spelled(atoms, es, depth, es.len());
            spell_entries_split(es, es.len());
            assert(spell_entries_upto(es, es.len()) + spell_entries(es, es.len())
                =~= spell_entries_upto(es, es.len()));
            text_of_bracketed(
                Tok::Open(Bracket::Dict),
                spell_entries(es, 0),
                Tok::Close(Bracket::Dict),
            );
        },
        _ => {},
    }
}

proof fn readable_item(xs: Seq<Value>, i: nat, k: int)
    requires
        readable_items(xs, i),
        i <= k < xs.len(),
    ensures
        readable(xs[k]),
    decreases xs.len() - i,
{
    if i < k {
        readable_item(xs, i + 1, k);
    }
}

proof fn readable_entry(es: Entries, i: nat, k: int)
    requires
        readable_entries(es, i),
        i <= k < es.len(),
    ensures
        readable(es[k].1),
        readable_key(es[k].0),
    decreases es.len() - i,
{
    if i < k {
        readable_entry(es, i + 1, k);
    }
}

/// The same for the first `n` items of a list or a vector.
proof fn items_text_is_spelled(atoms: Seq<Value>, xs: Seq<Value>, depth: nat, n: nat)
    requires
        readable_items(xs, 0),
        n <= xs.len(),
    ensures
        pr_seq_spec(atoms, xs, true, depth, n) == text_of(spell_upto(xs, n)),
        n > 0 ==> spell_upto(xs, n).len() > 0 && (spell_upto(xs, n).last() is Atom || spell_upto(
            xs,
            n,
        ).last() is Close),
    decreases xs, n,
{
    if n == 0 {
    } else {
        let x = xs[n - 1];
        readable_item(xs, 0, n - 1);
        printed_text_is_spelled(atoms, x, depth);
        spell_starts(x);
        spell_ends(x);
        let one = spell(x);
        if n == 1 {
            assert(spell_upto(xs, 1) =~= one);
        } else {
            items_text_is_spelled(atoms, xs, depth, (n - 1) as nat);
            let before = spell_upto(xs, (n - 1) as nat);
            text_of_joined(before, one, one.len());
            assert((before + one).last() == one.last());
        }
    }
}

/// The text of a key is the text of its token.
proof fn entry_text_is_spelled(atoms: Seq<Value>, es: Entries, depth: nat, i: int)
    requires
        readable_entries(es, 0),
        0 <= i < es.len(),
    ensures
        pr_entry_spec(atoms, es, true, depth, i) == text_of(
            seq![Tok::Atom(pr_key_spec(es[i].0, true))] + spell(es[i].1),
        ),
    decreases es, 0nat, 0nat,
{
    let key = seq![Tok::Atom(pr_key_spec(es[i].0, true))];
    let val = spell(es[i].1);
    readable_entry(es, 0, i);
    printed_text_is_spelled(atoms, es[i].1, depth);
    spell_starts(es[i].1);
    text_of_joined(key, val, val.len());
    assert(text_of(key) == pr_key_spec(es[i].0, true));
}

/// The same for the first `n` entries of a map.
proof fn entries_text_is_spelled(atoms: Seq<Value>, es: Entries, depth: nat, n: nat)
    requires
        readable_entries(es, 0),
        n <= es.len(),
    ensures
        pr_entries_spec(atoms, es, true, depth, n) == text_of(spell_entries_upto(es, n)),
        n > 0 ==> spell_entries_upto(es, n).len() > 0 && (spell_entries_upto(es, n).last() is Atom
            || spell_entries_upto(es, n).last() is Close),
    decreases es, 1nat, n,
{
    if n == 0 {
    } else {
        let key = seq![Tok::Atom(pr_key_spec(es[n - 1].0, true))];
        let val = spell(es[n - 1].1);
        let one = key + val;
        entry_text_is_spelled(atoms, es, depth, n - 1);
        spell_ends(es[n - 1].1);
        assert(one.last() == val.last());
        assert(one[0] == key[0]);
        if n == 1 {
            assert(spell_entries_upto(es, 1) =~= one);
        } else {
            entries_text_is_spelled(atoms, es, depth, (n - 1) as nat);
            let before = spell_entries_upto(es, (n - 1) as nat);
            text_of_joined(before, one, one.len());
            assert((before + one).last() == one.last());
        }
    }
}

/// Reading undoes printing, token for token: the readable text of a
/// readable value is its tokens set side by side, and those tokens read
/// as the value.
pub proof fn read_undoes_print(atoms: Seq<Value>, v: Value, depth: nat)
    requires
        readable(v),
    ensures
        pr_str_spec(atoms, v, true, depth) == text_of(spell(v)),
        read_tokens_spec(spell(v)) == Ok::<Value, ReadFailure>(v),
{
    printed_text_is_spelled(atoms, v, depth);
    printed_tokens_read_back(v);
}


/// Reading undoes printing, text for text, wherever the token pattern cuts
/// the printed text into the tokens that it was set from: then the readable
/// text of a readable value reads as that value.
pub proof fn read_print_round_trip(atoms: Seq<Value>, v: Value, depth: nat)
    requires
        readable(v),
    ensures
        tokenizer_spec(text_of(spell(v))) == spell(v) ==> read_tokens_spec(
            tokenizer_spec(pr_str_spec(atoms, v, true, depth)),
        ) == Ok::<Value, ReadFailure>(v),
{
    read_undoes_print(atoms, v, depth);
}


/// Whether every item is readable.
pub open spec fn all_readable(xs: Seq<Value>) -> bool {
    forall|i: int| 0 <= i < xs.len() ==> readable(#[trigger] xs[i])
}

proof fn readable_items_from_all(xs: Seq<Value>, i: nat)
    requires
        all_readable(xs),
    ensures
        readable_items(xs, i),
    decreases xs.len() - i,
{
    if i < xs.len() {
        readable_items_from_all(xs, i + 1);
    }
}

proof fn readable_entries_from_all(es: Entries, i: nat)
    requires
        forall|j: int|
            0 <= j < es.len() ==> readable((#[trigger] es[j]).1) && readable_key(es[j].0),
    ensures
        readable_entries(es, i),
    decreases es.len() - i,
{
    if i < es.len() {
        readable_entries_from_all(es, i + 1);
    }
}

/// The values of the entries that items spell out are among the items.
proof fn pairs_hold_readable(items: Seq<Value>, n: nat)
    requires
        all_readable(items),
    ensures
        match entries_from_pairs(items, n) {
            Ok(es) => forall|j: int|
                0 <= j < es.len() ==> readable((#[trigger] es[j]).1) && readable_key(es[j].0),
            Err(_) => true,
        },
    decreases n,
{
    if !(n == 0 || 2 * n > items.len()) {
        pairs_hold_readable(items, (n - 1) as nat);
        match entries_from_pairs(items, (n - 1) as nat) {
            Ok(before) => match as_key(items[2 * n - 2]) {
                Some(k) => {
                    let v = items[2 * n - 1];
                    let es = entries_put(before, k, v);
                    assert(readable(v));
                    entries_index_finds(before, k, 0);
                    assert(readable(items[2 * n - 2]));
                    assert(readable_key(k));
                    assert forall|j: int| 0 <= j < es.len() implies readable(
                        (#[trigger] es[j]).1,
                    ) && readable_key(es[j].0) by {
                        match entries_index(before, k) {
                            Some(p) => {
                                if j != p {
                                    assert(es[j] == before[j]);
                                }
                            },
                            None => {
                                if j < before.len() {
                                    assert(es[j] == before[j]);
                                }
                            },
                        }
                    }
                },
                None => {},
            },
            Err(_) => {},
        }
    }
}

/// An atom's text that is no sigil reads as a readable value.
proof fn atom_is_readable(t: Seq<char>)
    requires
        t.len() > 0,
        sigil_name(t) is None,
        t != "^"@,
    ensures
        readable(atom_value(t)),
{
}

/// The names that the reader gives to the forms of its sigils are symbols.
proof fn sigil_names_are_symbols()
    ensures
        is_symbol_text("quote"@),
        is_symbol_text("quasiquote"@),
        is_symbol_text("unquote"@),
        is_symbol_text("splice-unquote"@),
        is_symbol_text("deref"@),
        is_symbol_text("with-meta"@),
{
    sigils_revealed();
    reveal_strlit("quote");
    reveal_strlit("quasiquote");
    reveal_strlit("unquote");
    reveal_strlit("splice-unquote");
    reveal_strlit("deref");
    reveal_strlit("with-meta");
    word_is_symbol("quote"@);
    word_is_symbol("quasiquote"@);
    word_is_symbol("unquote"@);
    word_is_symbol("splice-unquote"@);
    word_is_symbol("deref"@);
    word_is_symbol("with-meta"@);
}

/// A text that begins with one of the letters `q`, `u`, `s`, `d`, `w`
/// reads as the symbol of that text.
proof fn word_is_symbol(t: Seq<char>)
    requires
        t.len() > 0,
        t[0] == 'q' || t[0] == 'u' || t[0] == 's' || t[0] == 'd' || t[0] == 'w',
    ensures
        is_symbol_text(t),
{
    plain_start(t);
    assert(digit_value(t[0]) is None);
    if all_digits(t) {
        assert(digit_value(t[0]) is Some);
    }
    assert(parse_int(t) is None);
}

/// What the reader gives is readable: a form that it reads from any
/// tokens is a readable value.
pub proof fn reader_gives_readable(toks: Seq<Tok>, p: nat)
    ensures
        read_form_spec(toks, p).0 matches Ok(v) ==> readable(v),
    decreases toks.len() - p, 0nat,
{
    sigil_names_are_symbols();
    if p < toks.len() {
        match toks[p as int] {
            Tok::Comment(_) => {
                reader_gives_readable(toks, p + 1);
            },
            Tok::Close(_) => {},
            Tok::Open(b) => {
                seq_reader_gives_readable(toks, p + 1, b, Seq::empty());
                match read_seq_spec(toks, p + 1, b, Seq::empty()) {
                    (Ok(items), _) => {
                        readable_items_from_all(items, 0);
                        match b {
                            Bracket::Dict => {
                                if items.len() % 2 == 0 {
                                    pairs_hold_readable(items, items.len() / 2);
                                    pairs_are_distinct(items, items.len() / 2);
                                    match entries_from_items(items) {
                                        Ok(es) => {
                                            readable_entries_from_all(es, 0);
                                        },
                                        Err(_) => {},
                                    }
                                }
                            },
                            _ => {},
                        }
                    },
                    (Err(_), _) => {},
                }
            },
            Tok::Atom(t) => {
                if sigil_name(t) is Some {
                    sigils_revealed();
                    reader_gives_readable(toks, p + 1);
                    match read_form_spec(toks, p + 1) {
                        (Ok(v), _) => {
                            let xs = seq![Value::symbol(sigil_name(t)->0), v];
                            assert(all_readable(xs)) by {
                                assert forall|i: int| 0 <= i < xs.len() implies readable(
                                    #[trigger] xs[i],
                                ) by {
                                    if i == 0 {
                                        assert(xs[0] == Value::symbol(sigil_name(t)->0));
                                    } else {
                                        assert(xs[1] == v);
                                    }
                                }
                            }
                            readable_items_from_all(xs, 0);
                        },
                        (Err(_), _) => {},
                    }
                } else if t == "^"@ {
                    reader_gives_readable(toks, p + 1);
                    match read_form_spec(toks, p + 1) {
                        (Ok(meta), q) => {
                            if p < q <= toks.len() {
                                reader_gives_readable(toks, q);
                                match read_form_spec(toks, q) {
                                    (Ok(data), _) => {
                                        let xs = seq![Value::symbol("with-meta"@), data, meta];
                                        assert(all_readable(xs)) by {
                                            assert forall|i: int|
                                                0 <= i < xs.len() implies readable(
                                                #[trigger] xs[i],
                                            ) by {
                                                if i == 0 {
                                                    assert(xs[0] == Value::symbol("with-meta"@));
                                                } else if i == 1 {
                                                    assert(xs[1] == data);
                                                } else {
                                                    assert(xs[2] == meta);
                                                }
                                            }
                                        }
                                        readable_items_from_all(xs, 0);
                                    },
                                    (Err(_), _) => {},
                                }
                            }
                        },
                        (Err(_), _) => {},
                    }
                } else if t.len() > 0 {
                    atom_is_readable(t);
                }
            },
        }
    }
}

/// The same for the items that the reader gathers between two brackets.
proof fn seq_reader_gives_readable(toks: Seq<Tok>, p: nat, b: Bracket, acc: Seq<Value>)
    requires
        all_readable(acc),
    ensures
        read_seq_spec(toks, p, b, acc).0 matches Ok(items) ==> all_readable(items),
    decreases toks.len() - p, 1nat,
{
    if p < toks.len() {
        match toks[p as int] {
            Tok::Close(_) => {},
            Tok::Comment(_) => {
                seq_reader_gives_readable(toks, p + 1, b, acc);
            },
            _ => {
                reader_gives_readable(toks, p);
                match read_form_spec(toks, p) {
                    (Ok(v), q) => {
                        if p < q <= toks.len() {
                            let more = acc.push(v);
                            assert(all_readable(more)) by {
                                assert forall|i: int| 0 <= i < more.len() implies readable(
                                    #[trigger] more[i],
                                ) by {
                                    if i < acc.len() {
                                        assert(more[i] == acc[i]);
                                    }
                                }
                            }
                            seq_reader_gives_readable(toks, q, b, more);
                        }
                    },
                    (Err(_), _) => {},
                }
            },
        }
    }
}

/// Every value that the reader can give reads back from its own print:
/// where some tokens read as a value, the readable text of that value is
/// its tokens set side by side, and those tokens read as the value again.
pub proof fn read_values_round_trip(toks: Seq<Tok>, atoms: Seq<Value>, depth: nat)
    ensures
        read_tokens_spec(toks) matches Ok(v) ==> pr_str_spec(atoms, v, true, depth) == text_of(
            spell(v),
        ) && read_tokens_spec(spell(v)) == Ok::<Value, ReadFailure>(v),
{
    reader_gives_readable(toks, 0);
    match read_tokens_spec(toks) {
        Ok(v) => {
            read_undoes_print(atoms, v, depth);
        },
        Err(_) => {},
    }
}

} // verus!
