//! The printer: from values back to text.

use crate::heap::Heap;
use crate::model::{Entries, Key, Value};
use crate::text::{int_text, number_text, to_chars};
use crate::types::{entry_views, lisp_view, views, Assoc, LispType, LispValue, MapKey};
use vstd::prelude::*;
use vstd::string::StringExecFns;

verus! {

/// How one character of a string is written in a literal.
pub open spec fn escape_char(c: char) -> Seq<char> {
    if c == '\n' {
        seq!['\\', 'n']
    } else if c == '\\' {
        seq!['\\', '\\']
    } else if c == '"' {
        seq!['\\', '"']
    } else {
        seq![c]
    }
}

/// The first `n` characters of `s`, each as a literal writes it.
pub open spec fn escape_upto(s: Seq<char>, n: nat) -> Seq<char>
    decreases n,
{
    if n == 0 || n > s.len() {
        Seq::empty()
    } else {
        escape_upto(s, (n - 1) as nat) + escape_char(s[n - 1])
    }
}

/// The literal that reads back as the string `s`.
pub open spec fn unread_str_spec(s: Seq<char>) -> Seq<char> {
    seq!['"'] + escape_upto(s, s.len()) + seq!['"']
}

/// The text of a map's key: a keyword as it is, a string as a string prints.
pub open spec fn pr_key_spec(k: Key, readably: bool) -> Seq<char> {
    match k {
        Key::Keyword(s) => s,
        Key::String(s) => if readably {
            unread_str_spec(s)
        } else {
            s
        },
    }
}

/// The text of a value. `atoms` holds what each atom holds; `depth` bounds
/// how many atoms deep the printer looks before it writes `(atom ...)`.
pub open spec fn pr_str_spec(atoms: Seq<Value>, v: Value, readably: bool, depth: nat) -> Seq<char>
    decreases depth, v, 0nat,
{
    match v {
        Value::Nil => "nil"@,
        Value::Boolean(b) => if b {
            "true"@
        } else {
            "false"@
        },
        Value::String(s) => if readably {
            unread_str_spec(s)
        } else {
            s
        },
        Value::Keyword(s) => s,
        Value::Number(n) => int_text(n as int),
        Value::Symbol(s, _) => s,
        Value::Lambda { .. } => "#<fn>"@,
        Value::Macro { .. } => "#<macro>"@,
        Value::Fn(_, _) => "#<host-fn>"@,
        Value::List(xs, _) => seq!['('] + pr_seq_spec(atoms, xs, readably, depth, xs.len())
            + seq![')'],
        Value::Vector(xs, _) => seq!['['] + pr_seq_spec(atoms, xs, readably, depth, xs.len())
            + seq![']'],
        Value::Dict(es, _) => seq!['{'] + pr_entries_spec(atoms, es, readably, depth, es.len())
            + seq!['}'],
        Value::Atom(id) => if depth > 0 && id < atoms.len() {
            "(atom "@ + pr_str_spec(atoms, atoms[id as int], true, (depth - 1) as nat) + seq![')']
        } else {
            "(atom ...)"@
        },
    }
}

/// The texts of the first `n` items, with one space between neighbours.
pub open spec fn pr_seq_spec(
    atoms: Seq<Value>,
    xs: Seq<Value>,
    readably: bool,
    depth: nat,
    n: nat,
) -> Seq<char>
    decreases depth, xs, n,
{
    if n == 0 || n > xs.len() {
        Seq::empty()
    } else if n == 1 {
        pr_str_spec(atoms, xs[0], readably, depth)
    } else {
        pr_seq_spec(atoms, xs, readably, depth, (n - 1) as nat) + seq![' '] + pr_str_spec(
            atoms,
            xs[n - 1],
            readably,
            depth,
        )
    }
}

/// The text of one entry: key, space, value.
pub open spec fn pr_entry_spec(
    atoms: Seq<Value>,
    es: Entries,
    readably: bool,
    depth: nat,
    i: int,
) -> Seq<char>
    decreases depth, es, 0nat,
{
    if 0 <= i < es.len() {
        pr_key_spec(es[i].0, readably) + seq![' '] + pr_str_spec(atoms, es[i].1, readably, depth)
    } else {
        Seq::empty()
    }
}

/// The texts of the first `n` entries, with one space between neighbours.
pub open spec fn pr_entries_spec(
    atoms: Seq<Value>,
    es: Entries,
    readably: bool,
    depth: nat,
    n: nat,
) -> Seq<char>
    decreases depth, es, n,
{
    if n == 0 || n > es.len() {
        Seq::empty()
    } else if n == 1 {
        pr_entry_spec(atoms, es, readably, depth, 0)
    } else {
        pr_entries_spec(atoms, es, readably, depth, (n - 1) as nat) + seq![' '] + pr_entry_spec(
            atoms,
            es,
            readably,
            depth,
            n - 1,
        )
    }
}

/// The text of a value, written so that the reader reads it back.
pub fn print(value: &LispValue, heap: &Heap) -> (r: String)
    ensures
        r@ == pr_str_spec(heap@.atoms, value@, true, heap@.atoms.len()),
{
    pr_str(value, true, heap)
}

/// The text of a value. With `readably`, strings are written as literals,
/// with their quotes and escapes; without, as they are.
pub fn pr_str(value: &LispValue, readably: bool, heap: &Heap) -> (r: String)
    ensures
        r@ == pr_str_spec(heap@.atoms, value@, readably, heap@.atoms.len()),
{
    let mut out = String::new();
    write_value(&mut out, value, readably, heap, heap.atoms.len());
    assert(out@ =~= pr_str_spec(heap@.atoms, value@, readably, heap@.atoms.len()));
    out
}

/// The texts of the items, with one space between neighbours.
pub fn pr_seq(s: &Vec<LispValue>, readably: bool, heap: &Heap) -> (r: String)
    ensures
        r@ == pr_seq_spec(heap@.atoms, views(s@), readably, heap@.atoms.len(), s@.len()),
{
    let mut out = String::new();
    write_seq(&mut out, s, readably, heap, heap.atoms.len(), s.len());
    assert(out@ =~= pr_seq_spec(heap@.atoms, views(s@), readably, heap@.atoms.len(), s@.len()));
    out
}

/// The literal that reads back as the string `s`.
pub fn unread_str(s: &str) -> (r: String)
    ensures
        r@ == unread_str_spec(s@),
{
    let mut out = String::new();
    write_escaped(&mut out, s);
    assert(out@ =~= unread_str_spec(s@));
    out
}

/// The text of a keyword: its name, colon included.
pub fn unread_keyword(s: &str) -> (r: String)
    ensures
        r@ == s@,
{
    String::from_str(s)
}

fn write_escaped(out: &mut String, s: &str)
    ensures
        final(out)@ == old(out)@ + unread_str_spec(s@),
{
    let chars = to_chars(s);
    out.push('"');
    let mut i: usize = 0;
    while i < chars.len()
        invariant
            i <= chars.len(),
            chars@ == s@,
            out@ == old(out)@ + seq!['"'] + escape_upto(s@, i as nat),
        decreases chars.len() - i,
    {
        let c = chars[i];
        let ghost before = out@;
        if c == '\n' {
            out.push('\\');
            out.push('n');
        } else if c == '\\' {
            out.push('\\');
            out.push('\\');
        } else if c == '"' {
            out.push('\\');
            out.push('"');
        } else {
            out.push(c);
        }
        assert(out@ =~= before + escape_char(c));
        assert(out@ =~= old(out)@ + seq!['"'] + escape_upto(s@, (i + 1) as nat));
        i += 1;
    }
    out.push('"');
    assert(out@ =~= old(out)@ + unread_str_spec(s@));
}

fn write_key(out: &mut String, k: &MapKey, readably: bool)
    ensures
        final(out)@ == old(out)@ + pr_key_spec(k@, readably),
{
    match k {
        MapKey::Keyword(s) => {
            out.append(s.as_str());
        },
        MapKey::String(s) => {
            if readably {
                write_escaped(out, s.as_str());
            } else {
                out.append(s.as_str());
            }
        },
    }
}

fn write_value(out: &mut String, value: &LispValue, readably: bool, heap: &Heap, depth: usize)
    ensures
        final(out)@ == old(out)@ + pr_str_spec(heap@.atoms, value@, readably, depth as nat),
    decreases depth, **value, 0nat,
{
    let ghost atoms = heap@.atoms;
    let ghost want = pr_str_spec(atoms, value@, readably, depth as nat);
    proof {
        assert(value@ == lisp_view(**value));
    }
    match &**value {
        LispType::Nil => {
            out.append("nil");
        },
        LispType::Boolean(b) => {
            if *b {
                out.append("true");
            } else {
                out.append("false");
            }
        },
        LispType::String(s) => {
            if readably {
                write_escaped(out, s.as_str());
            } else {
                out.append(s.as_str());
            }
        },
        LispType::Keyword(s) => {
            out.append(s.as_str());
        },
        LispType::Number(n) => {
            let text = number_text(*n);
            out.append(text.as_str());
        },
        LispType::Symbol(s, _) => {
            out.append(s.as_str());
        },
        LispType::Lambda { .. } => {
            out.append("#<fn>");
        },
        LispType::Macro { .. } => {
            out.append("#<macro>");
        },
        LispType::Fn(_, _) => {
            out.append("#<host-fn>");
        },
        LispType::List(xs, _) => {
            out.push('(');
            write_seq(out, xs, readably, heap, depth, xs.len());
            out.push(')');
            assert(out@ =~= old(out)@ + want);
        },
        LispType::Vector(xs, _) => {
            out.push('[');
            write_seq(out, xs, readably, heap, depth, xs.len());
            out.push(']');
            assert(out@ =~= old(out)@ + want);
        },
        LispType::Dict(es, _) => {
            out.push('{');
            proof {
                assert(entry_views(es.bindings@).len() == es.bindings.len());
            }
            write_entries(out, &es.bindings, readably, heap, depth, es.bindings.len());
            out.push('}');
            assert(out@ =~= old(out)@ + want);
        },
        LispType::Atom(id) => {
            if depth > 0 && *id < heap.atoms.len() {
                out.append("(atom ");
                proof {
                    assert(views(heap.atoms@)[*id as int] == heap.atoms@[*id as int]@);
                }
                write_value(out, &heap.atoms[*id], true, heap, depth - 1);
                out.push(')');
                assert(out@ =~= old(out)@ + want);
            } else {
                out.append("(atom ...)");
            }
        },
    }
}

fn write_seq(
    out: &mut String,
    xs: &Vec<LispValue>,
    readably: bool,
    heap: &Heap,
    depth: usize,
    n: usize,
)
    ensures
        final(out)@ == old(out)@ + pr_seq_spec(
            heap@.atoms,
            views(xs@),
            readably,
            depth as nat,
            n as nat,
        ),
    decreases depth, xs@, n,
{
    let ghost want = pr_seq_spec(heap@.atoms, views(xs@), readably, depth as nat, n as nat);
    proof {
        assert(views(xs@).len() == xs@.len());
    }
    if n == 0 || n > xs.len() {
        assert(out@ =~= old(out)@ + want);
    } else if n == 1 {
        write_value(out, &xs[0], readably, heap, depth);
    } else {
        write_seq(out, xs, readably, heap, depth, n - 1);
        out.push(' ');
        write_value(out, &xs[n - 1], readably, heap, depth);
        assert(out@ =~= old(out)@ + want);
    }
}

fn write_entry(
    out: &mut String,
    es: &Vec<(MapKey, LispValue)>,
    readably: bool,
    heap: &Heap,
    depth: usize,
    i: usize,
)
    requires
        i < es.len(),
    ensures
        final(out)@ == old(out)@ + pr_entry_spec(
            heap@.atoms,
            entry_views(es@),
            readably,
            depth as nat,
            i as int,
        ),
    decreases depth, es@, 0nat,
{
    let ghost want = pr_entry_spec(heap@.atoms, entry_views(es@), readably, depth as nat, i as int);
    proof {
        assert(entry_views(es@).len() == es@.len());
        assert(entry_views(es@)[i as int] == (es@[i as int].0@, es@[i as int].1@));
    }
    write_key(out, &es[i].0, readably);
    out.push(' ');
    write_value(out, &es[i].1, readably, heap, depth);
    assert(out@ =~= old(out)@ + want);
}

fn write_entries(
    out: &mut String,
    es: &Vec<(MapKey, LispValue)>,
    readably: bool,
    heap: &Heap,
    depth: usize,
    n: usize,
)
    ensures
        final(out)@ == old(out)@ + pr_entries_spec(
            heap@.atoms,
            entry_views(es@),
            readably,
            depth as nat,
            n as nat,
        ),
    decreases depth, es@, n,
{
    let ghost want = pr_entries_spec(heap@.atoms, entry_views(es@), readably, depth as nat, n as nat);
    proof {
        assert(entry_views(es@).len() == es@.len());
    }
    if n == 0 || n > es.len() {
        assert(out@ =~= old(out)@ + want);
    } else if n == 1 {
        write_entry(out, es, readably, heap, depth, 0);
    } else {
        write_entries(out, es, readably, heap, depth, n - 1);
        out.push(' ');
        write_entry(out, es, readably, heap, depth, n - 1);
        assert(out@ =~= old(out)@ + want);
    }
}

impl Assoc {
    /// The text of the bindings: each key, a space, its value, and one
    /// space between neighbours.
    pub fn print(&self, readably: bool, heap: &Heap) -> (r: String)
        ensures
            r@ == pr_entries_spec(
                heap@.atoms,
                self@,
                readably,
                heap@.atoms.len(),
                self@.len(),
            ),
    {
        let mut out = String::new();
        proof {
            assert(entry_views(self.bindings@).len() == self.bindings@.len());
        }
        write_entries(
            &mut out,
            &self.bindings,
            readably,
            heap,
            heap.atoms.len(),
            self.bindings.len(),
        );
        assert(out@ =~= pr_entries_spec(
            heap@.atoms,
            self@,
            readably,
            heap@.atoms.len(),
            self@.len(),
        ));
        out
    }
}

} // verus!
