//! The mathematical model of values: what every contract of this crate speaks of.

use vstd::prelude::*;

verus! {

/// A function that the host implements, named by its tag.
#[derive(Clone, Copy, Debug, PartialEq, Eq, Structural)]
pub enum HostFn {
    Add,
    Sub,
    Mul,
    Div,
    Prn,
    PrStr,
    Str,
    Println,
    List,
    IsList,
    IsEmpty,
    Count,
    Equal,
    Lt,
    Lte,
    Gt,
    Gte,
    ReadString,
    Slurp,
    Cons,
    Concat,
    Nth,
    First,
    Rest,
    Throw,
    Apply,
    MapOver,
    IsNil,
    IsTrue,
    IsFalse,
    IsSymbol,
    Readline,
    Atom,
    IsAtom,
    Deref,
    Reset,
    Swap,
    Symbol,
    Keyword,
    IsKeyword,
    Vector,
    IsVector,
    IsSequential,
    HashMap,
    IsMap,
    Assoc,
    Dissoc,
    Get,
    Contains,
    Keys,
    Vals,
    TimeMs,
    Conj,
    IsString,
    ToSeq,
    Meta,
    WithMeta,
    IsFn,
}

/// A value as contracts see it: text is a sequence of characters, a
/// collection a sequence of values, an environment or an atom a handle.
pub enum Value {
    Nil,
    Boolean(bool),
    String(Seq<char>),
    Keyword(Seq<char>),
    Number(i64),
    Symbol(Seq<char>, Box<Value>),
    Lambda { params: Seq<Value>, body: Seq<Value>, env: usize, metadata: Box<Value> },
    Macro { params: Seq<Value>, body: Seq<Value>, env: usize, metadata: Box<Value> },
    Fn(HostFn, Box<Value>),
    List(Seq<Value>, Box<Value>),
    Vector(Seq<Value>, Box<Value>),
    Dict(Seq<(Key, Value)>, Box<Value>),
    Atom(usize),
}

/// The model of an evaluation error.
pub enum Failure {
    WrongArity(Value),
    BadArguments(Value),
    MissingSymbol(Seq<char>),
    Message(Seq<char>),
    Exception(Value),
}

/// The key of a map's binding: a string or a keyword, each with its text.
/// A string and a keyword of the same text are two keys.
pub enum Key {
    String(Seq<char>),
    Keyword(Seq<char>),
}

/// The entries of a map, in the order in which their keys first came.
pub type Entries = Seq<(Key, Value)>;

impl Value {
    /// A list without metadata.
    pub open spec fn list(items: Seq<Value>) -> Value {
        Value::List(items, Box::new(Value::Nil))
    }

    /// A vector without metadata.
    pub open spec fn vector(items: Seq<Value>) -> Value {
        Value::Vector(items, Box::new(Value::Nil))
    }

    /// A symbol without metadata.
    pub open spec fn symbol(name: Seq<char>) -> Value {
        Value::Symbol(name, Box::new(Value::Nil))
    }

    /// A map without metadata.
    pub open spec fn dict(entries: Entries) -> Value {
        Value::Dict(entries, Box::new(Value::Nil))
    }

    /// Whether the value is a list or a vector.
    pub open spec fn is_sequential(self) -> bool {
        self is List || self is Vector
    }

    /// The items of a list or a vector; of anything else, none.
    pub open spec fn items(self) -> Seq<Value> {
        match self {
            Value::List(xs, _) => xs,
            Value::Vector(xs, _) => xs,
            _ => Seq::empty(),
        }
    }

    /// Whether the value is the symbol `name`.
    pub open spec fn is_symbol_named(self, name: Seq<char>) -> bool {
        self matches Value::Symbol(s, _) && s == name
    }

    /// Whether the value counts as false in a condition.
    pub open spec fn is_falsy(self) -> bool {
        self is Nil || self == Value::Boolean(false)
    }
}

/// The index of the first entry at or after `i` with key `key`, if there is one.
pub open spec fn entries_index_from(es: Entries, key: Key, i: nat) -> Option<nat>
    decreases es.len() - i,
{
    if i >= es.len() {
        None
    } else if es[i as int].0 == key {
        Some(i)
    } else {
        entries_index_from(es, key, i + 1)
    }
}

/// The index of the first entry with key `key`, if there is one.
pub open spec fn entries_index(es: Entries, key: Key) -> Option<nat> {
    entries_index_from(es, key, 0)
}

/// The value of the first entry with key `key`.
pub open spec fn entries_get(es: Entries, key: Key) -> Option<Value> {
    match entries_index(es, key) {
        Some(i) => Some(es[i as int].1),
        None => None,
    }
}

/// The entries with `key` bound to `val`: in place where the key is present,
/// at the end where it is new.
pub open spec fn entries_put(es: Entries, key: Key, val: Value) -> Entries {
    match entries_index(es, key) {
        Some(i) => es.update(i as int, (key, val)),
        None => es.push((key, val)),
    }
}

/// The first `n` entries without those whose key is `key`.
pub open spec fn entries_without(es: Entries, key: Key, n: nat) -> Entries
    decreases n,
{
    if n == 0 || n > es.len() {
        Seq::empty()
    } else if es[n - 1].0 == key {
        entries_without(es, key, (n - 1) as nat)
    } else {
        entries_without(es, key, (n - 1) as nat).push(es[n - 1])
    }
}

/// The entries without those whose key is `key`.
pub open spec fn entries_remove(es: Entries, key: Key) -> Entries {
    entries_without(es, key, es.len())
}

/// `base` with the first `n` entries of `more` put into it, first to last.
pub open spec fn entries_merge_upto(base: Entries, more: Entries, n: nat) -> Entries
    decreases n,
{
    if n == 0 || n > more.len() {
        base
    } else {
        entries_put(entries_merge_upto(base, more, (n - 1) as nat), more[n - 1].0, more[n - 1].1)
    }
}

/// `base` with every entry of `more` put into it, first to last.
pub open spec fn entries_merge(base: Entries, more: Entries) -> Entries {
    entries_merge_upto(base, more, more.len())
}

/// The key that a value gives when it is used as one: a string or a
/// keyword gives the key of its kind and text, another value gives none.
pub open spec fn as_key(v: Value) -> Option<Key> {
    match v {
        Value::String(s) => Some(Key::String(s)),
        Value::Keyword(s) => Some(Key::Keyword(s)),
        _ => None,
    }
}

/// The value that a key is: the string or the keyword that it came from.
pub open spec fn key_value(k: Key) -> Value {
    match k {
        Key::String(s) => Value::String(s),
        Key::Keyword(s) => Value::Keyword(s),
    }
}

/// The entries that the first `2 * n` items of `items` spell out as
/// alternating keys and values, or the failure of the first key that is
/// neither a string nor a keyword.
pub open spec fn entries_from_pairs(items: Seq<Value>, n: nat) -> Result<Entries, Failure>
    decreases n,
{
    if n == 0 || 2 * n > items.len() {
        Ok(Seq::empty())
    } else {
        match entries_from_pairs(items, (n - 1) as nat) {
            Err(e) => Err(e),
            Ok(es) => match as_key(items[2 * n - 2]) {
                Some(k) => Ok(entries_put(es, k, items[2 * n - 1])),
                None => Err(Failure::Message("key value is not hashable"@)),
            },
        }
    }
}

/// The entries that `items` spell out, or why they spell none.
pub open spec fn entries_from_items(items: Seq<Value>) -> Result<Entries, Failure> {
    if items.len() % 2 != 0 {
        Err(Failure::Message("need an even number of elements to make a map"@))
    } else {
        entries_from_pairs(items, items.len() / 2)
    }
}

/// Whether no key occurs twice.
pub open spec fn distinct_keys(es: Entries) -> bool {
    forall|i: int, j: int| 0 <= i < j < es.len() ==> (#[trigger] es[i]).0 != (#[trigger] es[j]).0
}

/// Where the search for a key ends: at the first entry that has it, or
/// nowhere if no entry from `i` on has it.
pub proof fn entries_index_finds(es: Entries, key: Key, i: nat)
    ensures
        match entries_index_from(es, key, i) {
            Some(j) => i <= j < es.len() && es[j as int].0 == key,
            None => forall|k: int| i <= k < es.len() ==> (#[trigger] es[k]).0 != key,
        },
    decreases es.len() - i,
{
    if i < es.len() && es[i as int].0 != key {
        entries_index_finds(es, key, i + 1);
    }
}

/// Binding a key keeps the keys distinct.
pub proof fn put_keeps_distinct(es: Entries, key: Key, val: Value)
    requires
        distinct_keys(es),
    ensures
        distinct_keys(entries_put(es, key, val)),
{
    entries_index_finds(es, key, 0);
    let r = entries_put(es, key, val);
    assert forall|i: int, j: int| 0 <= i < j < r.len() implies (#[trigger] r[i]).0 != (
    #[trigger] r[j]).0 by {
        match entries_index(es, key) {
            Some(p) => {
                assert(r[i].0 == es[i].0);
                assert(r[j].0 == es[j].0);
            },
            None => {
                if j < es.len() {
                    assert(r[i] == es[i] && r[j] == es[j]);
                } else {
                    assert(r[i] == es[i]);
                }
            },
        }
    }
}

/// Whether one of the first `n` entries has the key `key`.
pub open spec fn key_within(es: Entries, key: Key, n: nat) -> bool {
    exists|i: int| 0 <= i < n && i < es.len() && (#[trigger] es[i]).0 == key
}

/// Taking a key away keeps the keys distinct, and leaves only keys that
/// were there.
pub proof fn without_keeps_distinct(es: Entries, key: Key, n: nat)
    requires
        distinct_keys(es),
        n <= es.len(),
    ensures
        distinct_keys(entries_without(es, key, n)),
        forall|j: int|
            0 <= j < entries_without(es, key, n).len() ==> key_within(
                es,
                (#[trigger] entries_without(es, key, n)[j]).0,
                n,
            ),
        forall|j: int|
            0 <= j < entries_without(es, key, n).len() ==> (#[trigger] entries_without(
                es,
                key,
                n,
            )[j]).0 != key,
    decreases n,
{
    if n > 0 {
        without_keeps_distinct(es, key, (n - 1) as nat);
        let before = entries_without(es, key, (n - 1) as nat);
        let r = entries_without(es, key, n);
        let last = es[n - 1];
        assert forall|j: int| 0 <= j < before.len() implies key_within(
            es,
            (#[trigger] before[j]).0,
            n,
        ) && before[j].0 != last.0 by {
            assert(key_within(es, before[j].0, (n - 1) as nat));
            let w = choose|w: int| 0 <= w < n - 1 && w < es.len() && (#[trigger] es[w]).0 == before[j].0;
            assert(es[w].0 != es[n - 1].0);
        }
        if last.0 != key {
            assert(r == before.push(last));
            assert(key_within(es, last.0, n)) by {
                assert(es[n - 1].0 == last.0);
            }
            assert forall|j: int| 0 <= j < r.len() implies key_within(es, (#[trigger] r[j]).0, n) by {
                if j < before.len() {
                    assert(r[j] == before[j]);
                }
            }
            assert forall|i: int, j: int| 0 <= i < j < r.len() implies (#[trigger] r[i]).0 != (
            #[trigger] r[j]).0 by {
                assert(r[i] == before[i]);
                if j < before.len() {
                    assert(r[j] == before[j]);
                }
            }
        }
    }
}

/// Putting entries into others keeps the keys distinct.
pub proof fn merge_keeps_distinct(base: Entries, more: Entries, n: nat)
    requires
        distinct_keys(base),
    ensures
        distinct_keys(entries_merge_upto(base, more, n)),
    decreases n,
{
    if !(n == 0 || n > more.len()) {
        merge_keeps_distinct(base, more, (n - 1) as nat);
        put_keeps_distinct(
            entries_merge_upto(base, more, (n - 1) as nat),
            more[n - 1].0,
            more[n - 1].1,
        );
    }
}

/// The entries that items spell out have distinct keys.
pub proof fn pairs_are_distinct(items: Seq<Value>, n: nat)
    ensures
        match entries_from_pairs(items, n) {
            Ok(es) => distinct_keys(es),
            Err(_) => true,
        },
    decreases n,
{
    if !(n == 0 || 2 * n > items.len()) {
        pairs_are_distinct(items, (n - 1) as nat);
        match entries_from_pairs(items, (n - 1) as nat) {
            Ok(es) => match as_key(items[2 * n - 2]) {
                Some(k) => {
                    put_keeps_distinct(es, k, items[2 * n - 1]);
                },
                None => {},
            },
            Err(_) => {},
        }
    }
}

/// Structural equality of values. A list and a vector with equal items are
/// equal; metadata takes part; closures and atoms equal nothing.
pub open spec fn lisp_eq(a: Value, b: Value) -> bool
    decreases a, 0nat,
{
    match a {
        Value::Nil => b is Nil,
        Value::Boolean(x) => b == Value::Boolean(x),
        Value::String(s) => b == Value::String(s),
        Value::Keyword(s) => b == Value::Keyword(s),
        Value::Number(n) => b == Value::Number(n),
        Value::Symbol(s, ma) => match b {
            Value::Symbol(t, mb) => s == t && lisp_eq(*ma, *mb),
            _ => false,
        },
        Value::Lambda { .. } => false,
        Value::Macro { .. } => false,
        Value::Fn(f, ma) => match b {
            Value::Fn(g, mb) => f == g && lisp_eq(*ma, *mb),
            _ => false,
        },
        Value::List(xs, ma) => match b {
            Value::List(ys, mb) => items_eq(xs, ys, 0) && lisp_eq(*ma, *mb),
            Value::Vector(ys, mb) => items_eq(xs, ys, 0) && lisp_eq(*ma, *mb),
            _ => false,
        },
        Value::Vector(xs, ma) => match b {
            Value::List(ys, mb) => items_eq(xs, ys, 0) && lisp_eq(*ma, *mb),
            Value::Vector(ys, mb) => items_eq(xs, ys, 0) && lisp_eq(*ma, *mb),
            _ => false,
        },
        Value::Dict(es, ma) => match b {
            Value::Dict(fs, mb) => es.len() == fs.len() && entries_within(es, fs, 0) && lisp_eq(
                *ma,
                *mb,
            ),
            _ => false,
        },
        Value::Atom(_) => false,
    }
}

/// Whether `xs` and `ys` have the same length and equal items from `i` on.
pub open spec fn items_eq(xs: Seq<Value>, ys: Seq<Value>, i: nat) -> bool
    decreases xs, xs.len() - i,
{
    if xs.len() != ys.len() {
        false
    } else if i >= xs.len() {
        true
    } else {
        lisp_eq(xs[i as int], ys[i as int]) && items_eq(xs, ys, i + 1)
    }
}

/// Whether each entry of `es` from `i` on has its key in `fs`, with an equal value.
pub open spec fn entries_within(es: Entries, fs: Entries, i: nat) -> bool
    decreases es, es.len() - i,
{
    if i >= es.len() {
        true
    } else {
        (match entries_get(fs, es[i as int].0) {
            Some(v) => lisp_eq(es[i as int].1, v),
            None => false,
        }) && entries_within(es, fs, i + 1)
    }
}


/// The model of one environment frame.
pub struct FrameModel {
    pub bindings: Map<Seq<char>, Value>,
    pub outer: Option<usize>,
}

/// The frames of all environments, each under its handle.
pub type Frames = Seq<FrameModel>;

/// The value that `key` has in the frame `env` or, failing that, in the
/// nearest of its outer frames that binds it. An outer frame is older than
/// the frame that names it.
pub open spec fn frames_find(fs: Frames, env: usize, key: Seq<char>) -> Option<Value>
    decreases env,
{
    if env >= fs.len() {
        None
    } else if fs[env as int].bindings.contains_key(key) {
        Some(fs[env as int].bindings[key])
    } else {
        match fs[env as int].outer {
            Some(o) => if o < env {
                frames_find(fs, o, key)
            } else {
                None
            },
            None => None,
        }
    }
}

/// What a lookup of `key` from the frame `env` gives.
pub open spec fn frames_get(fs: Frames, env: usize, key: Seq<char>) -> Result<Value, Failure> {
    match frames_find(fs, env, key) {
        Some(v) => Ok(v),
        None => Err(Failure::MissingSymbol(key)),
    }
}

/// The frames after `key` is bound to `val` in the frame `env` itself.
pub open spec fn frames_set(fs: Frames, env: usize, key: Seq<char>, val: Value) -> Frames {
    if env < fs.len() {
        fs.update(
            env as int,
            FrameModel { bindings: fs[env as int].bindings.insert(key, val), outer: fs[env as int].outer },
        )
    } else {
        fs
    }
}

/// The frames with one more, which holds `bindings` and has `outer` around it.
pub open spec fn frames_push(
    fs: Frames,
    outer: Option<usize>,
    bindings: Map<Seq<char>, Value>,
) -> Frames {
    fs.push(FrameModel { bindings, outer })
}

/// The outermost frame around `env`.
pub open spec fn frames_root(fs: Frames, env: usize) -> usize
    decreases env,
{
    if env >= fs.len() {
        env
    } else {
        match fs[env as int].outer {
            Some(o) => if o < env {
                frames_root(fs, o)
            } else {
                env
            },
            None => env,
        }
    }
}

/// One thing that passes between the interpreter and its host.
pub enum Event {
    /// A line was handed over for printing.
    Printed(Seq<char>),
    /// A file was asked for by its path: its contents, if it could be read.
    FileRead(Seq<char>, Option<Seq<char>>),
    /// A line of input was asked for with a prompt: the line, if there was one.
    LineRead(Seq<char>, Option<Seq<char>>),
    /// The clock was read: seconds and nanoseconds since the epoch.
    Clock(i64, i32),
}

/// What passed between the interpreter and its host, oldest first.
pub type Transcript = Seq<Event>;

/// Whether the transcript `a` is how the transcript `b` begins.
pub open spec fn begins(a: Transcript, b: Transcript) -> bool {
    a.len() <= b.len() && forall|i: int|
        #![trigger a[i]]
        #![trigger b[i]]
        0 <= i < a.len() ==> a[i] == b[i]
}

/// Everything that outlives one evaluation: the frames, the atoms' cells,
/// and what has passed between the interpreter and its host.
pub struct Store {
    pub frames: Frames,
    pub atoms: Seq<Value>,
    pub log: Transcript,
}

impl Store {
    /// The store after `key` is bound to `val` in the frame `env`.
    pub open spec fn set(self, env: usize, key: Seq<char>, val: Value) -> Store {
        Store { frames: frames_set(self.frames, env, key, val), ..self }
    }

    /// What a lookup of `key` from the frame `env` gives.
    pub open spec fn get(self, env: usize, key: Seq<char>) -> Result<Value, Failure> {
        frames_get(self.frames, env, key)
    }

    /// The store with one more frame.
    pub open spec fn push_frame(
        self,
        outer: Option<usize>,
        bindings: Map<Seq<char>, Value>,
    ) -> Store {
        Store { frames: frames_push(self.frames, outer, bindings), ..self }
    }

    /// The store with one more atom, which holds `v`.
    pub open spec fn push_atom(self, v: Value) -> Store {
        Store { atoms: self.atoms.push(v), ..self }
    }

    /// The store after `event` has passed.
    pub open spec fn record(self, event: Event) -> Store {
        Store { log: self.log.push(event), ..self }
    }

    /// What passes next, where the whole transcript turns out to be `t`.
    pub open spec fn next_event(self, t: Transcript) -> Option<Event> {
        if self.log.len() < t.len() {
            Some(t[self.log.len() as int])
        } else {
            None
        }
    }

    /// What the atom `id` holds.
    pub open spec fn deref(self, id: usize) -> Option<Value> {
        if id < self.atoms.len() {
            Some(self.atoms[id as int])
        } else {
            None
        }
    }

    /// The store after the atom `id` is made to hold `v`.
    pub open spec fn reset(self, id: usize, v: Value) -> Store {
        if id < self.atoms.len() {
            Store { atoms: self.atoms.update(id as int, v), ..self }
        } else {
            self
        }
    }
}

} // verus!
