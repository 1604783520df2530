//! The values of the language and the association lists behind its maps.

use crate::env::Env;
use crate::error::{error_message, EvaluationError};
use crate::heap::Heap;
use crate::model::{
    as_key, distinct_keys, entries_from_items, entries_from_pairs, entries_get, entries_index,
    entries_index_from, entries_merge, entries_merge_upto, entries_put, entries_remove,
    entries_within, entries_without, items_eq, key_value, lisp_eq, merge_keeps_distinct,
    pairs_are_distinct, put_keeps_distinct, without_keeps_distinct, Entries, Failure, HostFn, Key,
    Value,
};
use crate::text::owned;
use std::rc::Rc;
use vstd::prelude::*;
use vstd::std_specs::cmp::PartialEqSpecImpl;

verus! {

/// A shared, immutable value.
pub type LispValue = Rc<LispType>;

/// The metadata of a value: any value, most often a map.
pub type Metadata = LispValue;

/// What an evaluation gives.
pub type EvaluationResult = Result<LispValue, EvaluationError>;

/// The handle of an atom's cell.
pub type AtomRef = usize;

/// A value of the language.
#[derive(Debug, Clone)]
pub enum LispType {
    Nil,
    Boolean(bool),
    String(String),
    Keyword(String),
    Number(i64),
    Symbol(String, Metadata),
    Lambda { params: Vec<LispValue>, body: Vec<LispValue>, env: Env, metadata: Metadata },
    Macro { params: Vec<LispValue>, body: Vec<LispValue>, env: Env, metadata: Metadata },
    Fn(HostFn, Metadata),
    List(Vec<LispValue>, Metadata),
    Vector(Vec<LispValue>, Metadata),
    Dict(Assoc, Metadata),
    Atom(AtomRef),
}

/// The key of a map's binding: a string or a keyword, each with its text.
#[derive(Debug, Clone)]
pub enum MapKey {
    String(String),
    Keyword(String),
}

impl View for MapKey {
    type V = Key;

    open spec fn view(&self) -> Key {
        match *self {
            MapKey::String(s) => Key::String(s@),
            MapKey::Keyword(s) => Key::Keyword(s@),
        }
    }
}

impl MapKey {
    /// A copy of the key.
    pub fn copy(&self) -> (r: MapKey)
        ensures
            r == *self,
    {
        match self {
            MapKey::String(s) => MapKey::String(s.clone()),
            MapKey::Keyword(s) => MapKey::Keyword(s.clone()),
        }
    }

    /// Whether two keys are one: of the same kind and the same text.
    pub fn same(&self, other: &MapKey) -> (r: bool)
        ensures
            r == (self@ == other@),
    {
        match self {
            MapKey::String(s) => match other {
                MapKey::String(t) => *s == *t,
                MapKey::Keyword(_) => false,
            },
            MapKey::Keyword(s) => match other {
                MapKey::String(_) => false,
                MapKey::Keyword(t) => *s == *t,
            },
        }
    }
}

/// The bindings of a map, in the order in which their keys first came.
#[derive(Debug, Clone)]
pub struct Assoc {
    pub bindings: Vec<(MapKey, LispValue)>,
}

/// The model of a value.
pub open spec fn lisp_view(v: LispType) -> Value
    decreases v,
{
    match v {
        LispType::Nil => Value::Nil,
        LispType::Boolean(b) => Value::Boolean(b),
        LispType::String(s) => Value::String(s@),
        LispType::Keyword(s) => Value::Keyword(s@),
        LispType::Number(n) => Value::Number(n),
        LispType::Symbol(s, m) => Value::Symbol(s@, Box::new(lisp_view(*m))),
        LispType::Lambda { params, body, env, metadata } => Value::Lambda {
            params: views(params@),
            body: views(body@),
            env,
            metadata: Box::new(lisp_view(*metadata)),
        },
        LispType::Macro { params, body, env, metadata } => Value::Macro {
            params: views(params@),
            body: views(body@),
            env,
            metadata: Box::new(lisp_view(*metadata)),
        },
        LispType::Fn(f, m) => Value::Fn(f, Box::new(lisp_view(*m))),
        LispType::List(xs, m) => Value::List(views(xs@), Box::new(lisp_view(*m))),
        LispType::Vector(xs, m) => Value::Vector(views(xs@), Box::new(lisp_view(*m))),
        LispType::Dict(a, m) => Value::Dict(entry_views(a.bindings@), Box::new(lisp_view(*m))),
        LispType::Atom(id) => Value::Atom(id),
    }
}

/// The models of a sequence of values.
pub open spec fn views(xs: Seq<LispValue>) -> Seq<Value>
    decreases xs,
{
    Seq::new(
        xs.len(),
        |i: int|
            if 0 <= i < xs.len() {
                lisp_view(*xs[i])
            } else {
                Value::Nil
            },
    )
}

/// The models of a sequence of bindings.
pub open spec fn entry_views(es: Seq<(MapKey, LispValue)>) -> Entries
    decreases es,
{
    Seq::new(
        es.len(),
        |i: int|
            if 0 <= i < es.len() {
                (es[i].0@, lisp_view(*es[i].1))
            } else {
                (Key::String(Seq::empty()), Value::Nil)
            },
    )
}

impl View for LispType {
    type V = Value;

    open spec fn view(&self) -> Value {
        lisp_view(*self)
    }
}

impl View for Assoc {
    type V = Entries;

    open spec fn view(&self) -> Entries {
        entry_views(self.bindings@)
    }
}

/// The model of an evaluation's result.
pub open spec fn result_view(r: EvaluationResult) -> Result<Value, Failure> {
    match r {
        Ok(v) => Ok(v@),
        Err(e) => Err(e@),
    }
}

/// `Rc::clone` of the standard library gives another handle on the same
/// shared value: what it points to is what the argument points to.
#[verifier::external_body]
pub(crate) fn share(v: &LispValue) -> (r: LispValue)
    ensures
        r == *v,
{
    v.clone()
}

/// A copy of a sequence of values that shares each of them.
pub fn share_all(xs: &Vec<LispValue>) -> (r: Vec<LispValue>)
    ensures
        r@ == xs@,
{
    let mut out: Vec<LispValue> = Vec::new();
    let mut i: usize = 0;
    while i < xs.len()
        invariant
            i <= xs.len(),
            out@ == xs@.subrange(0, i as int),
        decreases xs.len() - i,
    {
        out.push(share(&xs[i]));
        assert(xs@.subrange(0, i as int).push(xs@[i as int]) =~= xs@.subrange(0, i + 1));
        i += 1;
    }
    assert(xs@.subrange(0, xs.len() as int) =~= xs@);
    out
}

/// A copy of `xs[from..]` that shares each value.
pub fn share_from(xs: &Vec<LispValue>, from: usize) -> (r: Vec<LispValue>)
    ensures
        from <= xs.len() ==> r@ == xs@.subrange(from as int, xs.len() as int),
        from > xs.len() ==> r@.len() == 0,
{
    let mut out: Vec<LispValue> = Vec::new();
    if from > xs.len() {
        return out;
    }
    let mut i: usize = from;
    while i < xs.len()
        invariant
            from <= i <= xs.len(),
            out@ == xs@.subrange(from as int, i as int),
        decreases xs.len() - i,
    {
        out.push(share(&xs[i]));
        assert(xs@.subrange(from as int, i as int).push(xs@[i as int]) =~= xs@.subrange(
            from as int,
            i + 1,
        ));
        i += 1;
    }
    out
}

/// The views of a sequence with one more item are the views with one more view.
pub proof fn views_push(xs: Seq<LispValue>, v: LispValue)
    ensures
        views(xs.push(v)) == views(xs).push(v@),
{
    assert(views(xs.push(v)) =~= views(xs).push(v@));
}

/// The views of a part of a sequence are that part of the views.
pub proof fn views_subrange(xs: Seq<LispValue>, from: int, to: int)
    requires
        0 <= from <= to <= xs.len(),
    ensures
        views(xs.subrange(from, to)) == views(xs).subrange(from, to),
{
    assert(views(xs.subrange(from, to)) =~= views(xs).subrange(from, to));
}

/// The views of two sequences joined are the views joined.
pub proof fn views_add(xs: Seq<LispValue>, ys: Seq<LispValue>)
    ensures
        views(xs + ys) == views(xs) + views(ys),
{
    assert(views(xs + ys) =~= views(xs) + views(ys));
}

fn value_of(t: LispType) -> (r: LispValue)
    ensures
        r@ == t@,
{
    Rc::new(t)
}

fn meta_or_nil(meta: Option<LispValue>) -> (r: LispValue)
    ensures
        r@ == (match meta {
            Some(m) => m@,
            None => Value::Nil,
        }),
{
    match meta {
        Some(m) => m,
        None => new_nil(),
    }
}

/// The model of optional metadata: nil where there is none.
pub open spec fn meta_view(meta: Option<LispValue>) -> Box<Value> {
    Box::new(
        match meta {
            Some(m) => m@,
            None => Value::Nil,
        },
    )
}

/// The value nil.
pub fn new_nil() -> (r: LispValue)
    ensures
        r@ == Value::Nil,
{
    value_of(LispType::Nil)
}

/// A boolean.
pub fn new_boolean(b: bool) -> (r: LispValue)
    ensures
        r@ == Value::Boolean(b),
{
    value_of(LispType::Boolean(b))
}

/// A string with the characters of `s`.
pub fn new_string(s: &str) -> (r: LispValue)
    ensures
        r@ == Value::String(s@),
{
    value_of(LispType::String(owned(s)))
}

/// A number.
pub fn new_number(n: i64) -> (r: LispValue)
    ensures
        r@ == Value::Number(n),
{
    value_of(LispType::Number(n))
}

/// The symbol named `s`, with `meta` for its metadata, or nil.
pub fn new_symbol(s: &str, meta: Option<LispValue>) -> (r: LispValue)
    ensures
        r@ == Value::Symbol(s@, meta_view(meta)),
{
    let meta = meta_or_nil(meta);
    value_of(LispType::Symbol(owned(s), meta))
}

/// A lambda with the given parameters and body, made in the frame `env`.
pub fn new_lambda(
    params: Vec<LispValue>,
    body: Vec<LispValue>,
    env: Env,
    meta: Option<LispValue>,
) -> (r: LispValue)
    ensures
        r@ == (Value::Lambda {
            params: views(params@),
            body: views(body@),
            env,
            metadata: meta_view(meta),
        }),
{
    let meta = meta_or_nil(meta);
    value_of(LispType::Lambda { params: params, body: body, env: env, metadata: meta })
}

/// A macro with the given parameters and body, made in the frame `env`.
pub fn new_macro(
    params: Vec<LispValue>,
    body: Vec<LispValue>,
    env: Env,
    meta: Option<LispValue>,
) -> (r: LispValue)
    ensures
        r@ == (Value::Macro {
            params: views(params@),
            body: views(body@),
            env,
            metadata: meta_view(meta),
        }),
{
    let meta = meta_or_nil(meta);
    value_of(LispType::Macro { params: params, body: body, env: env, metadata: meta })
}

/// The host function `f` as a value.
pub fn new_fn(f: HostFn, meta: Option<LispValue>) -> (r: LispValue)
    ensures
        r@ == Value::Fn(f, meta_view(meta)),
{
    let meta = meta_or_nil(meta);
    value_of(LispType::Fn(f, meta))
}

/// A list of the items `s`.
pub fn new_list(s: Vec<LispValue>, meta: Option<LispValue>) -> (r: LispValue)
    ensures
        r@ == Value::List(views(s@), meta_view(meta)),
{
    let meta = meta_or_nil(meta);
    value_of(LispType::List(s, meta))
}

/// A vector of the items `s`.
pub fn new_vector(s: Vec<LispValue>, meta: Option<LispValue>) -> (r: LispValue)
    ensures
        r@ == Value::Vector(views(s@), meta_view(meta)),
{
    let meta = meta_or_nil(meta);
    value_of(LispType::Vector(s, meta))
}

/// A new atom that holds `atom`.
pub fn new_atom(atom: LispValue, heap: &mut Heap) -> (r: LispValue)
    ensures
        r@ == Value::Atom(old(heap)@.atoms.len() as usize),
        final(heap)@ == old(heap)@.push_atom(atom@),
{
    let id = heap.new_cell(atom);
    value_of(LispType::Atom(id))
}

/// The keyword whose text, colon included, is `s`.
pub fn new_keyword(s: &str) -> (r: LispValue)
    ensures
        r@ == Value::Keyword(s@),
{
    value_of(LispType::Keyword(owned(s)))
}

/// A map with the bindings `m`.
pub fn new_map(m: Assoc, meta: Option<LispValue>) -> (r: LispValue)
    ensures
        r@ == Value::Dict(m@, meta_view(meta)),
{
    let meta = meta_or_nil(meta);
    value_of(LispType::Dict(m, meta))
}

/// Metadata with the bindings `m`: a map without metadata of its own.
pub fn new_metadata(m: Assoc) -> (r: LispValue)
    ensures
        r@ == Value::dict(m@),
{
    new_map(m, None)
}


/// The model of a map-building result.
pub open spec fn assoc_result_view(r: Result<Assoc, EvaluationError>) -> Result<Entries, Failure> {
    match r {
        Ok(a) => Ok(a@),
        Err(e) => Err(e@),
    }
}

/// The key that a value gives when it is used as one.
pub fn key_of(key: &LispValue) -> (r: Option<MapKey>)
    ensures
        match r {
            Some(k) => as_key(key@) == Some(k@),
            None => as_key(key@) is None,
        },
{
    match &**key {
        LispType::String(s) => Some(MapKey::String(s.clone())),
        LispType::Keyword(s) => Some(MapKey::Keyword(s.clone())),
        _ => None,
    }
}

/// The value that the key `k` is: the string or the keyword that it came from.
pub fn value_of_key(k: &MapKey) -> (r: LispValue)
    ensures
        r@ == key_value(k@),
{
    match k {
        MapKey::String(s) => new_string(s.as_str()),
        MapKey::Keyword(s) => new_keyword(s.as_str()),
    }
}

impl Assoc {
    /// Whether no key is bound twice. Every map that these methods make
    /// is well formed, and they keep a well-formed map so.
    pub open spec fn wf(&self) -> bool {
        distinct_keys(self@)
    }

    /// A map without bindings.
    pub fn new() -> (r: Assoc)
        ensures
            r@ == Seq::<(Key, Value)>::empty(),
            r.wf(),
    {
        let r = Assoc { bindings: Vec::new() };
        assert(r@ =~= Seq::<(Key, Value)>::empty());
        r
    }

    /// Where the key is bound, if it is.
    pub fn position(&self, key: &MapKey) -> (r: Option<usize>)
        ensures
            match r {
                Some(i) => entries_index(self@, key@) == Some(i as nat) && i < self.bindings.len(),
                None => entries_index(self@, key@) is None,
            },
    {
        let mut i: usize = 0;
        while i < self.bindings.len()
            invariant
                i <= self.bindings.len(),
                entries_index(self@, key@) == entries_index_from(self@, key@, i as nat),
            decreases self.bindings.len() - i,
        {
            if self.bindings[i].0.same(key) {
                return Some(i);
            }
            i += 1;
        }
        None
    }

    /// The map that a sequence of alternating keys and values spells out.
    pub fn from_seq(seq: Vec<LispValue>) -> (r: Result<Assoc, EvaluationError>)
        ensures
            assoc_result_view(r) == entries_from_items(views(seq@)),
            r matches Ok(map) ==> map.wf(),
    {
        proof {
            pairs_are_distinct(views(seq@), (seq@.len() / 2) as nat);
        }
        if seq.len() % 2 != 0 {
            return Err(error_message("need an even number of elements to make a map"));
        }
        let mut map = Assoc::new();
        let pairs = seq.len() / 2;
        let mut n: usize = 0;
        proof {
            assert(entries_from_pairs(views(seq@), 0) == Ok::<Entries, Failure>(Seq::empty()));
        }
        while n < pairs
            invariant
                n <= pairs,
                pairs == seq.len() / 2,
                seq.len() % 2 == 0,
                entries_from_pairs(views(seq@), n as nat) == Ok::<Entries, Failure>(map@),
            decreases pairs - n,
        {
            let r = map.insert(share(&seq[2 * n]), share(&seq[2 * n + 1]));
            match r {
                Err(e) => {
                    proof {
                        let items = views(seq@);
                        assert(items[2 * n] == seq@[2 * n]@);
                        assert(as_key(items[2 * (n + 1) - 2]) is None);
                        assert(entries_from_pairs(items, (n + 1) as nat) == Err::<Entries, Failure>(
                            Failure::Message("key value is not hashable"@),
                        ));
                        Self::pairs_fail_on(items, (n + 1) as nat, pairs as nat);
                    }
                    return Err(e);
                },
                Ok(_) => {},
            }
            n += 1;
        }
        Ok(map)
    }

    proof fn pairs_fail_on(items: Seq<Value>, n: nat, m: nat)
        requires
            n <= m,
            2 * m <= items.len(),
            entries_from_pairs(items, n) is Err,
        ensures
            entries_from_pairs(items, m) == entries_from_pairs(items, n),
        decreases m - n,
    {
        if n < m {
            Self::pairs_fail_on(items, n, (m - 1) as nat);
        }
    }

    /// Binds `key` to `value`: in place where the key is bound already, at the
    /// end where it is new. A key is a string or a keyword.
    pub fn insert(&mut self, key: LispValue, value: LispValue) -> (r: EvaluationResult)
        ensures
            match as_key(key@) {
                Some(k) => result_view(r) == Ok::<Value, Failure>(Value::Nil) && final(self)@
                    == entries_put(old(self)@, k, value@),
                None => result_view(r) == Err::<Value, Failure>(
                    Failure::Message("key value is not hashable"@),
                ) && final(self)@ == old(self)@,
            },
            old(self).wf() ==> final(self).wf(),
    {
        match key_of(&key) {
            Some(k) => {
                self.put(k, value);
                Ok(new_nil())
            },
            None => Err(error_message("key value is not hashable")),
        }
    }

    /// Binds the key `key` to `value`.
    pub fn put(&mut self, key: MapKey, value: LispValue)
        ensures
            final(self)@ == entries_put(old(self)@, key@, value@),
            old(self).wf() ==> final(self).wf(),
    {
        proof {
            if self.wf() {
                put_keeps_distinct(self@, key@, value@);
            }
        }
        match self.position(&key) {
            Some(i) => {
                self.bindings.set(i, (key, value));
                assert(final(self)@ =~= entries_put(old(self)@, key@, value@));
            },
            None => {
                self.bindings.push((key, value));
                assert(final(self)@ =~= entries_put(old(self)@, key@, value@));
            },
        }
    }

    /// The value bound to `key`.
    pub fn get(&self, key: &LispValue) -> (r: EvaluationResult)
        ensures
            result_view(r) == (match as_key(key@) {
                Some(k) => match entries_get(self@, k) {
                    Some(v) => Ok(v),
                    None => Err(Failure::Message("could not find value in map"@)),
                },
                None => Err(Failure::Message("key value is not hashable"@)),
            }),
    {
        match key_of(key) {
            Some(k) => match self.position(&k) {
                Some(i) => Ok(share(&self.bindings[i].1)),
                None => Err(error_message("could not find value in map")),
            },
            None => Err(error_message("key value is not hashable")),
        }
    }

    /// Whether `key` is bound; a value that cannot be a key is bound nowhere.
    pub fn contains(&self, key: &LispValue) -> (r: EvaluationResult)
        ensures
            result_view(r) == Ok::<Value, Failure>(
                Value::Boolean(
                    match as_key(key@) {
                        Some(k) => entries_get(self@, k) is Some,
                        None => false,
                    },
                ),
            ),
    {
        let exists = match key_of(key) {
            Some(k) => self.position(&k).is_some(),
            None => false,
        };
        Ok(new_boolean(exists))
    }

    /// Puts every binding of `map` into this one, first to last.
    pub fn merge(&mut self, map: &Assoc) -> (r: EvaluationResult)
        ensures
            result_view(r) == Ok::<Value, Failure>(Value::Nil),
            final(self)@ == entries_merge(old(self)@, map@),
            old(self).wf() ==> final(self).wf(),
    {
        proof {
            if self.wf() {
                merge_keeps_distinct(self@, map@, map@.len());
            }
        }
        let mut i: usize = 0;
        while i < map.bindings.len()
            invariant
                i <= map.bindings.len(),
                self@ == entries_merge_upto(old(self)@, map@, i as nat),
            decreases map.bindings.len() - i,
        {
            self.put(map.bindings[i].0.copy(), share(&map.bindings[i].1));
            i += 1;
        }
        Ok(new_nil())
    }

    /// Takes the binding of the key `key` away, if there is one. A key of
    /// the other kind with the same text stays.
    pub fn remove(&mut self, key: &MapKey)
        ensures
            final(self)@ == entries_remove(old(self)@, key@),
            old(self).wf() ==> final(self).wf(),
    {
        proof {
            if self.wf() {
                without_keeps_distinct(self@, key@, self@.len());
            }
        }
        let mut kept: Vec<(MapKey, LispValue)> = Vec::new();
        let mut i: usize = 0;
        while i < self.bindings.len()
            invariant
                i <= self.bindings.len(),
                entry_views(kept@) == entries_without(self@, key@, i as nat),
            decreases self.bindings.len() - i,
        {
            if !self.bindings[i].0.same(key) {
                let ghost before = kept@;
                kept.push((self.bindings[i].0.copy(), share(&self.bindings[i].1)));
                assert(entry_views(kept@) =~= entry_views(before).push(self@[i as int]));
            }
            i += 1;
        }
        self.bindings = kept;
    }

    /// The keys as a list, in order: each comes back as the string or the
    /// keyword that it was put in as.
    pub fn keys(&self) -> (r: EvaluationResult)
        ensures
            result_view(r) == Ok::<Value, Failure>(Value::list(key_values(self@))),
    {
        let mut result: Vec<LispValue> = Vec::new();
        let mut i: usize = 0;
        while i < self.bindings.len()
            invariant
                i <= self.bindings.len(),
                views(result@) == key_values(self@).subrange(0, i as int),
            decreases self.bindings.len() - i,
        {
            let ghost before = result@;
            result.push(value_of_key(&self.bindings[i].0));
            assert(views(result@) =~= views(before).push(key_value(self@[i as int].0)));
            assert(views(result@) =~= key_values(self@).subrange(0, i + 1));
            i += 1;
        }
        assert(views(result@) =~= key_values(self@));
        Ok(new_list(result, None))
    }

    /// The values as a list, in the order of their keys.
    pub fn vals(&self) -> (r: EvaluationResult)
        ensures
            result_view(r) == Ok::<Value, Failure>(Value::list(entry_values(self@))),
    {
        let mut result: Vec<LispValue> = Vec::new();
        let mut i: usize = 0;
        while i < self.bindings.len()
            invariant
                i <= self.bindings.len(),
                views(result@) == entry_values(self@).subrange(0, i as int),
            decreases self.bindings.len() - i,
        {
            let ghost before = result@;
            result.push(share(&self.bindings[i].1));
            assert(views(result@) =~= views(before).push(self@[i as int].1));
            assert(views(result@) =~= entry_values(self@).subrange(0, i + 1));
            i += 1;
        }
        assert(views(result@) =~= entry_values(self@));
        Ok(new_list(result, None))
    }

    /// A copy that shares the values.
    pub fn share(&self) -> (r: Assoc)
        ensures
            r@ == self@,
    {
        let mut out: Vec<(MapKey, LispValue)> = Vec::new();
        let mut i: usize = 0;
        while i < self.bindings.len()
            invariant
                i <= self.bindings.len(),
                entry_views(out@) == self@.subrange(0, i as int),
            decreases self.bindings.len() - i,
        {
            let ghost before = out@;
            out.push((self.bindings[i].0.copy(), share(&self.bindings[i].1)));
            assert(entry_views(out@) =~= entry_views(before).push(self@[i as int]));
            assert(entry_views(out@) =~= self@.subrange(0, i + 1));
            i += 1;
        }
        assert(entry_views(out@) =~= self@);
        Assoc { bindings: out }
    }
}

/// The keys of the entries in order, each as the string or the keyword
/// that it was put in as.
pub open spec fn key_values(es: Entries) -> Seq<Value> {
    Seq::new(es.len(), |i: int| key_value(es[i].0))
}

/// The values of the entries.
pub open spec fn entry_values(es: Entries) -> Seq<Value> {
    Seq::new(es.len(), |i: int| es[i].1)
}

/// The map that a sequence of alternating keys and values spells out, as a value.
pub fn new_map_from_seq(s: Vec<LispValue>) -> (r: EvaluationResult)
    ensures
        result_view(r) == (match entries_from_items(views(s@)) {
            Ok(es) => Ok(Value::dict(es)),
            Err(e) => Err(e),
        }),
{
    match Assoc::from_seq(s) {
        Ok(assoc) => Ok(new_map(assoc, None)),
        Err(e) => Err(e),
    }
}


/// A new map whose bindings are what `f` makes of each binding of `m`, in
/// order; where `f` gives a key twice, the later value stays. The first
/// error of `f` is the result.
pub fn new_map_from_fn<F>(m: &Assoc, f: F) -> (r: EvaluationResult) where
    F: Fn(MapKey, LispValue) -> Result<(MapKey, LispValue), EvaluationError>,

    requires
        forall|k: MapKey, v: LispValue| f.requires((k, v)),
    ensures
        match r {
            Ok(v) => exists|outs: Seq<(MapKey, LispValue)>|
                outs.len() == m.bindings@.len() && (forall|i: int|
                    0 <= i < outs.len() ==> f.ensures(
                        (m.bindings@[i].0, m.bindings@[i].1),
                        Ok(#[trigger] outs[i]),
                    )) && v@ == Value::dict(entries_merge(Seq::empty(), entry_views(outs))),
            Err(e) => exists|i: int|
                0 <= i < m.bindings@.len() && f.ensures(
                    (m.bindings@[i].0, m.bindings@[i].1),
                    Err::<(MapKey, LispValue), EvaluationError>(e),
                ),
        },
{
    let mut new = Assoc::new();
    let ghost mut outs: Seq<(MapKey, LispValue)> = Seq::empty();
    let mut i: usize = 0;
    proof {
        assert(entry_views(outs) =~= Seq::<(Key, Value)>::empty());
    }
    while i < m.bindings.len()
        invariant
            i <= m.bindings.len(),
            outs.len() == i,
            forall|k: MapKey, v: LispValue| f.requires((k, v)),
            forall|j: int|
                0 <= j < i ==> f.ensures(
                    (m.bindings@[j].0, m.bindings@[j].1),
                    Ok(#[trigger] outs[j]),
                ),
            new@ == entries_merge_upto(Seq::empty(), entry_views(outs), i as nat),
        decreases m.bindings.len() - i,
    {
        let k = m.bindings[i].0.copy();
        let v = share(&m.bindings[i].1);
        match f(k, v) {
            Ok((k2, v2)) => {
                let ghost before = outs;
                proof {
                    outs = outs.push((k2, v2));
                    assert(entry_views(outs) =~= entry_views(before).push((k2@, v2@)));
                    merge_upto_prefix(Seq::empty(), entry_views(before), entry_views(outs), i as nat);
                }
                new.put(k2, v2);
            },
            Err(e) => {
                return Err(e);
            },
        }
        i += 1;
    }
    Ok(new_map(new, None))
}

/// Merging the first `n` entries looks at those entries only.
pub proof fn merge_upto_prefix(base: Entries, a: Entries, b: Entries, n: nat)
    requires
        n <= a.len(),
        n <= b.len(),
        forall|i: int| 0 <= i < n ==> a[i] == b[i],
    ensures
        entries_merge_upto(base, a, n) == entries_merge_upto(base, b, n),
    decreases n,
{
    if n > 0 {
        merge_upto_prefix(base, a, b, (n - 1) as nat);
    }
}

/// Structural equality of two values.
pub fn same(a: &LispType, b: &LispType) -> (r: bool)
    ensures
        r == lisp_eq(a@, b@),
    decreases *a, 0nat,
{
    proof {
        assert(a@ == lisp_view(*a));
        assert(b@ == lisp_view(*b));
    }
    match a {
        LispType::Nil => { let r = match b {
            LispType::Nil => true,
            _ => false,
        }; r },
        LispType::Boolean(x) => { let r = match b {
            LispType::Boolean(y) => *x == *y,
            _ => false,
        }; r },
        LispType::String(s) => { let r = match b {
            LispType::String(t) => *s == *t,
            _ => false,
        }; r },
        LispType::Keyword(s) => { let r = match b {
            LispType::Keyword(t) => *s == *t,
            _ => false,
        }; r },
        LispType::Number(x) => { let r = match b {
            LispType::Number(y) => *x == *y,
            _ => false,
        }; r },
        LispType::Symbol(s, ma) => { let r = match b {
            LispType::Symbol(t, mb) => *s == *t && same(ma, mb),
            _ => false,
        }; r },
        LispType::Lambda { .. } => false,
        LispType::Macro { .. } => false,
        LispType::Fn(f, ma) => { let r = match b {
            LispType::Fn(g, mb) => *f == *g && same(ma, mb),
            _ => false,
        }; r },
        LispType::List(xs, ma) => { let r = match b {
            LispType::List(ys, mb) => items_equal(xs, ys, 0) && same(ma, mb),
            LispType::Vector(ys, mb) => items_equal(xs, ys, 0) && same(ma, mb),
            _ => false,
        }; r },
        LispType::Vector(xs, ma) => { let r = match b {
            LispType::List(ys, mb) => items_equal(xs, ys, 0) && same(ma, mb),
            LispType::Vector(ys, mb) => items_equal(xs, ys, 0) && same(ma, mb),
            _ => false,
        }; r },
        LispType::Dict(es, ma) => { let r = match b {
            LispType::Dict(fs, mb) => {
                proof {
                    assert(entry_views(es.bindings@).len() == es.bindings.len());
                    assert(entry_views(fs.bindings@).len() == fs.bindings.len());
                }
                es.bindings.len() == fs.bindings.len() && entries_inside(
                &es.bindings,
                fs,
                0,
            ) && same(ma, mb) },
            _ => false,
        }; r },
        LispType::Atom(_) => false,
    }
}

/// Structural equality of two shared values.
pub fn equal(a: &LispValue, b: &LispValue) -> (r: bool)
    ensures
        r == lisp_eq(a@, b@),
{
    same(a, b)
}

impl PartialEq for LispType {
    fn eq(&self, other: &LispType) -> (r: bool) {
        same(self, other)
    }
}

impl PartialEq for Assoc {
    fn eq(&self, other: &Assoc) -> (r: bool) {
        proof {
            assert(entry_views(self.bindings@).len() == self.bindings@.len());
            assert(entry_views(other.bindings@).len() == other.bindings@.len());
        }
        self.bindings.len() == other.bindings.len() && entries_inside(&self.bindings, other, 0)
    }
}

impl PartialEqSpecImpl for Assoc {
    open spec fn obeys_eq_spec() -> bool {
        true
    }

    open spec fn eq_spec(&self, other: &Assoc) -> bool {
        self@.len() == other@.len() && entries_within(self@, other@, 0)
    }
}

impl PartialEqSpecImpl for LispType {
    open spec fn obeys_eq_spec() -> bool {
        true
    }

    open spec fn eq_spec(&self, other: &LispType) -> bool {
        lisp_eq(self@, other@)
    }
}

fn items_equal(xs: &Vec<LispValue>, ys: &Vec<LispValue>, i: usize) -> (r: bool)
    ensures
        r == items_eq(views(xs@), views(ys@), i as nat),
    decreases xs@, xs.len() - i,
{
    if xs.len() != ys.len() {
        false
    } else if i >= xs.len() {
        true
    } else {
        same(&xs[i], &ys[i]) && items_equal(xs, ys, i + 1)
    }
}

fn entries_inside(es: &Vec<(MapKey, LispValue)>, fs: &Assoc, i: usize) -> (r: bool)
    ensures
        r == entries_within(entry_views(es@), fs@, i as nat),
    decreases es@, es.len() - i,
{
    if i >= es.len() {
        true
    } else {
        (match fs.position(&es[i].0) {
            Some(j) => same(&es[i].1, &fs.bindings[j].1),
            None => false,
        }) && entries_inside(es, fs, i + 1)
    }
}


} // verus!
