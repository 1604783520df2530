//! The state that outlives one evaluation: environment frames and atoms.
//!
//! Every exchange with the host goes through the heap, which keeps a log
//! of it for contracts. A method that changes the heap also says that the
//! log only grows: whatever transcript begins with the new log begins with
//! the old one. That is the form in which the evaluator's contracts use it.

use crate::env::{Env, EnvData};
use crate::host::Host;
use crate::model::{begins, Event, FrameModel, Store, Transcript, Value};
use crate::types::{share, views, AtomRef, LispValue};
use vstd::prelude::*;

verus! {

/// The frames of all environments and the cells of all atoms. It also
/// remembers, for contracts only, what has passed between the interpreter
/// and its host.
pub struct Heap {
    pub envs: EnvData,
    pub atoms: Vec<LispValue>,
    pub log: Ghost<Transcript>,
}

impl View for Heap {
    type V = Store;

    open spec fn view(&self) -> Store {
        Store { frames: self.envs@, atoms: views(self.atoms@), log: self.log@ }
    }
}

/// The model of a text that may be missing.
pub open spec fn text_view(r: Option<String>) -> Option<Seq<char>> {
    match r {
        Some(s) => Some(s@),
        None => None,
    }
}

/// `get_time` of the `time` crate reads the system clock and gives the
/// seconds and nanoseconds since the epoch. Nothing is promised of them.
#[verifier::external_body]
fn clock() -> (r: (i64, i32)) {
    let t = time::get_time();
    (t.sec, t.nsec)
}

impl Heap {
    /// A heap without frames and without atoms.
    pub fn new() -> (heap: Heap)
        ensures
            heap@ == (Store {
                frames: Seq::<FrameModel>::empty(),
                atoms: Seq::<Value>::empty(),
                log: Seq::<Event>::empty(),
            }),
    {
        let heap = Heap { envs: EnvData::new(), atoms: Vec::new(), log: Ghost(Seq::empty()) };
        assert(views(heap.atoms@) =~= Seq::<Value>::empty());
        heap
    }

    /// A new cell that holds `v`.
    pub fn new_cell(&mut self, v: LispValue) -> (id: AtomRef)
        ensures
            id == old(self)@.atoms.len(),
            final(self)@ == old(self)@.push_atom(v@),
    {
        let id = self.atoms.len();
        self.atoms.push(v);
        assert(views(self.atoms@) =~= views(old(self).atoms@).push(v@));
        id
    }

    /// Binds `key` to `val` in the frame `env` itself.
    pub fn set(&mut self, env: Env, key: String, val: LispValue)
        ensures
            final(self)@ == old(self)@.set(env, key@, val@),
            forall|t: Transcript| #[trigger] begins(final(self)@.log, t) ==> begins(old(self)@.log, t),
    {
        self.envs.set(env, key, val);
    }

    /// Hands `line` to the host for printing.
    pub fn print_line<H: Host>(&mut self, host: &mut H, line: &str)
        ensures
            final(self)@ == old(self)@.record(Event::Printed(line@)),
            forall|t: Transcript| #[trigger] begins(final(self)@.log, t) ==> begins(old(self)@.log, t),
    {
        host.print_line(line);
        self.log = Ghost(self.log@.push(Event::Printed(line@)));
    }

    /// Asks the host for the contents of the file at `path`.
    pub fn read_file<H: Host>(&mut self, host: &mut H, path: &str) -> (r: Option<String>)
        ensures
            final(self)@ == old(self)@.record(Event::FileRead(path@, text_view(r))),
            forall|t: Transcript| #[trigger] begins(final(self)@.log, t) ==> begins(old(self)@.log, t),
    {
        let r = host.read_file(path);
        self.log = Ghost(self.log@.push(Event::FileRead(path@, text_view(r))));
        r
    }

    /// Asks the host for a line of input, with `prompt`.
    pub fn read_line<H: Host>(&mut self, host: &mut H, prompt: &str) -> (r: Option<String>)
        ensures
            final(self)@ == old(self)@.record(Event::LineRead(prompt@, text_view(r))),
            forall|t: Transcript| #[trigger] begins(final(self)@.log, t) ==> begins(old(self)@.log, t),
    {
        let r = host.read_line(prompt);
        self.log = Ghost(self.log@.push(Event::LineRead(prompt@, text_view(r))));
        r
    }

    /// Reads the clock: seconds and nanoseconds since the epoch.
    pub fn read_clock(&mut self) -> (r: (i64, i32))
        ensures
            final(self)@ == old(self)@.record(Event::Clock(r.0, r.1)),
            forall|t: Transcript| #[trigger] begins(final(self)@.log, t) ==> begins(old(self)@.log, t),
    {
        let r = clock();
        self.log = Ghost(self.log@.push(Event::Clock(r.0, r.1)));
        r
    }

    /// What the cell `id` holds, if there is such a cell.
    pub fn deref(&self, id: AtomRef) -> (r: Option<LispValue>)
        ensures
            match r {
                Some(v) => self@.deref(id) == Some(v@),
                None => self@.deref(id) is None,
            },
    {
        if id < self.atoms.len() {
            Some(share(&self.atoms[id]))
        } else {
            None
        }
    }

    /// Makes the cell `id` hold `v`; says whether there is such a cell.
    pub fn reset(&mut self, id: AtomRef, v: LispValue) -> (done: bool)
        ensures
            done == (id < old(self)@.atoms.len()),
            final(self)@ == old(self)@.reset(id, v@),
    {
        if id < self.atoms.len() {
            self.atoms.set(id, v);
            assert(views(self.atoms@) =~= views(old(self).atoms@).update(id as int, v@));
            true
        } else {
            false
        }
    }
}

} // verus!
