//! Environments: frames of bindings, each with an optional outer frame.
//!
//! Frames live in one table and are named by their index in it, so that a
//! closure can keep the frame it was made in for as long as it likes.

use crate::error::EvaluationError;
use crate::model::{
    frames_find, frames_get, frames_push, frames_root, frames_set, Failure, FrameModel, Frames,
    Value,
};
use crate::ns::{ns_view, ns_view_insert, Ns};
use crate::text::owned;
use crate::types::{result_view, share, EvaluationResult, LispValue};
use vstd::prelude::*;

verus! {

/// The handle of an environment frame.
pub type Env = usize;

/// One frame: its bindings and the frame around it.
pub struct Frame {
    pub bindings: Ns,
    pub outer: Option<Env>,
}

impl View for Frame {
    type V = FrameModel;

    open spec fn view(&self) -> FrameModel {
        FrameModel { bindings: ns_view(self.bindings@), outer: self.outer }
    }
}

/// The table of all frames.
pub struct EnvData {
    pub frames: Vec<Frame>,
}

impl View for EnvData {
    type V = Frames;

    open spec fn view(&self) -> Frames {
        Seq::new(self.frames@.len(), |i: int| self.frames@[i]@)
    }
}

/// A new frame with the bindings `ns` and the frame `outer` around it.
pub fn new(envs: &mut EnvData, outer: Option<Env>, ns: Ns) -> (env: Env)
    ensures
        env == old(envs)@.len(),
        final(envs)@ == frames_push(old(envs)@, outer, ns_view(ns@)),
{
    let env = envs.frames.len();
    envs.frames.push(Frame { bindings: ns, outer: outer });
    assert(final(envs)@ =~= frames_push(old(envs)@, outer, ns_view(ns@)));
    env
}

/// A new outermost frame that binds the builtins.
pub fn core_env(envs: &mut EnvData) -> (env: Env)
    ensures
        env == old(envs)@.len(),
        final(envs)@ == frames_push(old(envs)@, None, crate::ns::core_bindings()),
{
    let ns = crate::ns::core_ns();
    new(envs, None, ns)
}

/// A new outermost frame without bindings.
pub fn empty(envs: &mut EnvData) -> (env: Env)
    ensures
        env == old(envs)@.len(),
        final(envs)@ == frames_push(old(envs)@, None, Map::empty()),
{
    let ns = Ns::new();
    assert(ns_view(ns@) =~= Map::empty());
    new(envs, None, ns)
}

/// A new frame without bindings inside the frame `outer`.
pub fn empty_from(envs: &mut EnvData, outer: Env) -> (env: Env)
    ensures
        env == old(envs)@.len(),
        final(envs)@ == frames_push(old(envs)@, Some(outer), Map::empty()),
{
    let ns = Ns::new();
    assert(ns_view(ns@) =~= Map::empty());
    new(envs, Some(outer), ns)
}

impl EnvData {
    /// A table without frames.
    pub fn new() -> (envs: EnvData)
        ensures
            envs@ == Seq::<FrameModel>::empty(),
    {
        let envs = EnvData { frames: Vec::new() };
        assert(envs@ =~= Seq::<FrameModel>::empty());
        envs
    }

    /// Binds `key` to `val` in the frame `env` itself; a handle that names
    /// no frame changes nothing.
    pub fn set(&mut self, env: Env, key: String, val: LispValue)
        ensures
            final(self)@ == frames_set(old(self)@, env, key@, val@),
    {
        if env < self.frames.len() {
            proof {
                ns_view_insert(self.frames@[env as int].bindings@, key@, val);
            }
            self.frames[env].bindings.insert(key, val);
            assert(final(self)@ =~= frames_set(old(self)@, env, key@, val@));
        }
    }

    /// The value of `key` as seen from the frame `env`.
    pub fn get(&self, env: Env, key: &str) -> (r: EvaluationResult)
        ensures
            result_view(r) == frames_get(self@, env, key@),
    {
        match self.find(env, key) {
            Some(v) => Ok(v),
            None => Err(EvaluationError::MissingSymbol(owned(key))),
        }
    }

    /// The value of `key` in the frame `env` or in the nearest outer frame that binds it.
    pub fn find(&self, env: Env, key: &str) -> (r: Option<LispValue>)
        ensures
            match r {
                Some(v) => frames_find(self@, env, key@) == Some(v@),
                None => frames_find(self@, env, key@) is None,
            },
    {
        let mut cur = env;
        loop
            invariant
                frames_find(self@, env, key@) == frames_find(self@, cur, key@),
            decreases cur,
        {
            if cur >= self.frames.len() {
                return None;
            }
            match self.frames[cur].bindings.get(key) {
                Some(v) => {
                    return Some(share(v));
                },
                None => {},
            }
            match self.frames[cur].outer {
                Some(o) => {
                    if o < cur {
                        cur = o;
                    } else {
                        return None;
                    }
                },
                None => {
                    return None;
                },
            }
        }
    }

    /// The number of frames.
    pub fn len(&self) -> (n: usize)
        ensures
            n == self@.len(),
    {
        self.frames.len()
    }
}

/// The outermost frame around `env`.
pub fn root(envs: &EnvData, env: Env) -> (r: Env)
    ensures
        r == frames_root(envs@, env),
{
    let mut cur = env;
    loop
        invariant
            frames_root(envs@, env) == frames_root(envs@, cur),
        decreases cur,
    {
        if cur >= envs.frames.len() {
            return cur;
        }
        match envs.frames[cur].outer {
            Some(o) => {
                if o < cur {
                    cur = o;
                } else {
                    return cur;
                }
            },
            None => {
                return cur;
            },
        }
    }
}

/// A binding made in an inner frame shadows the outer one for lookups
/// from inside and leaves the outer frame's own binding as it was: after
/// `key` is bound to `a` in a frame and to `b` in a new frame inside it,
/// a lookup from the inner frame gives `b` and one from the outer gives `a`.
pub proof fn shadowing(fs: Frames, env: usize, key: Seq<char>, a: Value, b: Value)
    requires
        env < fs.len() < usize::MAX,
    ensures
        ({
            let outer_set = frames_set(fs, env, key, a);
            let inner = outer_set.len() as usize;
            let with_inner = frames_push(outer_set, Some(env), Map::empty());
            let both = frames_set(with_inner, inner, key, b);
            &&& frames_get(both, inner, key) == Ok::<Value, Failure>(b)
            &&& frames_get(both, env, key) == Ok::<Value, Failure>(a)
        }),
{
    let outer_set = frames_set(fs, env, key, a);
    let inner = outer_set.len() as usize;
    let with_inner = frames_push(outer_set, Some(env), Map::empty());
    let both = frames_set(with_inner, inner, key, b);
    assert(both[inner as int].bindings.contains_key(key));
    assert(both[env as int].bindings.contains_key(key));
    assert(both[env as int].bindings[key] == a);
}

} // verus!
