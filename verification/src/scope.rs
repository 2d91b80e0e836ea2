//! The environment: a chain of frames, each a mapping from name to value.
//!
//! A scope owns its parent, so the chain is a stack: the innermost frame
//! comes first. Lookups walk outward; bindings go into the innermost frame
//! only.

use vstd::prelude::*;
use crate::object::{Expr, Object};

verus! {

/// The model of one frame.
pub type Frame = Map<Seq<char>, Expr>;

/// The model of an environment: its frames, innermost first.
pub type Env = Seq<Frame>;

/// The value that a name resolves to: that of the innermost frame that
/// binds it.
pub open spec fn env_get(env: Env, name: Seq<char>) -> Option<Expr>
    decreases env.len(),
{
    if env.len() == 0 {
        None
    } else if env[0].dom().contains(name) {
        Some(env[0][name])
    } else {
        env_get(env.drop_first(), name)
    }
}

/// The environment after binding a name in its innermost frame.
pub open spec fn env_set(env: Env, name: Seq<char>, value: Expr) -> Env
    recommends
        env.len() > 0,
{
    env.update(0, env[0].insert(name, value))
}

/// The environment with a new, empty innermost frame.
pub open spec fn env_extend(env: Env) -> Env {
    seq![Map::<Seq<char>, Expr>::empty()] + env
}

/// A name resolves to what was last bound to it in the innermost frame, and
/// binding it leaves what every other name resolves to as it was.
pub proof fn law_get_after_set(env: Env, name: Seq<char>, value: Expr, other: Seq<char>)
    requires
        env.len() >= 1,
    ensures
        env_get(env_set(env, name, value), name) == Some(value),
        other != name ==> env_get(env_set(env, name, value), other) == env_get(env, other),
{
    let after = env_set(env, name, value);
    assert(after.drop_first() =~= env.drop_first());
}

/// A new frame binds nothing: every name resolves through it to what it
/// resolved to before.
pub proof fn law_extend_is_transparent(env: Env, name: Seq<char>)
    ensures
        env_get(env_extend(env), name) == env_get(env, name),
{
    assert(env_extend(env).drop_first() =~= env);
}

/// A binding in a new frame shadows the one around it for as long as the
/// frame is there, and is gone with the frame.
pub proof fn law_shadowing_ends_with_the_frame(env: Env, name: Seq<char>, value: Expr)
    ensures
        env_get(env_set(env_extend(env), name, value), name) == Some(value),
        env_set(env_extend(env), name, value).drop_first() == env,
{
    assert(env_set(env_extend(env), name, value).drop_first() =~= env);
}

/// The model of an optional value.
pub open spec fn option_view(o: Option<Object>) -> Option<Expr> {
    match o {
        Some(v) => Some(v@),
        None => None,
    }
}

/// The mapping that a list of bindings stands for: of two bindings of one
/// name, the earlier counts.
pub open spec fn frame_map(entries: Seq<(String, Object)>) -> Frame
    decreases entries.len(),
{
    if entries.len() == 0 {
        Map::empty()
    } else {
        frame_map(entries.drop_first()).insert(entries[0].0@, entries[0].1@)
    }
}

proof fn lemma_frame_absent(entries: Seq<(String, Object)>, name: Seq<char>)
    requires
        forall|j: int| 0 <= j < entries.len() ==> (#[trigger] entries[j]).0@ != name,
    ensures
        !frame_map(entries).dom().contains(name),
    decreases entries.len(),
{
    if entries.len() > 0 {
        let rest = entries.drop_first();
        assert forall|j: int| 0 <= j < rest.len() implies (#[trigger] rest[j]).0@ != name by {
            assert(rest[j] == entries[j + 1]);
        }
        lemma_frame_absent(rest, name);
        assert(entries[0].0@ != name);
    }
}

proof fn lemma_frame_first(entries: Seq<(String, Object)>, i: int, name: Seq<char>)
    requires
        0 <= i < entries.len(),
        forall|j: int| 0 <= j < i ==> (#[trigger] entries[j]).0@ != name,
        entries[i].0@ == name,
    ensures
        frame_map(entries).dom().contains(name),
        frame_map(entries)[name] == entries[i].1@,
    decreases entries.len(),
{
    if i > 0 {
        let rest = entries.drop_first();
        assert forall|j: int| 0 <= j < i - 1 implies (#[trigger] rest[j]).0@ != name by {
            assert(rest[j] == entries[j + 1]);
        }
        assert(rest[i - 1] == entries[i]);
        lemma_frame_first(rest, i - 1, name);
        assert(entries[0].0@ != name);
    }
}

proof fn lemma_frame_update(entries: Seq<(String, Object)>, i: int, key: String, value: Object)
    requires
        0 <= i < entries.len(),
        forall|j: int| 0 <= j < i ==> (#[trigger] entries[j]).0@ != key@,
        entries[i].0@ == key@,
    ensures
        frame_map(entries.update(i, (key, value))) == frame_map(entries).insert(key@, value@),
    decreases entries.len(),
{
    let changed = entries.update(i, (key, value));
    if i == 0 {
        assert(changed.drop_first() =~= entries.drop_first());
        assert(frame_map(changed) =~= frame_map(entries).insert(key@, value@));
    } else {
        let rest = entries.drop_first();
        assert forall|j: int| 0 <= j < i - 1 implies (#[trigger] rest[j]).0@ != key@ by {
            assert(rest[j] == entries[j + 1]);
        }
        assert(rest[i - 1] == entries[i]);
        lemma_frame_update(rest, i - 1, key, value);
        assert(changed.drop_first() =~= rest.update(i - 1, (key, value)));
        assert(entries[0].0@ != key@);
        assert(changed[0] == entries[0]);
        assert(frame_map(changed) =~= frame_map(entries).insert(key@, value@));
    }
}

proof fn lemma_frame_push(entries: Seq<(String, Object)>, key: String, value: Object)
    requires
        forall|j: int| 0 <= j < entries.len() ==> (#[trigger] entries[j]).0@ != key@,
    ensures
        frame_map(entries.push((key, value))) == frame_map(entries).insert(key@, value@),
    decreases entries.len(),
{
    let grown = entries.push((key, value));
    if entries.len() == 0 {
        assert(grown.drop_first() =~= entries);
        assert(frame_map(grown) =~= frame_map(entries).insert(key@, value@));
    } else {
        let rest = entries.drop_first();
        assert forall|j: int| 0 <= j < rest.len() implies (#[trigger] rest[j]).0@ != key@ by {
            assert(rest[j] == entries[j + 1]);
        }
        lemma_frame_push(rest, key, value);
        assert(grown.drop_first() =~= rest.push((key, value)));
        assert(entries[0].0@ != key@);
        assert(grown[0] == entries[0]);
        assert(frame_map(grown) =~= frame_map(entries).insert(key@, value@));
    }
}

/// One environment frame and, through its parent, the frames around it.
#[derive(Debug, PartialEq)]
pub struct Scope {
    parent: Option<Box<Scope>>,
    vars: Vec<(String, Object)>,
}

impl View for Scope {
    type V = Env;

    closed spec fn view(&self) -> Env {
        self.frames()
    }
}

impl Default for Scope {
    /// A root scope: one empty frame.
    fn default() -> (s: Scope)
        ensures
            s@ == seq![Map::<Seq<char>, Expr>::empty()],
    {
        Scope::new()
    }
}

impl Scope {
    /// The frames of this scope, innermost first.
    pub closed spec fn frames(&self) -> Env
        decreases self,
    {
        seq![frame_map(self.vars@)] + (match self.parent {
            Some(p) => p.frames(),
            None => Seq::empty(),
        })
    }

    /// Every scope has at least its own frame.
    pub proof fn lemma_has_frame(&self)
        ensures
            self@.len() >= 1,
    {
    }

    /// A root scope: one empty frame.
    pub fn new() -> (s: Scope)
        ensures
            s@ == seq![Map::<Seq<char>, Expr>::empty()],
    {
        let s = Scope { parent: None, vars: Vec::new() };
        assert(s@ =~= seq![Map::<Seq<char>, Expr>::empty()]);
        s
    }

    /// A scope with one new, empty frame inside `parent`.
    pub fn extend(parent: Scope) -> (s: Scope)
        ensures
            s@ == env_extend(parent@),
    {
        Scope { parent: Some(Box::new(parent)), vars: Vec::new() }
    }

    /// Gives up the innermost frame and returns the scope around it, if
    /// there is one.
    pub fn into_parent(self) -> (p: Option<Scope>)
        ensures
            (match p {
                Some(outer) => self@.len() > 1 && outer@ == self@.drop_first(),
                None => self@.len() == 1,
            }),
    {
        match self.parent {
            Some(outer) => {
                proof {
                    outer.lemma_has_frame();
                }
                assert(self@.drop_first() =~= outer@);
                Some(*outer)
            },
            None => None,
        }
    }

    /// Opens a new, empty innermost frame.
    pub fn enter(&mut self)
        ensures
            final(self)@ == env_extend(old(self)@),
    {
        let mut outer = Scope::new();
        core::mem::swap(self, &mut outer);
        *self = Scope::extend(outer);
    }

    /// Drops the innermost frame; a root scope is left as it is.
    pub fn leave(&mut self)
        ensures
            final(self)@ == (if old(self)@.len() > 1 {
                old(self)@.drop_first()
            } else {
                old(self)@
            }),
    {
        if self.has_parent() {
            let mut inner = Scope::new();
            core::mem::swap(self, &mut inner);
            match inner.into_parent() {
                Some(outer) => {
                    *self = outer;
                },
                None => {},
            }
        }
    }

    /// Whether there is a frame around the innermost one.
    pub fn has_parent(&self) -> (b: bool)
        ensures
            b == (self@.len() > 1),
    {
        proof {
            match &self.parent {
                Some(p) => {
                    p.lemma_has_frame();
                },
                None => {},
            }
        }
        self.parent.is_some()
    }

    /// Resolves a name: the innermost binding, if any frame has one.
    pub fn get(&self, name: &str) -> (r: Option<Object>)
        ensures
            option_view(r) == env_get(self@, name@),
        decreases self,
    {
        let key = name.to_owned();
        let mut i: usize = 0;
        while i < self.vars.len()
            invariant
                key@ == name@,
                i <= self.vars.len(),
                forall|j: int| 0 <= j < i ==> (#[trigger] self.vars@[j]).0@ != name@,
            decreases self.vars.len() - i,
        {
            if self.vars[i].0 == key {
                proof {
                    lemma_frame_first(self.vars@, i as int, name@);
                }
                return Some(self.vars[i].1.clone());
            }
            i += 1;
        }
        proof {
            lemma_frame_absent(self.vars@, name@);
            let rest = match &self.parent {
                Some(p) => p.frames(),
                None => Seq::empty(),
            };
            assert(self@[0] == frame_map(self.vars@));
            assert(self@.drop_first() =~= rest);
            assert(env_get(self@, name@) == env_get(rest, name@));
        }
        match &self.parent {
            Some(p) => {
                let r = p.get(name);
                assert(p@ == p.frames());
                r
            },
            None => None,
        }
    }

    /// Binds a name in the innermost frame, replacing its binding there if
    /// it has one. No other frame changes.
    pub fn set(&mut self, name: &str, val: Object)
        ensures
            final(self)@ == env_set(old(self)@, name@, val@),
    {
        let key = name.to_owned();
        let mut i: usize = 0;
        while i < self.vars.len()
            invariant
                *self == *old(self),
                key@ == name@,
                i <= self.vars.len(),
                forall|j: int| 0 <= j < i ==> (#[trigger] self.vars@[j]).0@ != name@,
            decreases self.vars.len() - i,
        {
            if self.vars[i].0 == key {
                proof {
                    lemma_frame_update(self.vars@, i as int, key, val);
                }
                self.vars[i] = (key, val);
                assert(self.vars@ == old(self).vars@.update(i as int, (key, val)));
                assert(self.parent == old(self).parent);
                assert(old(self)@[0] == frame_map(old(self).vars@));
                assert(self@ =~= env_set(old(self)@, name@, val@));
                return ;
            }
            i += 1;
        }
        proof {
            lemma_frame_push(self.vars@, key, val);
        }
        self.vars.push((key, val));
        assert(self.vars@ == old(self).vars@.push((key, val)));
        assert(self.parent == old(self).parent);
        assert(old(self)@[0] == frame_map(old(self).vars@));
        assert(self@ =~= env_set(old(self)@, name@, val@));
    }
}

} // verus!
