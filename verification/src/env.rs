//! The scope-chain environment.  A frame maps names to stored
//! (unevaluated) terms and points to an optional parent frame; frames form
//! a singly linked chain.  Frames are shared between call sites, so the
//! chain is held as an arena: a growing vector of frames addressed by
//! integer handle, each frame naming its parent by handle.

use vstd::prelude::*;

use crate::ast::Term;
use crate::ast::TermV;

verus! {

/// One binding of a frame.
pub struct Binding {
    pub name: String,
    pub value: Term,
}

/// Mathematical view of a [`Binding`].
pub struct BindingV {
    pub name: Seq<char>,
    pub value: TermV,
}

impl View for Binding {
    type V = BindingV;

    open spec fn view(&self) -> BindingV {
        BindingV { name: self.name@, value: self.value@ }
    }
}

/// One frame of the scope chain.
pub struct Frame {
    pub parent: Option<usize>,
    pub vars: Vec<Binding>,
}

/// Mathematical view of a [`Frame`].
pub struct FrameV {
    pub parent: Option<int>,
    pub vars: Seq<BindingV>,
}

impl View for Frame {
    type V = FrameV;

    open spec fn view(&self) -> FrameV {
        FrameV {
            parent: match self.parent {
                Some(p) => Some(p as int),
                None => None,
            },
            vars: self.vars@.map_values(|b: Binding| b@),
        }
    }
}

/// The binding stored under `name`, if any.  A name is stored at most once
/// per frame, so the first match is the match.
pub open spec fn frame_lookup(vars: Seq<BindingV>, name: Seq<char>) -> Option<TermV>
    decreases vars.len(),
{
    if vars.len() == 0 {
        None
    } else if vars[0].name == name {
        Some(vars[0].value)
    } else {
        frame_lookup(vars.drop_first(), name)
    }
}

/// Whether `name` is bound in the frame.
pub open spec fn frame_has(vars: Seq<BindingV>, name: Seq<char>) -> bool {
    frame_lookup(vars, name) is Some
}

/// Storing under a name that is already bound in the frame changes
/// nothing: the first write to a name wins.  A fresh name is appended.
pub open spec fn frame_set(vars: Seq<BindingV>, name: Seq<char>, value: TermV) -> Seq<BindingV> {
    if frame_has(vars, name) {
        vars
    } else {
        vars.push(BindingV { name, value })
    }
}

/// Chain lookup: the local frame first, then the parent chain.
pub open spec fn env_lookup(frames: Seq<FrameV>, env: int, name: Seq<char>) -> Option<TermV>
    decreases env,
{
    if 0 <= env < frames.len() {
        match frame_lookup(frames[env].vars, name) {
            Some(t) => Some(t),
            None => match frames[env].parent {
                Some(p) => if 0 <= p < env {
                    env_lookup(frames, p, name)
                } else {
                    None
                },
                None => None,
            },
        }
    } else {
        None
    }
}

/// Every frame's parent was created before it, so every parent chain ends.
pub open spec fn env_wf(frames: Seq<FrameV>) -> bool {
    forall|i: int|
        0 <= i < frames.len() ==> match #[trigger] frames[i].parent {
            Some(p) => 0 <= p < i,
            None => true,
        }
}

/// Looking up a name finds no match among the first `i` bindings, so the
/// search result is decided by the rest of the frame.
pub proof fn lemma_frame_lookup_skip(vars: Seq<BindingV>, name: Seq<char>, i: int)
    requires
        0 <= i <= vars.len(),
        forall|j: int| 0 <= j < i ==> vars[j].name != name,
    ensures
        frame_lookup(vars, name) == frame_lookup(vars.skip(i), name),
    decreases i,
{
    if i > 0 {
        lemma_frame_lookup_skip(vars, name, i - 1);
        assert(vars.skip(i - 1)[0] == vars[i - 1]);
        assert(vars.skip(i - 1).drop_first() =~= vars.skip(i));
    } else {
        assert(vars.skip(0) =~= vars);
    }
}

/// The scope-chain arena.  Handle 0 is the root frame; [`Env::extend`]
/// hands out the handles of younger frames.
pub struct Env {
    frames: Vec<Frame>,
}

impl View for Env {
    type V = Seq<FrameV>;

    closed spec fn view(&self) -> Seq<FrameV> {
        self.frames@.map_values(|f: Frame| f@)
    }
}

impl Env {
    /// A fresh environment: one root frame, no bindings, handle 0.
    pub fn new() -> (e: Env)
        ensures
            e@.len() == 1,
            e@[0].parent is None,
            e@[0].vars == Seq::<BindingV>::empty(),
            env_wf(e@),
    {
        let mut frames: Vec<Frame> = Vec::new();
        frames.push(Frame { parent: None, vars: Vec::new() });
        let e = Env { frames };
        proof {
            assert(e@.len() == 1);
            assert(e@[0].vars =~= Seq::<BindingV>::empty());
        }
        e
    }

    /// Creates a new empty frame whose parent is `parent` and returns its
    /// handle.
    pub fn extend(&mut self, parent: usize) -> (h: usize)
        requires
            parent < old(self)@.len(),
        ensures
            h == old(self)@.len(),
            final(self)@ == old(self)@.push(
                FrameV { parent: Some(parent as int), vars: Seq::<BindingV>::empty() },
            ),
            env_wf(old(self)@) ==> env_wf(final(self)@),
    {
        let h = self.frames.len();
        self.frames.push(Frame { parent: Some(parent), vars: Vec::new() });
        proof {
            assert(self@[h as int].vars =~= Seq::<BindingV>::empty());
            assert(self@ =~= old(self)@.push(
                FrameV { parent: Some(parent as int), vars: Seq::<BindingV>::empty() },
            ));
        }
        h
    }

    /// Chain lookup from the frame `frame`: a copy of the stored term, or
    /// nothing if the name is absent through the whole chain.
    pub fn get(&self, frame: usize, name: &str) -> (r: Option<Term>)
        requires
            env_wf(self@),
            frame < self@.len(),
        ensures
            match r {
                Some(t) => env_lookup(self@, frame as int, name@) == Some(t@),
                None => env_lookup(self@, frame as int, name@) is None,
            },
    {
        let key: String = name.to_owned();
        self.get_by_key(frame, &key)
    }

    /// Chain lookup with an owned key.
    fn get_by_key(&self, frame: usize, key: &String) -> (r: Option<Term>)
        requires
            env_wf(self@),
            frame < self@.len(),
        ensures
            match r {
                Some(t) => env_lookup(self@, frame as int, key@) == Some(t@),
                None => env_lookup(self@, frame as int, key@) is None,
            },
        decreases frame,
    {
        let ghost fv: Seq<BindingV> = self@[frame as int].vars;
        let n = self.frames[frame].vars.len();
        let mut i: usize = 0;
        while i < n
            invariant
                env_wf(self@),
                frame < self@.len(),
                n == self.frames@[frame as int].vars.len(),
                fv == self@[frame as int].vars,
                i <= n,
                fv.len() == n,
                forall|j: int| 0 <= j < i ==> fv[j].name != key@,
            decreases n - i,
        {
            proof {
                assert(self@[frame as int] == self.frames@[frame as int]@);
                assert(fv[i as int] == self.frames@[frame as int].vars@[i as int]@);
            }
            let b = &self.frames[frame].vars[i];
            if b.name.eq(key) {
                proof {
                    lemma_frame_lookup_skip(fv, key@, i as int);
                    assert(fv.skip(i as int)[0] == fv[i as int]);
                }
                return Some(b.value.clone());
            }
            i = i + 1;
        }
        proof {
            lemma_frame_lookup_skip(fv, key@, n as int);
            assert(fv.skip(n as int) =~= Seq::<BindingV>::empty());
        }
        match self.frames[frame].parent {
            Some(p) => self.get_by_key(p, key),
            None => None,
        }
    }

    /// Stores `term` under `name` in the frame `frame` alone.  If the name
    /// is already bound there, nothing is stored and the term is handed
    /// back; the first write to a name in a given frame wins.
    pub fn set(&mut self, frame: usize, name: &str, term: Term) -> (r: Option<Term>)
        requires
            frame < old(self)@.len(),
        ensures
            final(self)@.len() == old(self)@.len(),
            final(self)@ == old(self)@.update(
                frame as int,
                FrameV {
                    parent: old(self)@[frame as int].parent,
                    vars: frame_set(old(self)@[frame as int].vars, name@, term@),
                },
            ),
            r is Some <==> frame_has(old(self)@[frame as int].vars, name@),
            match r {
                Some(t) => t@ == term@,
                None => true,
            },
            env_wf(old(self)@) ==> env_wf(final(self)@),
    {
        let ghost fv: Seq<BindingV> = self@[frame as int].vars;
        let key: String = name.to_owned();
        let n = self.frames[frame].vars.len();
        let mut i: usize = 0;
        while i < n
            invariant
                frame < self@.len(),
                n == self.frames@[frame as int].vars.len(),
                fv == self@[frame as int].vars,
                i <= n,
                fv.len() == n,
                key@ == name@,
                forall|j: int| 0 <= j < i ==> fv[j].name != key@,
            decreases n - i,
        {
            proof {
                assert(self@[frame as int] == self.frames@[frame as int]@);
                assert(fv[i as int] == self.frames@[frame as int].vars@[i as int]@);
            }
            if self.frames[frame].vars[i].name.eq(&key) {
                proof {
                    lemma_frame_lookup_skip(fv, key@, i as int);
                    assert(fv.skip(i as int)[0] == fv[i as int]);
                    assert(frame_set(old(self)@[frame as int].vars, name@, term@) == fv);
                    assert(self@ =~= old(self)@.update(
                        frame as int,
                        FrameV {
                            parent: old(self)@[frame as int].parent,
                            vars: frame_set(old(self)@[frame as int].vars, name@, term@),
                        },
                    ));
                }
                return Some(term);
            }
            i = i + 1;
        }
        proof {
            lemma_frame_lookup_skip(fv, key@, n as int);
            assert(fv.skip(n as int) =~= Seq::<BindingV>::empty());
        }
        self.frames[frame].vars.push(Binding { name: key, value: term });
        proof {
            assert(self@[frame as int] == self.frames@[frame as int]@);
            assert(self@[frame as int].vars =~= fv.push(BindingV { name: name@, value: term@ }));
            assert(self@[frame as int].parent == old(self)@[frame as int].parent);
            assert(self@ =~= old(self)@.update(
                frame as int,
                FrameV {
                    parent: old(self)@[frame as int].parent,
                    vars: frame_set(old(self)@[frame as int].vars, name@, term@),
                },
            ));
        }
        None
    }
}

} // verus!
