//! Scopes: an arena of frames, each a list of bindings with a link to the
//! frame that encloses it.
//!
//! Frames are addressed by index. A frame's enclosing frame always has a
//! smaller index, so the chain from any frame ends at the global frame 0
//! and can hold no cycle. Several closures may hold the index of one
//! frame; an assignment through any of them is seen by all. A frame that
//! no closure captured is dropped when its block or call ends.

use std::rc::Rc;
use vstd::prelude::*;
use crate::value::{CallTarget, LiteralValueAst, ValueView};
use vstd::string::StringExecFns;

verus! {

/// One scope: parallel lists of names and values, and the enclosing frame.
pub struct Frame {
    pub names: Vec<String>,
    pub values: Vec<LiteralValueAst>,
    pub enclosing: Option<usize>,
}

/// The view of a frame: its bindings in order, and its enclosing frame.
pub struct FrameView {
    pub bindings: Seq<(Seq<char>, ValueView)>,
    pub enclosing: Option<int>,
}

impl View for Frame {
    type V = FrameView;

    open spec fn view(&self) -> FrameView {
        FrameView {
            bindings: Seq::new(
                self.names@.len(),
                |i: int| (self.names@[i]@, self.values@[i]@),
            ),
            enclosing: match self.enclosing {
                Some(p) => Some(p as int),
                None => None,
            },
        }
    }
}

/// The index of the binding of `name`, searching from the last one.
pub open spec fn find_in(bs: Seq<(Seq<char>, ValueView)>, name: Seq<char>) -> Option<int>
    decreases bs.len(),
{
    if bs.len() == 0 {
        None
    } else if bs.last().0 == name {
        Some(bs.len() - 1)
    } else {
        find_in(bs.drop_last(), name)
    }
}

/// The nearest frame, from `f` outward, that binds `name`.
pub open spec fn owner(fs: Seq<FrameView>, f: int, name: Seq<char>) -> Option<int>
    decreases f,
{
    if !(0 <= f < fs.len()) {
        None
    } else if find_in(fs[f].bindings, name) is Some {
        Some(f)
    } else {
        match fs[f].enclosing {
            Some(p) => if 0 <= p < f {
                owner(fs, p, name)
            } else {
                None
            },
            None => None,
        }
    }
}

/// The value `name` has, seen from frame `f`.
pub open spec fn lookup(fs: Seq<FrameView>, f: int, name: Seq<char>) -> Option<ValueView> {
    match owner(fs, f, name) {
        Some(g) => Some(fs[g].bindings[find_in(fs[g].bindings, name)->0].1),
        None => None,
    }
}

/// `bs` with `name` bound to `v`: the binding is overwritten if there is
/// one, else added.
pub open spec fn bind(bs: Seq<(Seq<char>, ValueView)>, name: Seq<char>, v: ValueView) -> Seq<
    (Seq<char>, ValueView),
> {
    match find_in(bs, name) {
        Some(i) => bs.update(i, (name, v)),
        None => bs.push((name, v)),
    }
}

/// The frames after binding `name` to `v` in frame `f`.
pub open spec fn bind_in(fs: Seq<FrameView>, f: int, name: Seq<char>, v: ValueView) -> Seq<FrameView> {
    fs.update(f, FrameView { bindings: bind(fs[f].bindings, name, v), enclosing: fs[f].enclosing })
}

/// The name of the built-in clock.
pub open spec fn clock_name() -> Seq<char> {
    seq!['c', 'l', 'o', 'c', 'k']
}

/// The global frame of a fresh arena: `clock` bound to the built-in clock.
pub open spec fn global_frame() -> FrameView {
    FrameView {
        bindings: seq![
            (
                clock_name(),
                ValueView::Callable { name: clock_name(), arity: 0, target: CallTarget::Clock },
            ),
        ],
        enclosing: None,
    }
}

/// The arena of frames. Frame 0 is the global frame.
pub struct Environment {
    pub frames: Vec<Frame>,
    /// Frames below this index may be held by a closure and are kept.
    pub pinned: usize,
}

impl Environment {
    pub open spec fn view_frames(&self) -> Seq<FrameView> {
        Seq::new(self.frames@.len(), |i: int| self.frames@[i]@)
    }

    pub open spec fn wf(&self) -> bool {
        &&& self.frames@.len() >= 1
        &&& 1 <= self.pinned <= self.frames@.len()
        &&& self.frames@[0].enclosing is None
        &&& forall|i: int|
            0 <= i < self.frames@.len() ==> (#[trigger] self.frames@[i]).names@.len()
                == self.frames@[i].values@.len()
        &&& forall|i: int|
            0 < i < self.frames@.len() ==> ((#[trigger] self.frames@[i]).enclosing matches Some(p)
                && p < i)
    }

    /// A frame index that is in use.
    pub open spec fn valid(&self, f: int) -> bool {
        0 <= f < self.frames@.len()
    }

    /// An arena holding the global frame, in which `clock` is bound to the
    /// built-in clock.
    pub fn new() -> (r: Environment)
        ensures
            r.wf(),
            r.frames@.len() == 1,
            r.pinned == 1,
            r.view_frames() == seq![global_frame()],
    {
        proof {
            reveal_strlit("clock");
        }
        let clock = LiteralValueAst::Callable {
            name: String::from_str("clock"),
            arity: 0,
            target: CallTarget::Clock,
        };
        let global = Frame {
            names: vec![String::from_str("clock")],
            values: vec![clock],
            enclosing: None,
        };
        let r = Environment { frames: vec![global], pinned: 1 };
        proof {
            assert(r.view_frames()[0].bindings[0].0 =~= seq!['c', 'l', 'o', 'c', 'k']);
            assert(r.view_frames()[0].bindings[0].1 =~= ValueView::Callable {
                name: seq!['c', 'l', 'o', 'c', 'k'],
                arity: 0,
                target: CallTarget::Clock,
            });
            assert(r.view_frames()[0].bindings =~= global_frame().bindings);
            assert(r.view_frames() =~= seq![global_frame()]);
        }
        r
    }
}

/// The index of the binding of `name` in the frame, searching from the
/// last binding.
fn find_binding(fr: &Frame, name: &String) -> (r: Option<usize>)
    requires
        fr.names@.len() == fr.values@.len(),
    ensures
        r matches Some(i) ==> find_in(fr@.bindings, name@) == Some(i as int),
        r is None ==> find_in(fr@.bindings, name@) is None,
        r matches Some(i) ==> i < fr.names@.len(),
{
    let mut i = fr.names.len();
    proof {
        assert(fr@.bindings.subrange(0, i as int) =~= fr@.bindings);
    }
    while i > 0
        invariant
            i <= fr.names@.len(),
            fr.names@.len() == fr.values@.len(),
            find_in(fr@.bindings, name@) == find_in(fr@.bindings.subrange(0, i as int), name@),
        decreases i,
    {
        let ghost sub = fr@.bindings.subrange(0, i as int);
        assert(sub.drop_last() =~= fr@.bindings.subrange(0, i - 1));
        assert(sub.last() == (fr.names@[i - 1]@, fr.values@[i - 1]@));
        if fr.names[i - 1] == *name {
            return Some(i - 1);
        }
        i = i - 1;
    }
    None
}

/// What `find_in` returns is the index of a binding of the name.
pub proof fn lemma_find_in(bs: Seq<(Seq<char>, ValueView)>, name: Seq<char>)
    ensures
        find_in(bs, name) matches Some(i) ==> 0 <= i < bs.len() && bs[i].0 == name,
        find_in(bs, name) matches Some(i) ==> forall|j: int| i < j < bs.len() ==> bs[j].0 != name,
        find_in(bs, name) is None ==> forall|j: int| 0 <= j < bs.len() ==> bs[j].0 != name,
    decreases bs.len(),
{
    if bs.len() > 0 && bs.last().0 != name {
        lemma_find_in(bs.drop_last(), name);
        assert forall|j: int| 0 <= j < bs.len() - 1 implies bs[j] == bs.drop_last()[j] by {}
    }
}

impl Environment {
    /// The value of `name` seen from frame `f`: the binding of the nearest
    /// frame outward that has one.
    pub fn get(&self, f: usize, name: &str) -> (r: Option<LiteralValueAst>)
        requires
            self.wf(),
            self.valid(f as int),
        ensures
            match lookup(self.view_frames(), f as int, name@) {
                Some(v) => r matches Some(x) && x@ == v,
                None => r is None,
            },
    {
        let ghost fs = self.view_frames();
        let key = String::from_str(name);
        let mut cur = f;
        loop
            invariant
                self.wf(),
                key@ == name@,
                fs == self.view_frames(),
                0 <= cur < self.frames@.len(),
                owner(fs, f as int, name@) == owner(fs, cur as int, name@),
            decreases cur,
        {
            let fr = &self.frames[cur];
            assert(fs[cur as int] == fr@);
            match find_binding(fr, &key) {
                Some(i) => {
                    proof {
                        lemma_find_in(fs[cur as int].bindings, name@);
                        assert(owner(fs, cur as int, name@) == Some(cur as int));
                        assert(fs[cur as int].bindings[i as int].1 == fr.values@[i as int]@);
                        assert(find_in(fs[cur as int].bindings, key@) == Some(i as int));
                        assert(lookup(fs, cur as int, name@) == Some(fr.values@[i as int]@));
                        assert(lookup(fs, f as int, name@) == Some(fr.values@[i as int]@));
                    }
                    return Some(fr.values[i].duplicate());
                },
                None => {
                    match fr.enclosing {
                        Some(p) => {
                            if p >= cur {
                                assert(cur == 0);
                                return None;
                            }
                            cur = p;
                        },
                        None => {
                            return None;
                        },
                    }
                },
            }
        }
    }

    /// Binds `name` to `v` in frame `f` only, overwriting a binding of the
    /// same name there.
    pub fn define(&mut self, f: usize, name: String, v: LiteralValueAst)
        requires
            old(self).wf(),
            old(self).valid(f as int),
        ensures
            final(self).wf(),
            final(self).pinned == old(self).pinned,
            final(self).frames@.len() == old(self).frames@.len(),
            final(self).view_frames() == bind_in(old(self).view_frames(), f as int, name@, v@),
    {
        let ghost fs = self.view_frames();
        let mut fr = Frame { names: Vec::new(), values: Vec::new(), enclosing: None };
        self.frames.set_and_swap(f, &mut fr);
        let ghost old_fr = fr@;
        assert(old_fr == fs[f as int]);
        match find_binding(&fr, &name) {
            Some(i) => {
                let ghost nm = name@;
                let ghost vv = v@;
                fr.values.set(i, v);
                fr.names.set(i, name);
                proof {
                    lemma_find_in(old_fr.bindings, nm);
                    assert(fr@.bindings =~= old_fr.bindings.update(i as int, (nm, vv)));
                    assert(fr@.bindings == bind(old_fr.bindings, nm, vv));
                }
            },
            None => {
                let ghost nm = name@;
                let ghost vv = v@;
                fr.names.push(name);
                fr.values.push(v);
                proof {
                    assert(fr@.bindings =~= old_fr.bindings.push((nm, vv)));
                    assert(fr@.bindings == bind(old_fr.bindings, nm, vv));
                }
            },
        }
        let ghost mid = self.frames@;
        let ghost newfr = fr;
        self.frames.set_and_swap(f, &mut fr);
        proof {
            assert(self.frames@ == mid.update(f as int, newfr));
            assert forall|j: int| 0 <= j < self.frames@.len() implies self.view_frames()[j] == bind_in(
                fs,
                f as int,
                name@,
                v@,
            )[j] by {
                if j != f {
                    assert(self.frames@[j] == old(self).frames@[j]);
                }
            }
            assert(self.view_frames() =~= bind_in(fs, f as int, name@, v@));
        }
    }

    /// Rebinds `name` in the nearest frame from `f` outward that binds it.
    /// Returns false, changing nothing, when no frame does.
    pub fn assign(&mut self, f: usize, name: &str, v: LiteralValueAst) -> (r: bool)
        requires
            old(self).wf(),
            old(self).valid(f as int),
        ensures
            final(self).wf(),
            final(self).pinned == old(self).pinned,
            final(self).frames@.len() == old(self).frames@.len(),
            r == owner(old(self).view_frames(), f as int, name@) is Some,
            match owner(old(self).view_frames(), f as int, name@) {
                Some(g) => final(self).view_frames() == bind_in(
                    old(self).view_frames(),
                    g,
                    name@,
                    v@,
                ),
                None => final(self).view_frames() == old(self).view_frames(),
            },
    {
        let ghost fs = self.view_frames();
        let key = String::from_str(name);
        let mut cur = f;
        loop
            invariant
                self.wf(),
                key@ == name@,
                fs == self.view_frames(),
                self.pinned == old(self).pinned,
                *self == *old(self),
                0 <= cur < self.frames@.len(),
                owner(fs, f as int, name@) == owner(fs, cur as int, name@),
            decreases cur,
        {
            let found = find_binding(&self.frames[cur], &key);
            assert(fs[cur as int] == self.frames@[cur as int]@);
            match found {
                Some(_) => {
                    self.define(cur, key, v);
                    return true;
                },
                None => {
                    match self.frames[cur].enclosing {
                        Some(p) => {
                            if p >= cur {
                                return false;
                            }
                            cur = p;
                        },
                        None => {
                            return false;
                        },
                    }
                },
            }
        }
    }

    /// Writes `name` into the global frame.
    pub fn define_top_level(&mut self, name: String, v: LiteralValueAst)
        requires
            old(self).wf(),
        ensures
            final(self).wf(),
            final(self).pinned == old(self).pinned,
            final(self).view_frames() == bind_in(old(self).view_frames(), 0, name@, v@),
    {
        self.define(0, name, v);
    }

    /// Adds an empty frame enclosed by `parent`, returning its index.
    pub fn push_frame(&mut self, parent: usize) -> (r: usize)
        requires
            old(self).wf(),
            old(self).valid(parent as int),
        ensures
            final(self).wf(),
            final(self).pinned == old(self).pinned,
            r == old(self).frames@.len(),
            final(self).frames@.len() == old(self).frames@.len() + 1,
            final(self).view_frames() == old(self).view_frames().push(
                FrameView { bindings: Seq::empty(), enclosing: Some(parent as int) },
            ),
    {
        let r = self.frames.len();
        self.frames.push(Frame { names: Vec::new(), values: Vec::new(), enclosing: Some(parent) });
        proof {
            assert(self.frames@[r as int]@.bindings =~= Seq::<(Seq<char>, ValueView)>::empty());
            assert(self.view_frames() =~= old(self).view_frames().push(
                FrameView { bindings: Seq::empty(), enclosing: Some(parent as int) },
            ));
        }
        r
    }

    /// Keeps frame `f` and every frame below it from being dropped.
    pub fn pin(&mut self, f: usize)
        requires
            old(self).wf(),
            old(self).valid(f as int),
        ensures
            final(self).wf(),
            final(self).frames@ == old(self).frames@,
            final(self).pinned == (if old(self).pinned <= f {
                f + 1
            } else {
                old(self).pinned as int
            }),
    {
        let _ = self.frames.len();
        if self.pinned <= f {
            self.pinned = f + 1;
        }
    }

    /// Ends frame `f`: when no closure may hold it, it is dropped together
    /// with every frame above it.
    pub fn release(&mut self, f: usize)
        requires
            old(self).wf(),
        ensures
            final(self).wf(),
            final(self).pinned == old(self).pinned,
            final(self).frames@ == (if old(self).pinned <= f <= old(self).frames@.len() {
                old(self).frames@.subrange(0, f as int)
            } else {
                old(self).frames@
            }),
            final(self).view_frames() == (if old(self).pinned <= f <= old(self).frames@.len() {
                old(self).view_frames().subrange(0, f as int)
            } else {
                old(self).view_frames()
            }),
    {
        if f >= self.pinned && f <= self.frames.len() {
            self.frames.truncate(f);
            proof {
                assert(self.view_frames() =~= old(self).view_frames().subrange(0, f as int));
            }
        }
    }
}

/// A binding found by `find_in` is the last one of its name.
proof fn lemma_find_last(bs: Seq<(Seq<char>, ValueView)>, name: Seq<char>, i: int)
    requires
        0 <= i < bs.len(),
        bs[i].0 == name,
        forall|j: int| i < j < bs.len() ==> bs[j].0 != name,
    ensures
        find_in(bs, name) == Some(i),
    decreases bs.len(),
{
    if bs.len() - 1 != i {
        lemma_find_last(bs.drop_last(), name, i);
    }
}

/// After `name` is bound to `v` in frame `f`, `name` has the value `v`
/// seen from `f`.
pub proof fn lemma_define_then_lookup(fs: Seq<FrameView>, f: int, name: Seq<char>, v: ValueView)
    requires
        0 <= f < fs.len(),
    ensures
        lookup(bind_in(fs, f, name, v), f, name) == Some(v),
{
    let bs = fs[f].bindings;
    let nb = bind(bs, name, v);
    lemma_find_in(bs, name);
    match find_in(bs, name) {
        Some(i) => {
            lemma_find_last(nb, name, i);
        },
        None => {
            lemma_find_last(nb, name, bs.len() as int);
        },
    }
    let fs2 = bind_in(fs, f, name, v);
    assert(fs2[f].bindings == nb);
    assert(owner(fs2, f, name) == Some(f));
}

/// Binding a name in a frame that `f`'s chain does not reach, a frame
/// above `f`, leaves every name's value seen from `f` as it was.
proof fn lemma_owner_unchanged(fs: Seq<FrameView>, c: int, f: int, name: Seq<char>, m: Seq<char>, v: ValueView)
    requires
        0 <= f < c < fs.len(),
    ensures
        owner(bind_in(fs, c, m, v), f, name) == owner(fs, f, name),
    decreases f,
{
    let fs2 = bind_in(fs, c, m, v);
    assert(fs2[f] == fs[f]);
    match fs[f].enclosing {
        Some(p) => if 0 <= p < f {
            lemma_owner_unchanged(fs, c, p, name, m, v);
        },
        None => {},
    }
}

/// Shadowing: a binding made in a frame above `f`, such as an inner
/// block's, leaves what every name means from `f` unchanged.
pub proof fn lemma_inner_binding_keeps_outer(fs: Seq<FrameView>, c: int, f: int, name: Seq<char>, m: Seq<char>, v: ValueView)
    requires
        0 <= f < c < fs.len(),
    ensures
        lookup(bind_in(fs, c, m, v), f, name) == lookup(fs, f, name),
{
    lemma_owner_unchanged(fs, c, f, name, m, v);
    let fs2 = bind_in(fs, c, m, v);
    match owner(fs, f, name) {
        Some(g) => {
            lemma_owner_le(fs, f, name);
            assert(fs2[g] == fs[g]);
        },
        None => {},
    }
}

/// The frame that binds a name is at or below the frame looked from.
proof fn lemma_owner_le(fs: Seq<FrameView>, f: int, name: Seq<char>)
    ensures
        owner(fs, f, name) matches Some(g) ==> 0 <= g <= f,
    decreases f,
{
    if 0 <= f < fs.len() && find_in(fs[f].bindings, name) is None {
        match fs[f].enclosing {
            Some(p) => if 0 <= p < f {
                lemma_owner_le(fs, p, name);
            },
            None => {},
        }
    }
}

} // verus!
