//! The nested rooting frames that bound the validity of host references.
//!
//! Scopes form a strict stack: they are opened and closed in last-in,
//! first-out order, mirroring the host runtime's own handle-scope primitive.
//! Every host reference created while a scope is the innermost open scope is
//! rooted by that scope and becomes invalid when the scope closes, unless it
//! was first promoted ("escaped") from an escapable scope into the parent.

use vstd::prelude::*;

verus! {

/// One rooting frame on the scope stack.
#[derive(Clone, Copy, PartialEq, Eq, Structural, Debug)]
pub struct Frame {
    /// Identifier of the frame. Identifiers are handed out in strictly
    /// increasing order and are never reused within one stack, so a closed
    /// scope can never be confused with a later one.
    pub id: u64,
    /// Whether a single handle may be promoted from this scope to its parent.
    pub escapable: bool,
    /// Whether the one permitted promotion out of this scope has been used.
    pub escaped: bool,
}

/// Token returned when a scope is opened; it must be presented back to close
/// that scope, which enforces the last-in, first-out discipline.
#[derive(Clone, Copy, PartialEq, Eq, Structural, Debug)]
pub struct ScopeToken {
    /// Identifier of the frame this token opened.
    pub id: u64,
}

/// Mathematical model of a scope stack: the frames from bottom to top, and
/// the next identifier to hand out.
pub struct StackModel {
    /// Frames from bottom (oldest) to top (innermost).
    pub frames: Seq<Frame>,
    /// The identifier the next opened scope will receive.
    pub next_id: u64,
}

impl StackModel {
    /// Frame identifiers grow strictly from bottom to top and stay below
    /// `next_id`; these two facts make identifiers unambiguous for the whole
    /// life of the stack.
    pub open spec fn wf(self) -> bool {
        &&& forall|i: int, j: int|
            0 <= i < j < self.frames.len() ==> self.frames[i].id < self.frames[j].id
        &&& forall|i: int| 0 <= i < self.frames.len() ==> self.frames[i].id < self.next_id
    }

    /// Number of open scopes.
    pub open spec fn depth(self) -> nat {
        self.frames.len()
    }

    /// Whether the scope with identifier `id` is still open: a handle bound
    /// to `id` is usable exactly while this holds.
    pub open spec fn live(self, id: u64) -> bool {
        exists|i: int| 0 <= i < self.frames.len() && self.frames[i].id == id
    }

    /// The innermost open frame.
    pub open spec fn top(self) -> Frame
        recommends
            self.depth() > 0,
    {
        self.frames.last()
    }

    /// The frame directly enclosing the innermost one: the target of an
    /// escape.
    pub open spec fn parent(self) -> Frame
        recommends
            self.depth() > 1,
    {
        self.frames[self.frames.len() - 2]
    }

    /// A fresh identifier is available. Exhausting the identifier space
    /// stands for unbounded native-to-host recursion, which the system treats
    /// as fatal rather than recoverable.
    pub open spec fn can_open(self) -> bool {
        self.next_id < u64::MAX
    }

    /// A handle bound to the innermost scope may be promoted to the parent:
    /// the innermost scope is escapable and its single promotion is unused.
    pub open spec fn can_escape(self) -> bool {
        &&& self.depth() >= 2
        &&& self.top().escapable
        &&& !self.top().escaped
    }
}

/// Relation between the stack models before and after opening the scope `f`.
pub open spec fn open_step(pre: StackModel, post: StackModel, f: Frame) -> bool {
    &&& pre.can_open()
    &&& f.id == pre.next_id
    &&& !f.escaped
    &&& post.frames == pre.frames.push(f)
    &&& post.next_id == pre.next_id + 1
}

/// Relation between the stack models before and after closing the innermost
/// scope.
pub open spec fn close_step(pre: StackModel, post: StackModel) -> bool {
    &&& pre.depth() > 0
    &&& post.frames == pre.frames.drop_last()
    &&& post.next_id == pre.next_id
}

/// Relation between the stack models before and after consuming the single
/// promotion of the innermost escapable scope: only the `escaped` mark of the
/// top frame changes.
pub open spec fn escape_step(pre: StackModel, post: StackModel) -> bool {
    &&& pre.can_escape()
    &&& post.frames == pre.frames.update(
        pre.frames.len() - 1,
        Frame { id: pre.top().id, escapable: pre.top().escapable, escaped: true },
    )
    &&& post.next_id == pre.next_id
}

/// The native mirror of the host's nested rooting frames.
pub struct ScopeStack {
    frames: Vec<Frame>,
    next_id: u64,
}

impl View for ScopeStack {
    type V = StackModel;

    closed spec fn view(&self) -> StackModel {
        StackModel { frames: self.frames@, next_id: self.next_id }
    }
}

impl ScopeStack {
    /// An empty stack: no scope is open and no identifier has been used yet.
    pub fn new() -> (s: ScopeStack)
        ensures
            s@.wf(),
            s@.depth() == 0,
            s@.next_id == 0,
    {
        ScopeStack { frames: Vec::new(), next_id: 0 }
    }

    fn open_frame(&mut self, escapable: bool) -> (t: ScopeToken)
        requires
            old(self)@.wf(),
            old(self)@.can_open(),
        ensures
            final(self)@.wf(),
            t.id == old(self)@.next_id,
            open_step(old(self)@, final(self)@, Frame { id: t.id, escapable, escaped: false }),
            !old(self)@.live(t.id),
            final(self)@.live(t.id),
            final(self)@.top() == (Frame { id: t.id, escapable, escaped: false }),
    {
        let id = self.next_id;
        self.frames.push(Frame { id, escapable, escaped: false });
        self.next_id = self.next_id + 1;
        proof {
            let pre = old(self)@;
            let post = self@;
            let last = post.frames.len() - 1;
            assert(post.frames[last].id == id);
            assert forall|i: int, j: int| 0 <= i < j < post.frames.len() implies post.frames[i].id
                < post.frames[j].id by {
                if j < last {
                    assert(pre.frames[i].id < pre.frames[j].id);
                } else {
                    assert(pre.frames[i].id < pre.next_id);
                }
            }
        }
        ScopeToken { id }
    }

    /// Opens an ordinary scope as the new innermost rooting frame and returns
    /// the token that must later close it.
    pub fn open_scope(&mut self) -> (t: ScopeToken)
        requires
            old(self)@.wf(),
            old(self)@.can_open(),
        ensures
            final(self)@.wf(),
            t.id == old(self)@.next_id,
            open_step(old(self)@, final(self)@, Frame { id: t.id, escapable: false, escaped: false }),
            !old(self)@.live(t.id),
            final(self)@.live(t.id),
            final(self)@.top() == (Frame { id: t.id, escapable: false, escaped: false }),
    {
        self.open_frame(false)
    }

    /// Opens an escapable scope: before it closes, exactly one handle may be
    /// promoted out of it into the enclosing scope.
    pub fn open_escapable_scope(&mut self) -> (t: ScopeToken)
        requires
            old(self)@.wf(),
            old(self)@.can_open(),
        ensures
            final(self)@.wf(),
            t.id == old(self)@.next_id,
            open_step(old(self)@, final(self)@, Frame { id: t.id, escapable: true, escaped: false }),
            !old(self)@.live(t.id),
            final(self)@.live(t.id),
            final(self)@.top() == (Frame { id: t.id, escapable: true, escaped: false }),
    {
        self.open_frame(true)
    }

    /// Closes the innermost scope. The token of that exact scope must be
    /// presented: closing out of order is a programming defect and is ruled
    /// out before the call rather than detected after it.
    pub fn close_scope(&mut self, t: ScopeToken)
        requires
            old(self)@.wf(),
            old(self)@.depth() > 0,
            old(self)@.top().id == t.id,
        ensures
            final(self)@.wf(),
            close_step(old(self)@, final(self)@),
            !final(self)@.live(t.id),
            forall|id: u64| final(self)@.live(id) <==> old(self)@.live(id) && id != t.id,
    {
        proof {
            lemma_close_invalidates_only_top(old(self)@);
        }
        let _ = self.frames.pop();
    }

    /// Whether a fresh scope identifier is still available.
    pub fn can_open(&self) -> (r: bool)
        ensures
            r == self@.can_open(),
    {
        self.next_id < u64::MAX
    }

    /// Number of open scopes.
    pub fn depth(&self) -> (n: usize)
        ensures
            n == self@.depth(),
    {
        self.frames.len()
    }

    /// Runtime check of the rooting guarantee: whether the scope that a
    /// handle was bound to is still open.
    pub fn is_live(&self, id: u64) -> (r: bool)
        ensures
            r == self@.live(id),
    {
        let n = self.frames.len();
        for i in 0..n
            invariant
                n == self@.frames.len(),
                forall|j: int| 0 <= j < i ==> self@.frames[j].id != id,
        {
            if self.frames[i].id == id {
                return true;
            }
        }
        false
    }

    /// Marks the single promotion of the innermost escapable scope as used.
    /// The handle-level escape operation calls this exactly once per
    /// escapable scope.
    pub fn take_escape(&mut self)
        requires
            old(self)@.wf(),
            old(self)@.can_escape(),
        ensures
            final(self)@.wf(),
            escape_step(old(self)@, final(self)@),
            final(self)@.depth() == old(self)@.depth(),
            final(self)@.top().id == old(self)@.top().id,
            final(self)@.parent() == old(self)@.parent(),
            forall|id: u64| final(self)@.live(id) <==> old(self)@.live(id),
    {
        let n = self.frames.len();
        let f = self.frames[n - 1];
        self.frames[n - 1] = Frame { id: f.id, escapable: f.escapable, escaped: true };
        proof {
            lemma_same_ids_same_live(old(self)@, self@);
        }
    }

    /// The identifier of the innermost open scope: the scope that every newly
    /// created handle is bound to.
    pub fn top_id(&self) -> (id: u64)
        requires
            self@.depth() > 0,
        ensures
            id == self@.top().id,
    {
        self.frames[self.frames.len() - 1].id
    }

    /// The identifier of the scope enclosing the innermost one: the scope an
    /// escaped handle becomes bound to.
    pub fn parent_id(&self) -> (id: u64)
        requires
            self@.depth() > 1,
        ensures
            id == self@.parent().id,
    {
        self.frames[self.frames.len() - 2].id
    }

    /// Whether the innermost scope still permits its single promotion.
    pub fn may_escape(&self) -> (r: bool)
        ensures
            r == self@.can_escape(),
    {
        let n = self.frames.len();
        if n < 2 {
            return false;
        }
        let f = self.frames[n - 1];
        f.escapable && !f.escaped
    }
}

/// Law: opening a scope never invalidates a handle. Every scope live before
/// the open is live after it, the new scope is live, and the new scope's
/// identifier was never live before, so a new scope cannot resurrect a handle
/// bound to a closed one.
pub proof fn lemma_open_preserves_live(pre: StackModel, post: StackModel, f: Frame)
    requires
        pre.wf(),
        open_step(pre, post, f),
    ensures
        forall|id: u64| pre.live(id) ==> post.live(id),
        post.live(f.id),
        !pre.live(f.id),
{
    assert forall|id: u64| pre.live(id) implies post.live(id) by {
        let i = choose|i: int| 0 <= i < pre.frames.len() && pre.frames[i].id == id;
        assert(post.frames[i].id == id);
    }
    assert(post.frames[post.frames.len() - 1].id == f.id);
}

/// Law: closing the innermost scope invalidates exactly the handles bound to
/// it. Every other scope that was live stays live, and the closed scope's
/// identifier is dead.
pub proof fn lemma_close_invalidates_only_top(pre: StackModel)
    requires
        pre.wf(),
        pre.depth() > 0,
    ensures
        forall|id: u64|
            (StackModel { frames: pre.frames.drop_last(), next_id: pre.next_id }).live(id)
                <==> pre.live(id) && id != pre.top().id,
{
    let post = StackModel { frames: pre.frames.drop_last(), next_id: pre.next_id };
    let last = pre.frames.len() - 1;
    assert forall|id: u64| post.live(id) implies pre.live(id) && id != pre.top().id by {
        let i = choose|i: int| 0 <= i < post.frames.len() && post.frames[i].id == id;
        assert(pre.frames[i].id == id);
        assert(pre.frames[i].id < pre.frames[last].id);
    }
    assert forall|id: u64| pre.live(id) && id != pre.top().id implies post.live(id) by {
        let i = choose|i: int| 0 <= i < pre.frames.len() && pre.frames[i].id == id;
        assert(i != last);
        assert(post.frames[i].id == id);
    }
}

/// Law: once a scope has closed, no later operation can make a handle bound
/// to it usable again. A dead identifier below the stack's `next_id` stays
/// dead across every opening, closing, and escape step.
pub proof fn lemma_closed_scope_stays_closed(pre: StackModel, post: StackModel, id: u64, f: Frame)
    requires
        pre.wf(),
        !pre.live(id),
        id < pre.next_id,
        open_step(pre, post, f) || close_step(pre, post) || escape_step(pre, post),
    ensures
        !post.live(id),
        id < post.next_id,
{
    if open_step(pre, post, f) {
        assert forall|i: int| 0 <= i < post.frames.len() implies post.frames[i].id != id by {
            if i < pre.frames.len() {
                assert(pre.frames[i].id != id);
            } else {
                assert(post.frames[i].id == pre.next_id);
            }
        }
    } else if close_step(pre, post) {
        assert forall|i: int| 0 <= i < post.frames.len() implies post.frames[i].id != id by {
            assert(pre.frames[i].id != id);
        }
    } else {
        lemma_same_ids_same_live(pre, post);
    }
}

/// Two stacks whose frames carry the same identifiers position by position
/// keep the same scopes live; the escape mark has no effect on liveness.
proof fn lemma_same_ids_same_live(a: StackModel, b: StackModel)
    requires
        a.frames.len() == b.frames.len(),
        forall|i: int| 0 <= i < a.frames.len() ==> a.frames[i].id == b.frames[i].id,
    ensures
        forall|id: u64| a.live(id) <==> b.live(id),
{
    assert forall|id: u64| a.live(id) implies b.live(id) by {
        let i = choose|i: int| 0 <= i < a.frames.len() && a.frames[i].id == id;
        assert(b.frames[i].id == id);
    }
    assert forall|id: u64| b.live(id) implies a.live(id) by {
        let i = choose|i: int| 0 <= i < b.frames.len() && b.frames[i].id == id;
        assert(a.frames[i].id == id);
    }
}

} // verus!
