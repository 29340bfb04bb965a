//! The capability token mediating every host entry point call.
//!
//! A [`Context`] is constructed by whatever opens a rooting scope: the host
//! driving a module load or a function call, or a native computation block.
//! It owns the mirrored scope stack, the table of host values that handles
//! refer to, and — for a module-load context — the module namespace that
//! exported values land in. Every operation that creates or reads a host
//! value goes through a context, so a handle can only come into existence
//! bound to a scope that is open, and can only be read while that scope is
//! still open.

use vstd::prelude::*;

use crate::handle::{Handle, HandleModel, Local, ValueKind};
use crate::scope::{escape_step, open_step, ScopeStack, ScopeToken, StackModel};
use crate::tag::{tag_bits_match, TypeTag};
use crate::value::{dup_value, stored_tag, HostValue, Val};

verus! {

/// The closed set of call sites a context can stand for; the variant decides
/// which operations are legal, while scope management is shared.
#[derive(Clone, Copy, PartialEq, Eq, Structural, Debug)]
pub enum ContextVariant {
    /// The host is loading the module; exporting values is legal only here.
    ModuleLoad,
    /// The host invoked a native function.
    FunctionCall,
    /// A native computation block running under its own scope.
    Computation,
}

/// A host-level failure: the host reported an error or a pending exception
/// from an entry point call. The native caller must propagate or handle it.
#[derive(Clone, Copy, PartialEq, Eq, Structural, Debug)]
pub struct Throw;

/// Failure of a downcast from a host-owned opaque object back to boxed
/// native data.
#[derive(Clone, Copy, PartialEq, Eq, Structural, Debug)]
pub enum DowncastError {
    /// The referenced value is not boxed native data at all.
    NotBoxed,
    /// The value is boxed native data, but stamped by a different addon
    /// instance: type confusion, never silently coerced.
    TagMismatch,
}

/// A named value exported into the module's namespace.
pub struct Binding {
    /// The exported name.
    pub name: String,
    /// The exported value.
    pub value: HostValue,
}

/// Mathematical model of a module namespace: name/value pairs from oldest to
/// newest, with at most one entry per name.
pub type NsModel = Seq<(Seq<char>, Val)>;

/// The value bound to `name`, if any: the first binding with that name.
pub open spec fn ns_lookup(m: NsModel, name: Seq<char>) -> Option<Val>
    decreases m.len(),
{
    if m.len() == 0 {
        None
    } else if m[0].0 == name {
        Some(m[0].1)
    } else {
        ns_lookup(m.drop_first(), name)
    }
}

/// Binds `name` to `v`: replaces the first binding with that name in place,
/// or appends a new binding if the name is absent.
pub open spec fn ns_set(m: NsModel, name: Seq<char>, v: Val) -> NsModel
    decreases m.len(),
{
    if m.len() == 0 {
        seq![(name, v)]
    } else if m[0].0 == name {
        seq![(name, v)] + m.drop_first()
    } else {
        seq![m[0]] + ns_set(m.drop_first(), name, v)
    }
}

/// The names bound in the namespace, in binding order.
pub open spec fn ns_names(m: NsModel) -> Seq<Seq<char>> {
    m.map_values(|p: (Seq<char>, Val)| p.0)
}

/// Mathematical model of a context: its variant, the host's value table, the
/// scope stack, the module namespace, and the log of names exported through
/// it, in order.
pub struct CxModel {
    /// Which call site this context stands for.
    pub variant: ContextVariant,
    /// The host's value table; a handle's Local indexes into it.
    pub slots: Seq<Val>,
    /// The mirrored stack of rooting scopes.
    pub scopes: StackModel,
    /// The module namespace.
    pub namespace: NsModel,
    /// Every name exported through this context, in export order.
    pub exported: Seq<Seq<char>>,
}

impl CxModel {
    /// The handle's rooting scope is still open, so the handle is usable.
    pub open spec fn live(self, h: HandleModel) -> bool {
        self.scopes.live(h.scope)
    }

    /// The handle indexes an existing host value.
    pub open spec fn has_slot(self, h: HandleModel) -> bool {
        h.local < self.slots.len()
    }

    /// The host value the handle refers to.
    pub open spec fn slot_of(self, h: HandleModel) -> Val
        recommends
            self.has_slot(h),
    {
        self.slots[h.local as int]
    }
}

/// The parts of a context that scope operations leave untouched.
pub open spec fn same_but_scopes(pre: CxModel, post: CxModel) -> bool {
    &&& post.variant == pre.variant
    &&& post.slots == pre.slots
    &&& post.namespace == pre.namespace
    &&& post.exported == pre.exported
}

/// The capability token threaded through native call sites.
pub struct Context {
    variant: ContextVariant,
    slots: Vec<HostValue>,
    scopes: ScopeStack,
    namespace: Vec<Binding>,
    exported: Ghost<Seq<Seq<char>>>,
}

impl View for Context {
    type V = CxModel;

    closed spec fn view(&self) -> CxModel {
        CxModel {
            variant: self.variant,
            slots: self.slots@.map_values(|v: HostValue| v@),
            scopes: self.scopes@,
            namespace: self.namespace@.map_values(|b: Binding| (b.name@, b.value@)),
            exported: self.exported@,
        }
    }
}

impl Context {
    fn entry(variant: ContextVariant) -> (cx: Context)
        ensures
            cx@.variant == variant,
            cx@.scopes.wf(),
            cx@.scopes.depth() == 1,
            cx@.scopes.next_id == 1,
            cx@.scopes.can_open(),
            cx@.slots.len() == 0,
            cx@.namespace.len() == 0,
            cx@.exported.len() == 0,
    {
        let mut scopes = ScopeStack::new();
        let _root = scopes.open_scope();
        let cx = Context {
            variant,
            slots: Vec::new(),
            scopes,
            namespace: Vec::new(),
            exported: Ghost(Seq::empty()),
        };
        proof {
            assert(cx@.slots =~= Seq::<Val>::empty());
            assert(cx@.namespace =~= Seq::<(Seq<char>, Val)>::empty());
        }
        cx
    }

    /// The context the host constructs when it loads the module: the only
    /// variant that may export values into the module namespace.
    pub fn module_load() -> (cx: Context)
        ensures
            cx@.variant is ModuleLoad,
            cx@.scopes.wf(),
            cx@.scopes.depth() == 1,
            cx@.scopes.next_id == 1,
            cx@.scopes.can_open(),
            cx@.slots.len() == 0,
            cx@.namespace.len() == 0,
            cx@.exported.len() == 0,
    {
        Context::entry(ContextVariant::ModuleLoad)
    }

    /// The context the host constructs when it invokes a native function.
    pub fn function_call() -> (cx: Context)
        ensures
            cx@.variant is FunctionCall,
            cx@.scopes.wf(),
            cx@.scopes.depth() == 1,
            cx@.scopes.next_id == 1,
            cx@.scopes.can_open(),
            cx@.slots.len() == 0,
            cx@.namespace.len() == 0,
            cx@.exported.len() == 0,
    {
        Context::entry(ContextVariant::FunctionCall)
    }

    /// The context a native computation block runs under.
    pub fn computation() -> (cx: Context)
        ensures
            cx@.variant is Computation,
            cx@.scopes.wf(),
            cx@.scopes.depth() == 1,
            cx@.scopes.next_id == 1,
            cx@.scopes.can_open(),
            cx@.slots.len() == 0,
            cx@.namespace.len() == 0,
            cx@.exported.len() == 0,
    {
        Context::entry(ContextVariant::Computation)
    }

    /// Which call site this context stands for.
    pub fn variant(&self) -> (r: ContextVariant)
        ensures
            r == self@.variant,
    {
        self.variant
    }

    /// Number of open scopes.
    pub fn depth(&self) -> (n: usize)
        ensures
            n == self@.scopes.depth(),
    {
        self.scopes.depth()
    }

    /// Whether a fresh scope identifier is still available.
    pub fn can_open_scope(&self) -> (r: bool)
        ensures
            r == self@.scopes.can_open(),
    {
        self.scopes.can_open()
    }

    /// Identifier of the innermost open scope: the scope every newly
    /// created handle is bound to.
    pub fn current_scope_id(&self) -> (id: u64)
        requires
            self@.scopes.depth() > 0,
        ensures
            id == self@.scopes.top().id,
    {
        self.scopes.top_id()
    }

    /// Runtime form of the rooting guarantee: whether the scope the handle
    /// was bound to is still open.
    pub fn is_valid(&self, h: Handle) -> (r: bool)
        ensures
            r == self@.live(h@),
    {
        self.scopes.is_live(h.scope_id())
    }

    /// Opens an ordinary nested scope.
    pub fn open_scope(&mut self) -> (t: ScopeToken)
        requires
            old(self)@.scopes.wf(),
            old(self)@.scopes.can_open(),
        ensures
            final(self)@.scopes.wf(),
            same_but_scopes(old(self)@, final(self)@),
            open_step(
                old(self)@.scopes,
                final(self)@.scopes,
                crate::scope::Frame { id: t.id, escapable: false, escaped: false },
            ),
            t.id == old(self)@.scopes.next_id,
            final(self)@.scopes.top().id == t.id,
            final(self)@.scopes.live(t.id),
            !old(self)@.scopes.live(t.id),
            forall|id: u64| old(self)@.scopes.live(id) ==> final(self)@.scopes.live(id),
    {
        let t = self.scopes.open_scope();
        proof {
            crate::scope::lemma_open_preserves_live(
                old(self)@.scopes,
                self@.scopes,
                crate::scope::Frame { id: t.id, escapable: false, escaped: false },
            );
        }
        t
    }

    /// Opens an escapable scope: before it closes, exactly one handle may be
    /// promoted out of it into the enclosing scope.
    pub fn open_escapable_scope(&mut self) -> (t: ScopeToken)
        requires
            old(self)@.scopes.wf(),
            old(self)@.scopes.can_open(),
        ensures
            final(self)@.scopes.wf(),
            same_but_scopes(old(self)@, final(self)@),
            open_step(
                old(self)@.scopes,
                final(self)@.scopes,
                crate::scope::Frame { id: t.id, escapable: true, escaped: false },
            ),
            t.id == old(self)@.scopes.next_id,
            final(self)@.scopes.top().id == t.id,
            final(self)@.scopes.can_escape() == (old(self)@.scopes.depth() >= 1),
            final(self)@.scopes.live(t.id),
            !old(self)@.scopes.live(t.id),
            forall|id: u64| old(self)@.scopes.live(id) ==> final(self)@.scopes.live(id),
    {
        let t = self.scopes.open_escapable_scope();
        proof {
            crate::scope::lemma_open_preserves_live(
                old(self)@.scopes,
                self@.scopes,
                crate::scope::Frame { id: t.id, escapable: true, escaped: false },
            );
        }
        t
    }

    /// Closes the innermost scope, presenting its token; every handle bound
    /// to it becomes invalid, and no other handle is affected.
    pub fn close_scope(&mut self, t: ScopeToken)
        requires
            old(self)@.scopes.wf(),
            old(self)@.scopes.depth() > 0,
            old(self)@.scopes.top().id == t.id,
        ensures
            final(self)@.scopes.wf(),
            same_but_scopes(old(self)@, final(self)@),
            crate::scope::close_step(old(self)@.scopes, final(self)@.scopes),
            !final(self)@.scopes.live(t.id),
            forall|id: u64|
                final(self)@.scopes.live(id) <==> old(self)@.scopes.live(id) && id != t.id,
    {
        self.scopes.close_scope(t);
    }

    /// Promotes a handle bound to the innermost escapable scope into the
    /// enclosing scope, consuming that scope's single promotion. The
    /// returned handle refers to exactly the same host object.
    pub fn escape(&mut self, h: Handle) -> (r: Handle)
        requires
            old(self)@.scopes.wf(),
            old(self)@.scopes.can_escape(),
            h@.scope == old(self)@.scopes.top().id,
        ensures
            final(self)@.scopes.wf(),
            same_but_scopes(old(self)@, final(self)@),
            escape_step(old(self)@.scopes, final(self)@.scopes),
            r@.local == h@.local,
            r@.kind == h@.kind,
            r@.scope == old(self)@.scopes.parent().id,
            final(self)@.live(r@),
            forall|id: u64| final(self)@.scopes.live(id) <==> old(self)@.scopes.live(id),
    {
        let parent = self.scopes.parent_id();
        self.scopes.take_escape();
        proof {
            let frames = old(self)@.scopes.frames;
            assert(frames[frames.len() - 2].id == parent);
            assert(old(self)@.scopes.live(parent));
        }
        Handle::new(h.local(), parent, h.kind())
    }

    /// Checked form of [`Context::escape`]: promotes the handle if the
    /// innermost scope is escapable, its promotion is unused, and the handle
    /// belongs to it; otherwise reports the misuse and changes nothing.
    pub fn try_escape(&mut self, h: Handle) -> (r: Option<Handle>)
        requires
            old(self)@.scopes.wf(),
        ensures
            final(self)@.scopes.wf(),
            same_but_scopes(old(self)@, final(self)@),
            r is Some <==> old(self)@.scopes.can_escape() && h@.scope == old(
                self,
            )@.scopes.top().id,
            r matches Some(e) ==> {
                &&& escape_step(old(self)@.scopes, final(self)@.scopes)
                &&& e@.local == h@.local
                &&& e@.kind == h@.kind
                &&& e@.scope == old(self)@.scopes.parent().id
                &&& final(self)@.live(e@)
            },
            r is None ==> final(self)@.scopes == old(self)@.scopes,
    {
        if self.scopes.may_escape() && h.scope_id() == self.scopes.top_id() {
            Some(self.escape(h))
        } else {
            None
        }
    }

    /// Calls into the host to create a value, roots the resulting Local in
    /// the innermost open scope, and wraps it as a handle of the given kind.
    fn alloc_slot(&mut self, v: HostValue, kind: ValueKind) -> (h: Handle)
        requires
            old(self)@.scopes.wf(),
            old(self)@.scopes.depth() > 0,
        ensures
            final(self)@.scopes.wf(),
            final(self)@.slots == old(self)@.slots.push(v@),
            final(self)@.scopes == old(self)@.scopes,
            final(self)@.variant == old(self)@.variant,
            final(self)@.namespace == old(self)@.namespace,
            final(self)@.exported == old(self)@.exported,
            h@.local == old(self)@.slots.len(),
            h@.scope == old(self)@.scopes.top().id,
            h@.kind == kind,
            final(self)@.live(h@),
            final(self)@.has_slot(h@),
            final(self)@.slot_of(h@) == v@,
    {
        let scope = self.scopes.top_id();
        let local: Local = self.slots.len();
        let ghost vv = v@;
        self.slots.push(v);
        proof {
            assert(self@.slots =~= old(self)@.slots.push(vv));
            let frames = self@.scopes.frames;
            assert(frames[frames.len() - 1].id == scope);
            assert(self@.scopes.live(scope));
        }
        Handle::new(local, scope, kind)
    }

    /// Creates a handle to the global `undefined` value.
    pub fn undefined(&mut self) -> (h: Handle)
        requires
            old(self)@.scopes.wf(),
            old(self)@.scopes.depth() > 0,
        ensures
            final(self)@.scopes.wf(),
            final(self)@.slots == old(self)@.slots.push(Val::Undefined),
            same_but_slots(old(self)@, final(self)@),
            h@ == (HandleModel {
                local: old(self)@.slots.len() as Local,
                scope: old(self)@.scopes.top().id,
                kind: ValueKind::Undefined,
            }),
            final(self)@.live(h@),
            final(self)@.slot_of(h@) == Val::Undefined,
    {
        self.alloc_slot(HostValue::Undefined, ValueKind::Undefined)
    }

    /// Creates a handle to the global `null` value.
    pub fn null(&mut self) -> (h: Handle)
        requires
            old(self)@.scopes.wf(),
            old(self)@.scopes.depth() > 0,
        ensures
            final(self)@.scopes.wf(),
            final(self)@.slots == old(self)@.slots.push(Val::Null),
            same_but_slots(old(self)@, final(self)@),
            h@ == (HandleModel {
                local: old(self)@.slots.len() as Local,
                scope: old(self)@.scopes.top().id,
                kind: ValueKind::Null,
            }),
            final(self)@.live(h@),
            final(self)@.slot_of(h@) == Val::Null,
    {
        self.alloc_slot(HostValue::Null, ValueKind::Null)
    }

    /// Creates a handle to a host boolean.
    pub fn boolean(&mut self, b: bool) -> (h: Handle)
        requires
            old(self)@.scopes.wf(),
            old(self)@.scopes.depth() > 0,
        ensures
            final(self)@.scopes.wf(),
            final(self)@.slots == old(self)@.slots.push(Val::Boolean(b)),
            same_but_slots(old(self)@, final(self)@),
            h@ == (HandleModel {
                local: old(self)@.slots.len() as Local,
                scope: old(self)@.scopes.top().id,
                kind: ValueKind::Boolean,
            }),
            final(self)@.live(h@),
            final(self)@.slot_of(h@) == Val::Boolean(b),
    {
        self.alloc_slot(HostValue::Boolean(b), ValueKind::Boolean)
    }

    /// Creates a handle to a host number.
    pub fn number(&mut self, n: i64) -> (h: Handle)
        requires
            old(self)@.scopes.wf(),
            old(self)@.scopes.depth() > 0,
        ensures
            final(self)@.scopes.wf(),
            final(self)@.slots == old(self)@.slots.push(Val::Number(n)),
            same_but_slots(old(self)@, final(self)@),
            h@ == (HandleModel {
                local: old(self)@.slots.len() as Local,
                scope: old(self)@.scopes.top().id,
                kind: ValueKind::Number,
            }),
            final(self)@.live(h@),
            final(self)@.slot_of(h@) == Val::Number(n),
    {
        self.alloc_slot(HostValue::Number(n), ValueKind::Number)
    }

    /// Creates a handle to a host text value with the given contents.
    pub fn string(&mut self, s: &str) -> (h: Handle)
        requires
            old(self)@.scopes.wf(),
            old(self)@.scopes.depth() > 0,
        ensures
            final(self)@.scopes.wf(),
            final(self)@.slots == old(self)@.slots.push(Val::Text(s@)),
            same_but_slots(old(self)@, final(self)@),
            h@ == (HandleModel {
                local: old(self)@.slots.len() as Local,
                scope: old(self)@.scopes.top().id,
                kind: ValueKind::Text,
            }),
            final(self)@.live(h@),
            final(self)@.slot_of(h@) == Val::Text(s@),
    {
        self.alloc_slot(HostValue::Text(s.to_owned()), ValueKind::Text)
    }

    /// Boxes native data into a host-owned value, stamped with the given
    /// type tag; a later downcast must present the same tag.
    pub fn boxed(&mut self, tag: TypeTag, payload: u64) -> (h: Handle)
        requires
            old(self)@.scopes.wf(),
            old(self)@.scopes.depth() > 0,
        ensures
            final(self)@.scopes.wf(),
            final(self)@.slots == old(self)@.slots.push(Val::Boxed(tag, payload)),
            same_but_slots(old(self)@, final(self)@),
            h@ == (HandleModel {
                local: old(self)@.slots.len() as Local,
                scope: old(self)@.scopes.top().id,
                kind: ValueKind::Boxed,
            }),
            final(self)@.live(h@),
            final(self)@.slot_of(h@) == Val::Boxed(tag, payload),
    {
        self.alloc_slot(HostValue::Boxed(tag, payload), ValueKind::Boxed)
    }

    /// Reads the boolean out of the referenced host value. Only a handle to
    /// a boolean, still rooted by an open scope, may be read.
    pub fn boolean_value(&self, h: Handle) -> (b: bool)
        requires
            self@.live(h@),
            self@.has_slot(h@),
            self@.slot_of(h@) is Boolean,
        ensures
            self@.slot_of(h@) == Val::Boolean(b),
    {
        match &self.slots[h.local()] {
            HostValue::Boolean(b) => *b,
            _ => unreached(),
        }
    }

    /// The host's tag check on the referenced value: compares the probe
    /// against the stored tag bits, where an untagged value stores all-zero
    /// bits. A probe with a non-zero upper half therefore never matches an
    /// untagged value.
    pub fn check_type_tag(&self, h: Handle, tag: TypeTag) -> (r: bool)
        requires
            self@.live(h@),
            self@.has_slot(h@),
        ensures
            r == tag_bits_match(stored_tag(self@.slot_of(h@)), tag),
    {
        match &self.slots[h.local()] {
            HostValue::Boxed(t, _) => t.lower == tag.lower && t.upper == tag.upper,
            _ => tag.lower == 0 && tag.upper == 0,
        }
    }

    /// Downcasts a host-owned value back to boxed native data. Succeeds
    /// exactly when the value is boxed native data stamped with the
    /// presented tag; a mismatched stamp is type confusion and is reported,
    /// never coerced.
    pub fn downcast_boxed(&self, h: Handle, tag: TypeTag) -> (r: Result<u64, DowncastError>)
        requires
            self@.live(h@),
            self@.has_slot(h@),
        ensures
            match self@.slot_of(h@) {
                Val::Boxed(t, p) => r == if t == tag {
                    Ok::<u64, DowncastError>(p)
                } else {
                    Err::<u64, DowncastError>(DowncastError::TagMismatch)
                },
                _ => r == Err::<u64, DowncastError>(DowncastError::NotBoxed),
            },
    {
        match &self.slots[h.local()] {
            HostValue::Boxed(t, p) => {
                if t.lower == tag.lower && t.upper == tag.upper {
                    Ok(*p)
                } else {
                    Err(DowncastError::TagMismatch)
                }
            },
            _ => Err(DowncastError::NotBoxed),
        }
    }

    /// Exports the value a handle refers to under the given name. Legal only
    /// on the module-load context. Binds the name in the module namespace,
    /// replacing any previous binding of the same name, and logs the export.
    pub fn export_value(&mut self, name: &str, h: Handle) -> (r: Result<(), Throw>)
        requires
            old(self)@.variant is ModuleLoad,
            old(self)@.scopes.wf(),
            old(self)@.live(h@),
            old(self)@.has_slot(h@),
        ensures
            r is Ok,
            final(self)@.scopes.wf(),
            final(self)@.namespace == ns_set(
                old(self)@.namespace,
                name@,
                old(self)@.slot_of(h@),
            ),
            final(self)@.exported == old(self)@.exported.push(name@),
            final(self)@.slots == old(self)@.slots,
            final(self)@.scopes == old(self)@.scopes,
            final(self)@.variant == old(self)@.variant,
    {
        let value = dup_value(&self.slots[h.local()]);
        let owned = name.to_owned();
        let n = self.namespace.len();
        let mut i: usize = 0;
        while i < n
            invariant
                n == self.namespace@.len(),
                i <= n,
                forall|k: int| 0 <= k < i ==> self@.namespace[k].0 != name@,
                self@ == old(self)@,
                self@.scopes.wf(),
                old(self)@.has_slot(h@),
                value@ == old(self)@.slot_of(h@),
                owned@ == name@,
            decreases n - i,
        {
            if self.namespace[i].name == owned {
                proof {
                    assert(self@.namespace[i as int].0 == name@);
                }
                self.namespace[i] = Binding { name: owned, value };
                self.exported = Ghost(self.exported@.push(name@));
                proof {
                    assert(self@.namespace =~= old(self)@.namespace.update(
                        i as int,
                        (name@, old(self)@.slot_of(h@)),
                    ));
                    lemma_ns_set_first_match(
                        old(self)@.namespace,
                        name@,
                        old(self)@.slot_of(h@),
                        i as int,
                    );
                }
                return Ok(());
            }
            i = i + 1;
        }
        self.namespace.push(Binding { name: owned, value });
        self.exported = Ghost(self.exported@.push(name@));
        proof {
            assert(self@.namespace =~= old(self)@.namespace.push(
                (name@, old(self)@.slot_of(h@)),
            ));
            lemma_ns_set_no_match(old(self)@.namespace, name@, old(self)@.slot_of(h@));
        }
        Ok(())
    }

    /// The name bound at a position of the module namespace; bindings keep
    /// the order in which their names were first exported.
    pub fn export_name_at(&self, i: usize) -> (r: &String)
        requires
            i < self@.namespace.len(),
        ensures
            r@ == self@.namespace[i as int].0,
    {
        &self.namespace[i].name
    }

    /// Number of bindings in the module namespace.
    pub fn export_count(&self) -> (n: usize)
        ensures
            n == self@.namespace.len(),
    {
        self.namespace.len()
    }

    /// Looks a name up in the module namespace and returns a copy of the
    /// bound value, or nothing if the name is not bound.
    pub fn get_export(&self, name: &str) -> (r: Option<HostValue>)
        ensures
            match r {
                Some(v) => ns_lookup(self@.namespace, name@) == Some(v@),
                None => ns_lookup(self@.namespace, name@) is None,
            },
    {
        let owned = name.to_owned();
        let n = self.namespace.len();
        proof {
            assert(self@.namespace.skip(0) =~= self@.namespace);
        }
        let mut i: usize = 0;
        while i < n
            invariant
                n == self.namespace@.len(),
                i <= n,
                owned@ == name@,
                ns_lookup(self@.namespace, name@) == ns_lookup(
                    self@.namespace.skip(i as int),
                    name@,
                ),
            decreases n - i,
        {
            let ghost m = self@.namespace;
            if self.namespace[i].name == owned {
                proof {
                    assert(m.skip(i as int)[0] == m[i as int]);
                    assert(m[i as int].0 == name@);
                }
                return Some(dup_value(&self.namespace[i].value));
            }
            proof {
                assert(m.skip(i as int)[0] == m[i as int]);
                assert(m.skip(i as int).drop_first() =~= m.skip(i as int + 1));
            }
            i = i + 1;
        }
        proof {
            assert(self@.namespace.skip(n as int) =~= Seq::<(Seq<char>, Val)>::empty());
        }
        None
    }
}

/// The parts of a context that creating a value leaves untouched.
pub open spec fn same_but_slots(pre: CxModel, post: CxModel) -> bool {
    &&& post.variant == pre.variant
    &&& post.scopes == pre.scopes
    &&& post.namespace == pre.namespace
    &&& post.exported == pre.exported
}

/// Law: escaping preserves the identity of the referenced object exactly.
/// An escaped handle carries the same Local as the handle it was promoted
/// from, so both resolve to the same host value: the round trip through
/// wrap-then-escape refers to the very object the host handed out.
pub proof fn lemma_same_local_same_object(cx: CxModel, h: HandleModel, e: HandleModel)
    requires
        e.local == h.local,
        cx.has_slot(h),
    ensures
        cx.slot_of(e) == cx.slot_of(h),
{
}

/// When a name is absent, binding it appends the new pair at the end.
pub proof fn lemma_ns_set_no_match(m: NsModel, name: Seq<char>, v: Val)
    requires
        forall|k: int| 0 <= k < m.len() ==> m[k].0 != name,
    ensures
        ns_set(m, name, v) == m.push((name, v)),
    decreases m.len(),
{
    if m.len() == 0 {
        assert(ns_set(m, name, v) =~= m.push((name, v)));
    } else {
        assert(m[0].0 != name);
        assert(forall|k: int| 0 <= k < m.drop_first().len() ==> m.drop_first()[k] == m[k + 1]);
        lemma_ns_set_no_match(m.drop_first(), name, v);
        assert(ns_set(m, name, v) =~= m.push((name, v)));
    }
}

/// When a name is present, binding it replaces its first occurrence in
/// place.
pub proof fn lemma_ns_set_first_match(m: NsModel, name: Seq<char>, v: Val, j: int)
    requires
        0 <= j < m.len(),
        m[j].0 == name,
        forall|k: int| 0 <= k < j ==> m[k].0 != name,
    ensures
        ns_set(m, name, v) == m.update(j, (name, v)),
    decreases j,
{
    if j == 0 {
        assert(ns_set(m, name, v) =~= m.update(0, (name, v)));
    } else {
        assert(m[0].0 != name);
        assert(forall|k: int| 0 <= k < m.drop_first().len() ==> m.drop_first()[k] == m[k + 1]);
        lemma_ns_set_first_match(m.drop_first(), name, v, j - 1);
        assert(ns_set(m, name, v) =~= m.update(j, (name, v)));
    }
}

/// Binding a name makes lookup of that name return the new value, and
/// leaves lookup of every other name unchanged.
pub proof fn lemma_ns_set_lookup(m: NsModel, name: Seq<char>, v: Val, other: Seq<char>)
    ensures
        ns_lookup(ns_set(m, name, v), name) == Some(v),
        other != name ==> ns_lookup(ns_set(m, name, v), other) == ns_lookup(m, other),
    decreases m.len(),
{
    if m.len() == 0 {
    } else if m[0].0 == name {
        let s = seq![(name, v)] + m.drop_first();
        assert(ns_set(m, name, v) == s);
        assert(s[0] == (name, v));
        assert(s.drop_first() =~= m.drop_first());
        assert(ns_lookup(s, name) == Some(v));
        if other != name {
            assert(m[0].0 != other);
            assert(ns_lookup(s, other) == ns_lookup(m.drop_first(), other));
            assert(ns_lookup(m, other) == ns_lookup(m.drop_first(), other));
        }
    } else {
        assert((seq![m[0]] + ns_set(m.drop_first(), name, v))[0] == m[0]);
        assert((seq![m[0]] + ns_set(m.drop_first(), name, v)).drop_first() =~= ns_set(
            m.drop_first(),
            name,
            v,
        ));
        lemma_ns_set_lookup(m.drop_first(), name, v, other);
    }
}

/// Binding a name that is already bound leaves the sequence of bound names
/// exactly as it was: no duplicate entry appears.
pub proof fn lemma_ns_set_preserves_names(m: NsModel, name: Seq<char>, v: Val)
    requires
        ns_lookup(m, name) is Some,
    ensures
        ns_names(ns_set(m, name, v)) == ns_names(m),
    decreases m.len(),
{
    if m.len() == 0 {
    } else if m[0].0 == name {
        lemma_ns_set_first_match(m, name, v, 0);
        assert(ns_names(m.update(0, (name, v))) =~= ns_names(m));
    } else {
        assert(m[0].0 != name);
        lemma_ns_set_preserves_names(m.drop_first(), name, v);
        let s = ns_set(m, name, v);
        let t = ns_set(m.drop_first(), name, v);
        assert(ns_names(t).len() == t.len());
        assert(ns_names(m.drop_first()).len() == m.drop_first().len());
        assert(s.len() == m.len());
        assert forall|k: int| 0 <= k < s.len() implies ns_names(s)[k] == ns_names(m)[k] by {
            if k == 0 {
                assert(s[0] == m[0]);
            } else {
                assert(s[k] == t[k - 1]);
                assert(ns_names(t)[k - 1] == t[k - 1].0);
                assert(ns_names(m.drop_first())[k - 1] == m.drop_first()[k - 1].0);
                assert(m.drop_first()[k - 1] == m[k]);
            }
        }
        assert(ns_names(s) =~= ns_names(m));
    }
}

} // verus!
