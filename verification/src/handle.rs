//! Typed, copyable wrappers around references into host-managed memory.
//!
//! A [`Handle`] pairs a Local — the host's opaque reference to one of its
//! objects — with the identifier of the rooting scope it was created under
//! and a tag for the kind of host value it refers to. A handle is usable
//! only while its scope is still open; every operation that touches the
//! referenced object demands that, so a handle whose scope has closed is
//! rejected by the verifier rather than dereferenced.

use vstd::prelude::*;

verus! {

/// The host's opaque reference to one of its managed objects: a foreign key
/// into the host's value table, meaningless outside an open scope that
/// roots it.
pub type Local = usize;

/// The kind of host value a handle refers to.
#[derive(Clone, Copy, PartialEq, Eq, Structural, Debug)]
pub enum ValueKind {
    /// Any host value: the erased supertype every handle can widen to.
    Any,
    /// The global `undefined` value.
    Undefined,
    /// The global `null` value.
    Null,
    /// A boolean value.
    Boolean,
    /// A numeric value.
    Number,
    /// A text value.
    Text,
    /// A boxed native value owned by the host, stamped with a type tag.
    Boxed,
}

/// Mathematical model of a handle: which host object it references, which
/// scope roots it, and what kind of value it claims to be.
pub struct HandleModel {
    /// The referenced host object.
    pub local: Local,
    /// Identifier of the scope the handle is bound to.
    pub scope: u64,
    /// Claimed kind of the referenced value.
    pub kind: ValueKind,
}

/// A typed, copyable reference to a host-managed object, bound to the scope
/// it was created under. Handles are only ever constructed by context
/// operations that call into the host, never from a raw Local.
#[derive(Clone, Copy)]
pub struct Handle {
    local: Local,
    scope: u64,
    kind: ValueKind,
}

impl View for Handle {
    type V = HandleModel;

    closed spec fn view(&self) -> HandleModel {
        HandleModel { local: self.local, scope: self.scope, kind: self.kind }
    }
}

impl Handle {
    /// Wraps a Local produced by a host call under the scope that roots it.
    /// Kept inside the crate: contexts are the only place handles come from.
    pub(crate) fn new(local: Local, scope: u64, kind: ValueKind) -> (h: Handle)
        ensures
            h@ == (HandleModel { local, scope, kind }),
    {
        Handle { local, scope, kind }
    }

    /// Widens the handle to the generic "any host value" kind. This is a
    /// free conversion: the referenced object and the rooting scope are
    /// unchanged, and no host call is made.
    pub fn upcast(&self) -> (r: Handle)
        ensures
            r@.local == self@.local,
            r@.scope == self@.scope,
            r@.kind == ValueKind::Any,
    {
        Handle { local: self.local, scope: self.scope, kind: ValueKind::Any }
    }

    /// The referenced host object.
    pub fn local(&self) -> (r: Local)
        ensures
            r == self@.local,
    {
        self.local
    }

    /// Identifier of the scope this handle is bound to.
    pub fn scope_id(&self) -> (r: u64)
        ensures
            r == self@.scope,
    {
        self.scope
    }

    /// Claimed kind of the referenced value.
    pub fn kind(&self) -> (r: ValueKind)
        ensures
            r == self@.kind,
    {
        self.kind
    }
}

} // verus!
