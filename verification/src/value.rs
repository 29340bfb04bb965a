//! The host values the system models, and their mathematical views.
//!
//! The host runtime owns every value a handle refers to. This module gives
//! those values a concrete shape — the primitive kinds the context can
//! create, plus boxed native data stamped with a type tag — together with the
//! ghost view the contracts speak in.

use vstd::prelude::*;

use crate::tag::TypeTag;

verus! {

/// A host-managed value, as the native layer sees it through its handles.
#[derive(Debug)]
pub enum HostValue {
    /// The global `undefined` value.
    Undefined,
    /// The global `null` value.
    Null,
    /// A boolean value.
    Boolean(bool),
    /// A numeric value.
    Number(i64),
    /// A text value.
    Text(String),
    /// A boxed native value handed to the host, stamped with the type tag of
    /// the addon instance that created it. The payload stands for the boxed
    /// native data.
    Boxed(TypeTag, u64),
}

/// Mathematical view of a host value.
pub enum Val {
    /// The global `undefined` value.
    Undefined,
    /// The global `null` value.
    Null,
    /// A boolean value.
    Boolean(bool),
    /// A numeric value.
    Number(i64),
    /// A text value.
    Text(Seq<char>),
    /// A boxed native value with its stamp and payload.
    Boxed(TypeTag, u64),
}

impl View for HostValue {
    type V = Val;

    open spec fn view(&self) -> Val {
        match self {
            HostValue::Undefined => Val::Undefined,
            HostValue::Null => Val::Null,
            HostValue::Boolean(b) => Val::Boolean(*b),
            HostValue::Number(n) => Val::Number(*n),
            HostValue::Text(s) => Val::Text(s@),
            HostValue::Boxed(t, p) => Val::Boxed(*t, *p),
        }
    }
}

/// The tag the host's check reads off a value: boxed native data yields its
/// stamp, every other value counts as untagged.
pub open spec fn stored_tag(v: Val) -> Option<TypeTag> {
    match v {
        Val::Boxed(t, _) => Some(t),
        _ => None,
    }
}

/// Duplicates a host value; the copy has the same view as the original.
pub fn dup_value(v: &HostValue) -> (r: HostValue)
    ensures
        r@ == v@,
{
    match v {
        HostValue::Undefined => HostValue::Undefined,
        HostValue::Null => HostValue::Null,
        HostValue::Boolean(b) => HostValue::Boolean(*b),
        HostValue::Number(n) => HostValue::Number(*n),
        HostValue::Text(s) => HostValue::Text(s.clone()),
        HostValue::Boxed(t, p) => HostValue::Boxed(*t, *p),
    }
}

} // verus!
