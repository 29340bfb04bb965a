//! A scope-bound handle and rooting system for native bindings to a
//! garbage-collected host runtime.
//!
//! Native code holds references into host-managed memory only as [`handle::Handle`]
//! values, whose validity is tied to a stack of rooting scopes. A scope bounds
//! the validity window of every reference created while it is the innermost
//! open scope; closing a scope invalidates them, except for values explicitly
//! promoted ("escaped") from an escapable scope into its parent.

pub mod context;
pub mod export;
pub mod handle;
pub mod scope;
pub mod tag;
pub mod value;

pub use export::{registered, Exports};
