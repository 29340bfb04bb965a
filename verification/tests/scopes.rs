use neon_core::context::Context;
use neon_core::handle::ValueKind;

#[test]
fn handle_valid_while_scope_open() {
    let mut cx = Context::function_call();
    let t1 = cx.open_scope();
    let h = cx.boolean(true);
    assert!(cx.is_valid(h));
    // Opening and closing a deeper scope leaves the handle valid.
    let t2 = cx.open_scope();
    assert!(cx.is_valid(h));
    cx.close_scope(t2);
    assert!(cx.is_valid(h));
    assert!(cx.boolean_value(h));
    // Closing the handle's own scope invalidates it.
    cx.close_scope(t1);
    assert!(!cx.is_valid(h));
}

#[test]
fn lifo_scopes_keep_ancestors_valid() {
    let mut cx = Context::function_call();
    let ta = cx.open_scope();
    let ha = cx.boolean(false);
    let tb = cx.open_scope();
    let hb = cx.boolean(true);
    let tc = cx.open_scope();
    let hc = cx.boolean(true);
    assert!(cx.is_valid(ha) && cx.is_valid(hb) && cx.is_valid(hc));
    cx.close_scope(tc);
    assert!(cx.is_valid(ha) && cx.is_valid(hb) && !cx.is_valid(hc));
    cx.close_scope(tb);
    assert!(cx.is_valid(ha) && !cx.is_valid(hb) && !cx.is_valid(hc));
    cx.close_scope(ta);
    assert!(!cx.is_valid(ha) && !cx.is_valid(hb) && !cx.is_valid(hc));
}

#[test]
fn escape_scenario() {
    // Open scope A, open escapable scope B inside it, create a handle in B,
    // escape it to A, close B, close A: the escaped handle stays valid until
    // A closes and is unusable after.
    let mut cx = Context::function_call();
    let ta = cx.open_scope();
    let tb = cx.open_escapable_scope();
    let h = cx.boolean(true);
    let e = cx.escape(h);
    cx.close_scope(tb);
    assert!(!cx.is_valid(h));
    assert!(cx.is_valid(e));
    assert!(cx.boolean_value(e));
    cx.close_scope(ta);
    assert!(!cx.is_valid(e));
}

#[test]
fn escape_preserves_identity() {
    let mut cx = Context::function_call();
    let _ta = cx.open_scope();
    let tb = cx.open_escapable_scope();
    let h = cx.boolean(true);
    let e = cx.escape(h);
    // The escaped handle refers to exactly the same host object.
    assert_eq!(e.local(), h.local());
    assert_eq!(e.kind(), h.kind());
    cx.close_scope(tb);
    assert!(cx.boolean_value(e));
}

#[test]
fn try_escape_rejects_non_escapable_scope() {
    let mut cx = Context::function_call();
    let _t = cx.open_scope();
    let h = cx.boolean(true);
    assert!(cx.try_escape(h).is_none());
}

#[test]
fn try_escape_rejects_foreign_handle() {
    let mut cx = Context::function_call();
    let _ta = cx.open_scope();
    let outer = cx.boolean(true);
    let _tb = cx.open_escapable_scope();
    // The handle belongs to the enclosing scope, not the escapable one.
    assert!(cx.try_escape(outer).is_none());
}

#[test]
fn try_escape_allows_only_one_promotion() {
    let mut cx = Context::function_call();
    let _ta = cx.open_scope();
    let _tb = cx.open_escapable_scope();
    let h1 = cx.boolean(true);
    let h2 = cx.boolean(false);
    let first = cx.try_escape(h1);
    assert!(first.is_some());
    assert!(cx.boolean_value(first.unwrap()));
    // The single promotion of the escapable scope is already used.
    assert!(cx.try_escape(h2).is_none());
}

#[test]
fn upcast_erases_kind_only() {
    let mut cx = Context::function_call();
    let _t = cx.open_scope();
    let h = cx.number(7);
    let any = h.upcast();
    assert_eq!(any.kind(), ValueKind::Any);
    assert_eq!(any.local(), h.local());
    assert_eq!(any.scope_id(), h.scope_id());
    assert!(cx.is_valid(any));
}
