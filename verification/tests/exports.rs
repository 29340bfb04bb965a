use neon_core::context::Context;
use neon_core::export::ValueCtor;
use neon_core::registered;
use neon_core::value::HostValue;

fn sample_registry() -> neon_core::Exports {
    let mut exports = registered();
    exports.register("hello", ValueCtor::Text("hello node".to_string()));
    exports.register("answer", ValueCtor::Number(42));
    exports
}

#[test]
fn export_all_binds_registered_names_with_contents() {
    let exports = sample_registry();
    let mut cx = Context::module_load();
    exports.export(&mut cx).unwrap();
    // Exactly the two registered names, with exactly the registered contents.
    assert_eq!(cx.export_count(), 2);
    match cx.get_export("hello") {
        Some(HostValue::Text(s)) => assert_eq!(s, "hello node"),
        other => panic!("unexpected export: {:?}", other),
    }
    match cx.get_export("answer") {
        Some(HostValue::Number(n)) => assert_eq!(n, 42),
        other => panic!("unexpected export: {:?}", other),
    }
    assert!(cx.get_export("missing").is_none());
}

#[test]
fn export_keeps_registration_order() {
    let mut exports = registered();
    exports.register("first", ValueCtor::Number(1));
    exports.register("second", ValueCtor::Boolean(true));
    exports.register("third", ValueCtor::Null);
    assert_eq!(exports.len(), 3);
    assert_eq!(exports.name_at(0).as_str(), "first");
    let mut cx = Context::module_load();
    exports.export(&mut cx).unwrap();
    assert_eq!(cx.export_count(), 3);
    assert_eq!(cx.export_name_at(0).as_str(), "first");
    assert_eq!(cx.export_name_at(1).as_str(), "second");
    assert_eq!(cx.export_name_at(2).as_str(), "third");
}

#[test]
fn exporting_twice_duplicates_no_names() {
    let mut cx = Context::module_load();
    sample_registry().export(&mut cx).unwrap();
    assert_eq!(cx.export_count(), 2);
    // A second pass over the same entries rebinds the same names in place.
    sample_registry().export(&mut cx).unwrap();
    assert_eq!(cx.export_count(), 2);
    assert_eq!(cx.export_name_at(0).as_str(), "hello");
    assert_eq!(cx.export_name_at(1).as_str(), "answer");
    match cx.get_export("answer") {
        Some(HostValue::Number(n)) => assert_eq!(n, 42),
        other => panic!("unexpected export: {:?}", other),
    }
}

#[test]
fn later_registration_of_same_name_wins() {
    let mut exports = registered();
    exports.register("value", ValueCtor::Number(1));
    exports.register("value", ValueCtor::Number(2));
    let mut cx = Context::module_load();
    exports.export(&mut cx).unwrap();
    assert_eq!(cx.export_count(), 1);
    match cx.get_export("value") {
        Some(HostValue::Number(n)) => assert_eq!(n, 2),
        other => panic!("unexpected export: {:?}", other),
    }
}

#[test]
fn empty_registry_exports_nothing() {
    let exports = registered();
    let mut cx = Context::module_load();
    exports.export(&mut cx).unwrap();
    assert_eq!(cx.export_count(), 0);
}

#[test]
fn exported_values_of_every_kind() {
    let mut exports = registered();
    exports.register("u", ValueCtor::Undefined);
    exports.register("n", ValueCtor::Null);
    exports.register("b", ValueCtor::Boolean(false));
    let mut cx = Context::module_load();
    exports.export(&mut cx).unwrap();
    assert!(matches!(cx.get_export("u"), Some(HostValue::Undefined)));
    assert!(matches!(cx.get_export("n"), Some(HostValue::Null)));
    assert!(matches!(cx.get_export("b"), Some(HostValue::Boolean(false))));
}
