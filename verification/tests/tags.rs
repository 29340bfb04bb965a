use neon_core::context::{Context, DowncastError};
use neon_core::tag::{generate_type_tag, tag_from_bytes, TypeTag, TAG_UPPER};

#[test]
fn generated_tag_has_nonzero_upper() {
    let tag = generate_type_tag().expect("entropy source unavailable");
    assert_eq!(tag.upper, TAG_UPPER);
    assert_ne!(tag.upper, 0);
}

#[test]
fn tag_from_bytes_reads_little_endian() {
    let bytes: Vec<u8> = vec![0x01, 0x02, 0x03, 0x04, 0x05, 0x06, 0x07, 0x08];
    let tag = tag_from_bytes(&bytes);
    assert_eq!(tag.lower, 0x0807060504030201);
    assert_eq!(tag.upper, TAG_UPPER);
}

#[test]
fn downcast_with_same_tag_returns_payload() {
    let mut cx = Context::function_call();
    let _t = cx.open_scope();
    let tag = TypeTag { lower: 0x1234, upper: TAG_UPPER };
    let h = cx.boxed(tag, 99);
    assert_eq!(cx.downcast_boxed(h, tag), Ok(99));
    assert!(cx.check_type_tag(h, tag));
}

#[test]
fn downcast_with_different_tag_reports_mismatch() {
    // A value boxed under one instance's tag, probed with another instance's
    // tag, always reports type confusion and never hands the payload out.
    let mut cx = Context::function_call();
    let _t = cx.open_scope();
    let tag_a = TypeTag { lower: 7, upper: TAG_UPPER };
    let tag_b = TypeTag { lower: 8, upper: TAG_UPPER };
    let h = cx.boxed(tag_a, 1);
    assert_eq!(cx.downcast_boxed(h, tag_b), Err(DowncastError::TagMismatch));
    assert!(!cx.check_type_tag(h, tag_b));
}

#[test]
fn downcast_of_plain_value_reports_not_boxed() {
    let mut cx = Context::function_call();
    let _t = cx.open_scope();
    let tag = TypeTag { lower: 7, upper: TAG_UPPER };
    let h = cx.boolean(true);
    assert_eq!(cx.downcast_boxed(h, tag), Err(DowncastError::NotBoxed));
}

#[test]
fn nonzero_upper_never_matches_untagged() {
    let mut cx = Context::function_call();
    let _t = cx.open_scope();
    let h = cx.undefined();
    // A generated tag has a non-zero upper half, so it rejects untagged
    // values; an all-zero probe would falsely match them.
    let tag = generate_type_tag().expect("entropy source unavailable");
    assert!(!cx.check_type_tag(h, tag));
    let zero = TypeTag { lower: 0, upper: 0 };
    assert!(cx.check_type_tag(h, zero));
}
