//! Per-process type tags for boxed native data handed to the host.
//!
//! When native code boxes one of its own values and gives ownership to the
//! host, a later downcast must verify that the value came from this process's
//! instance of this addon, not from an independently loaded copy. Each
//! process therefore stamps boxed values with a 128-bit tag: a random lower
//! half drawn once per process, and a fixed non-zero upper half. The upper
//! half must never be zero, because the host's tag check treats an all-zero
//! stored tag as "no tag present" and a zero probe would falsely match such
//! untagged objects.

use vstd::prelude::*;

verus! {

/// The fixed upper half of every tag this library generates. Any non-zero
/// value distinguishes a stamped object from an untagged one; the remaining
/// bits are reserved.
pub const TAG_UPPER: u64 = 1;

/// A 128-bit discriminator stamped onto boxed native values crossing into
/// host-owned containers.
#[derive(Clone, Copy, PartialEq, Eq, Structural, Debug)]
pub struct TypeTag {
    /// Process-lifetime random half, drawn once per process.
    pub lower: u64,
    /// Fixed marker half; non-zero for every tag this library generates.
    pub upper: u64,
}

impl TypeTag {
    /// A tag this library would stamp: its upper half is the fixed non-zero
    /// marker, so it can never match an untagged host object.
    pub open spec fn wf(self) -> bool {
        self.upper == TAG_UPPER
    }
}

/// The tag bits the host's check reads from an object: a stamped object
/// yields its stored tag, an untagged object yields all-zero bits.
pub open spec fn stored_bits(stored: Option<TypeTag>) -> (u64, u64) {
    match stored {
        Some(t) => (t.lower, t.upper),
        None => (0u64, 0u64),
    }
}

/// The host's tag check: bit-for-bit comparison of the probe against the
/// bits stored on the object. This is where an all-zero probe would falsely
/// accept an untagged object.
pub open spec fn tag_bits_match(stored: Option<TypeTag>, probe: TypeTag) -> bool {
    stored_bits(stored) == (probe.lower, probe.upper)
}

/// Relies on getrandom::getrandom: on success the buffer is filled in place
/// with bytes from the system entropy source, so its length is unchanged;
/// nothing is promised about the bytes themselves. On failure the entropy
/// source was unavailable.
#[verifier::external_body]
fn fill_random(buf: &mut Vec<u8>) -> (ok: bool)
    ensures
        final(buf)@.len() == old(buf)@.len(),
{
    getrandom::getrandom(buf.as_mut_slice()).is_ok()
}

/// Builds the process tag from eight freshly drawn bytes: the lower half is
/// the bytes read as a little-endian integer, the upper half is the fixed
/// non-zero marker.
pub fn tag_from_bytes(bytes: &Vec<u8>) -> (t: TypeTag)
    requires
        bytes@.len() == 8,
    ensures
        t.lower == vstd::bytes::spec_u64_from_le_bytes(bytes@),
        t.upper == TAG_UPPER,
        t.wf(),
{
    let lower = vstd::bytes::u64_from_le_bytes(bytes.as_slice());
    TypeTag { lower, upper: TAG_UPPER }
}

/// Draws the process's type tag: a random lower half and the fixed non-zero
/// upper half. Returns `None` exactly when the entropy source fails, in
/// which case no tag exists and boxed values must not be created. The caller
/// that installs the process-wide tag treats that as fatal.
pub fn generate_type_tag() -> (r: Option<TypeTag>)
    ensures
        r matches Some(t) ==> t.upper == TAG_UPPER && t.wf(),
{
    let mut buf: Vec<u8> = Vec::new();
    let mut i: usize = 0;
    while i < 8
        invariant
            buf@.len() == i,
            i <= 8,
        decreases 8 - i,
    {
        buf.push(0u8);
        i = i + 1;
    }
    if fill_random(&mut buf) {
        Some(tag_from_bytes(&buf))
    } else {
        None
    }
}

/// Law: probing a value stamped with one tag using any other tag reports a
/// mismatch; a downcast across distinct tags can never hand the value out.
pub proof fn lemma_distinct_tags_mismatch(stamped: TypeTag, probe: TypeTag)
    requires
        stamped != probe,
    ensures
        !tag_bits_match(Some(stamped), probe),
{
}

/// Law: a probe with a non-zero upper half never matches an untagged object.
/// This is why the generated tag's upper half must not be zero: an all-zero
/// probe would match the all-zero bits the host stores on untagged objects.
pub proof fn lemma_nonzero_upper_rejects_untagged(probe: TypeTag)
    requires
        probe.upper != 0,
    ensures
        !tag_bits_match(None, probe),
{
}

/// Law: every tag this library generates rejects untagged objects, because
/// its upper half is the fixed non-zero marker.
pub proof fn lemma_generated_tag_rejects_untagged(probe: TypeTag)
    requires
        probe.wf(),
    ensures
        !tag_bits_match(None, probe),
{
}

} // verus!
