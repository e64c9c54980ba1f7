use vstd::prelude::*;

verus! {

/// A byte from `rand::random_range(0..=255)`, drawn from the thread-local
/// generator. The range covers every `u8`, so it is never empty; the call
/// panics only if that generator cannot be seeded from the operating system's
/// entropy source on first use. Nothing is claimed of which byte comes back,
/// and two calls may return different bytes.
#[verifier::external_body]
pub(crate) fn random_byte() -> u8 {
    rand::random_range(0..=255u8)
}

} // verus!
