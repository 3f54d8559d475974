//! The machine's source of random bytes, drawn from this thread's generator.
use rand::Rng;
use vstd::prelude::*;

verus! {

#[verifier::external_type_specification]
#[verifier::external_body]
pub struct ExThreadRng(rand::rngs::ThreadRng);

/// Relies on rand::thread_rng: a handle to the calling thread's generator.
#[verifier::external_body]
pub(crate) fn thread_rng() -> rand::rngs::ThreadRng {
    rand::thread_rng()
}

/// Relies on rand::Rng::gen_range over the non-empty range `0..0xFF`: it
/// returns a value of that range and does not panic.
#[verifier::external_body]
pub(crate) fn gen_byte(rng: &mut rand::rngs::ThreadRng) -> (r: u8)
    ensures
        r < 0xFF,
{
    rng.gen_range(0..0xFF)
}

} // verus!
