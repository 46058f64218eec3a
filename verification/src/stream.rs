//! The random byte stream that overwrites a target.

use vstd::prelude::*;
use rand::RngCore;
use rand::SeedableRng;
use rand_chacha::ChaCha12Rng;

verus! {

/// The ChaCha generator with twelve rounds, of `rand_chacha`. What it holds is
/// opaque here: it is only carried from its seeding to the calls that draw on it.
#[verifier::external_type_specification]
#[verifier::external_body]
pub struct ExChaCha12Rng(ChaCha12Rng);

/// Calls `ChaCha12Rng::try_from_os_rng`, which seeds a new generator from the
/// operating system's entropy source. Where the source refuses, the error comes
/// back as the text it prints. Nothing is claimed of either: no two generators are
/// alike, and the system decides whether there is entropy.
#[verifier::external_body]
fn seed_from_os() -> (seeded: Result<ChaCha12Rng, String>) {
    match ChaCha12Rng::try_from_os_rng() {
        Ok(rng) => Ok(rng),
        Err(err) => Err(err.to_string()),
    }
}

/// Calls `RngCore::fill_bytes` of the ChaCha generator, which overwrites every byte
/// of `bytes` with the stream's next output. Only the length is claimed: it stays.
#[verifier::external_body]
fn fill_bytes(rng: &mut ChaCha12Rng, bytes: &mut [u8])
    ensures
        final(bytes)@.len() == old(bytes)@.len(),
{
    rng.fill_bytes(bytes)
}

/// An unbounded stream of cryptographically strong bytes. Each stream has its own
/// seed and shares no state with any other.
pub struct RandomStream {
    rng: ChaCha12Rng,
}

impl RandomStream {
    /// Opens a stream seeded by the operating system. Where the system gives no
    /// entropy, its reason comes back instead.
    pub fn from_os() -> (stream: Result<RandomStream, String>) {
        match seed_from_os() {
            Ok(rng) => Ok(RandomStream { rng }),
            Err(reason) => Err(reason),
        }
    }

    /// Overwrites all of `bytes` with the next bytes of the stream.
    pub fn fill(&mut self, bytes: &mut [u8])
        ensures
            final(bytes)@.len() == old(bytes)@.len(),
    {
        fill_bytes(&mut self.rng, bytes)
    }
}

} // verus!
