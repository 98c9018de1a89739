//! A verified password generator. Passwords are drawn from a
//! cryptographically secure entropy source through rejection sampling, which
//! cuts the modulo bias of a non-power-of-two alphabet down to a residual of
//! one accepted 32-bit preimage favouring index 0; minimum counts per
//! character class are injected, the buffer is padded from the union of the
//! enabled alphabets, permuted in place, validated, and every entropy buffer
//! is zeroed before release. The proved contracts pin the returned
//! password's length, its class composition, the alphabet each character
//! comes from, and the exact permutation the shuffle applies to its entropy;
//! the entropy source itself stays behind a narrow trusted boundary.

pub mod alphabet;
pub mod counting;
pub mod entropy;
pub mod generator;
pub mod sampler;
pub mod shuffle;
