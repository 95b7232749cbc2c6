//! Fresh randomness from the process generator.
use vstd::prelude::*;

verus! {

/// Relies on rand::random: one bool from the thread-local generator. Nothing is known
/// of its value.
#[verifier::external_body]
fn random_bit() -> bool {
    rand::random::<bool>()
}

/// Relies on rand::random: one byte from the thread-local generator. Nothing is known
/// of its value.
#[verifier::external_body]
fn random_byte() -> u8 {
    rand::random::<u8>()
}

/// `n` fresh random bits.
pub fn random_bits(n: usize) -> (r: Vec<bool>)
    ensures
        r@.len() == n,
{
    let mut r: Vec<bool> = Vec::new();
    let mut i: usize = 0;
    while i < n
        invariant
            0 <= i <= n,
            r@.len() == i,
        decreases n - i,
    {
        r.push(random_bit());
        i += 1;
    }
    r
}

/// 32 fresh random bytes.
pub fn random_bytes32() -> [u8; 32] {
    let mut r = [0u8; 32];
    let mut i: usize = 0;
    while i < 32
        invariant
            0 <= i <= 32,
        decreases 32 - i,
    {
        r[i] = random_byte();
        i += 1;
    }
    r
}

} // verus!
