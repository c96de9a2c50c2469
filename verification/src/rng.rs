use vstd::prelude::*;

verus! {

/// Relies on rand::Rng::gen_range over the half-open range `lo..hi`, drawn
/// from rand::thread_rng: the crate samples the range uniformly and the
/// result always lies inside it. Nothing more is promised of a random draw.
#[verifier::external_body]
pub fn rand_i64_range(lo: i64, hi: i64) -> (r: i64)
    requires
        lo < hi,
    ensures
        lo <= r < hi,
{
    rand::Rng::gen_range(&mut rand::thread_rng(), lo..hi)
}

/// Relies on rand::Rng::gen_range over the half-open range `0..n`, drawn
/// from rand::thread_rng, at the index type: the sample lies below `n`.
/// Nothing more is promised of a random draw.
#[verifier::external_body]
pub fn rand_usize_below(n: usize) -> (r: usize)
    requires
        n >= 1,
    ensures
        r < n,
{
    rand::Rng::gen_range(&mut rand::thread_rng(), 0..n)
}

/// Relies on uuid::Uuid::new_v4: a freshly drawn random identifier, folded
/// down to its low 64 bits. Nothing is promised of the value; in particular
/// two draws may collide, as two random identifiers may.
#[verifier::external_body]
pub fn fresh_id() -> (id: u64) {
    uuid::Uuid::new_v4().as_u128() as u64
}

} // verus!
