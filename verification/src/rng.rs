use vstd::prelude::*;

verus! {

/// Declares rand's thread-local generator handle so that a value of it can
/// be held in a field and passed through verified code.
#[verifier::external_type_specification]
#[verifier::external_body]
pub struct ExThreadRng(rand::rngs::ThreadRng);

/// Source of randomness, handed explicitly to every component that draws
/// from it. Holds rand's thread-local generator.
pub struct Rng {
    inner: rand::rngs::ThreadRng,
}

impl Rng {
    /// Relies on rand::rng: returns a handle to the thread-local generator.
    #[verifier::external_body]
    pub fn new() -> (r: Rng) {
        Rng { inner: rand::rng() }
    }

    /// Relies on rand::Rng::random_range on `lo..hi`: a draw from the
    /// half-open range. It panics only on an empty range, which the
    /// precondition rules out; nothing more than membership is promised
    /// of a random draw.
    #[verifier::external_body]
    pub(crate) fn range_i64(&mut self, lo: i64, hi: i64) -> (r: i64)
        requires
            lo < hi,
        ensures
            lo <= r < hi,
    {
        rand::Rng::random_range(&mut self.inner, lo..hi)
    }

    /// Relies on rand::Rng::random_range on `lo..hi` over usize, as above.
    #[verifier::external_body]
    pub(crate) fn range_usize(&mut self, lo: usize, hi: usize) -> (r: usize)
        requires
            lo < hi,
        ensures
            lo <= r < hi,
    {
        rand::Rng::random_range(&mut self.inner, lo..hi)
    }

    /// Relies on rand::Rng::random_ratio: true with probability
    /// `num / den`. It panics only when `den == 0` or `num > den`, which
    /// the precondition rules out; either outcome is possible, so nothing
    /// is promised of the result.
    #[verifier::external_body]
    pub(crate) fn ratio(&mut self, num: u32, den: u32) -> bool
        requires
            0 < den,
            num <= den,
    {
        rand::Rng::random_ratio(&mut self.inner, num, den)
    }
}

} // verus!
