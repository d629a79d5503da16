//! Per-task randomness, passed explicitly so that a render is reproducible
//! when it matters and entropy-driven when it does not.
//!
//! A `RandomSource` is either seeded — a self-contained xorshift generator
//! whose whole behaviour is verified — or entropy-backed, in which case each
//! draw comes from the `rand` crate through one trusted wrapper. Every draw
//! is only ever promised to lie in its range, so everything downstream is
//! verified for every possible outcome.

use vstd::prelude::*;
use crate::fixed::{fmul};

verus! {

/// Relies on rand's `RngExt::random_range` over `rand::rng()`: a draw from the
/// half-open integer range handed to it, here `0..65536`.
#[verifier::external_body]
fn entropy_unit() -> (r: i64)
    ensures
        0 <= r < 65536,
{
    rand::RngExt::random_range(&mut rand::rng(), 0u32..65536) as i64
}

/// One step of the xorshift state transition the seeded source takes.
pub open spec fn xorshift_step(s: u64) -> u64 {
    let a = s ^ (s >> 12);
    let b = a ^ (a << 25);
    b ^ (b >> 27)
}

/// The draw the seeded source emits from a state: the top sixteen bits of
/// the state times the xorshift-star multiplier, wrapping.
pub open spec fn xorshift_draw(s: u64) -> int {
    (vstd::wrapping::u64_specs::wrapping_mul(s, 0x2545F4914F6CDD1D) >> 48) as int
}

/// A stream of uniform fixed-point draws in `[0, 1)`.
pub struct RandomSource {
    /// When false, draws come from the verified seeded generator below.
    pub use_entropy: bool,
    /// State of the xorshift generator (ignored for entropy draws).
    pub state: u64,
}

impl RandomSource {
    /// A deterministic source: the same seed always yields the same stream.
    pub fn new_seeded(seed: u64) -> (r: Self)
        ensures
            !r.use_entropy,
            r.state == seed,
    {
        RandomSource { use_entropy: false, state: seed }
    }

    /// A source backed by the thread's entropy generator.
    pub fn new_entropy() -> (r: Self)
        ensures
            r.use_entropy,
    {
        RandomSource { use_entropy: true, state: 0 }
    }

    /// One raw draw in `[0, SCALE)`, that is a value in `[0, 1)`. A seeded
    /// source is deterministic: its state steps by `xorshift_step` and the
    /// draw is `xorshift_draw` of the new state, so equal seeds always give
    /// equal streams.
    pub fn next_unit(&mut self) -> (r: i64)
        ensures
            0 <= r < 65536,
            final(self).use_entropy == old(self).use_entropy,
            !old(self).use_entropy ==> {
                &&& final(self).state == xorshift_step(old(self).state)
                &&& r == xorshift_draw(final(self).state)
            },
    {
        if self.use_entropy {
            entropy_unit()
        } else {
            let mut s: u64 = self.state;
            s = s ^ (s >> 12);
            s = s ^ (s << 25);
            s = s ^ (s >> 27);
            self.state = s;
            let m: u64 = s.wrapping_mul(0x2545F4914F6CDD1D);
            let top: u64 = m >> 48;
            proof {
                assert((m >> 48) < 65536) by (bit_vector);
            }
            top as i64
        }
    }

    /// A draw in `[low, high)`, uniform over the raw grid.
    pub fn next_range(&mut self, low: i64, high: i64) -> (r: i64)
        requires
            -0x10000000000 <= low < high <= 0x10000000000,
        ensures
            low <= r < high,
            final(self).use_entropy == old(self).use_entropy,
            !old(self).use_entropy ==> {
                &&& final(self).state == xorshift_step(old(self).state)
                &&& r == low + fmul(xorshift_draw(final(self).state), high - low)
            },
    {
        let u = self.next_unit();
        let span = high - low;
        proof {
            let n = u as int * span as int;
            assert(0 <= u as int * span as int <= 65535 * (span as int)) by (nonlinear_arith)
                requires 0 <= u <= 65535 && span > 0;
            if n / 65536 >= span as int {
                vstd::arithmetic::div_mod::lemma_fundamental_div_mod(n, 65536);
                vstd::arithmetic::div_mod::lemma_mod_bound(n, 65536);
            }
            assert(fmul(u as int, span as int) == n / 65536);
        }
        let step = crate::fixed::fx_mul(u, span);
        low + step
    }
}

} // verus!
