//! A small seedable xorshift generator, so that "random" stroke colours are
//! the same on every run.
use vstd::prelude::*;

verus! {

/// The seed used in place of 0, on which xorshift would stay at 0.
pub const FALLBACK_SEED: u64 = 0xDEAD_BEEF_C0DE_BABEu64;

/// One xorshift64 step (shifts 13, 7, 17).
pub open spec fn xorshift_step(x: u64) -> u64 {
    let a = x ^ (x << 13u64);
    let b = a ^ (a >> 7u64);
    b ^ (b << 17u64)
}

/// Marsaglia's xorshift64 generator.
pub struct XorShift64 {
    state: u64,
}

impl View for XorShift64 {
    type V = u64;

    /// The generator's state, which is also the last value it gave.
    closed spec fn view(&self) -> u64 {
        self.state
    }
}

/// A step never takes a nonzero state to zero.
pub proof fn law_step_keeps_nonzero(x: u64)
    requires
        x != 0,
    ensures
        xorshift_step(x) != 0,
{
    assert(x != 0 ==> xorshift_step(x) != 0) by (bit_vector);
}

impl XorShift64 {
    #[verifier::type_invariant]
    spec fn state_nonzero(self) -> bool {
        self.state != 0
    }

    /// A generator started at `seed`, or at [`FALLBACK_SEED`] when `seed` is 0.
    pub fn new(seed: u64) -> (r: Self)
        ensures
            r@ == (if seed == 0 {
                FALLBACK_SEED
            } else {
                seed
            }),
            r@ != 0,
    {
        XorShift64 {
            state: if seed == 0 {
                FALLBACK_SEED
            } else {
                seed
            },
        }
    }

    /// The next value: one step from the current state, which becomes the
    /// new state. It is never 0.
    pub fn next_u64(&mut self) -> (r: u64)
        ensures
            r == xorshift_step(old(self)@),
            final(self)@ == r,
            r != 0,
    {
        proof {
            use_type_invariant(&*self);
            law_step_keeps_nonzero(self.state);
        }
        let mut x = self.state;
        x = x ^ (x << 13u64);
        x = x ^ (x >> 7u64);
        x = x ^ (x << 17u64);
        self.state = x;
        x
    }

    /// The top 24 bits of the next value: the mantissa of a colour component
    /// in `[0, 1)`, which the caller divides by 2^24.
    pub fn next_u24(&mut self) -> (r: u32)
        ensures
            r == xorshift_step(old(self)@) >> 40u64,
            r < 0x100_0000,
            final(self)@ == xorshift_step(old(self)@),
    {
        let x = self.next_u64();
        assert(x >> 40u64 < 0x100_0000) by (bit_vector);
        (x >> 40u64) as u32
    }
}

} // verus!
