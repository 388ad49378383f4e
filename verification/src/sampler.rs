//! A small deterministic sampler, passed explicitly down the call chain so
//! renders are reproducible from a seed and no hidden shared state exists.

use crate::fixed::{fx_mul, SCALE};
use crate::vectors::Vec3;
use vstd::prelude::*;

verus! {

/// What one shift-register step does to the sampler state.
pub open spec fn spec_next_state(s: u64) -> u64 {
    let a = s ^ (s << 13);
    let b = a ^ (a >> 7);
    b ^ (b << 17)
}

/// The unit draw taken from a state: sixteen of its middle bits, giving a
/// fixed-point value in `[0, 1)`.
pub open spec fn spec_unit_of(s: u64) -> i64 {
    ((s >> 13) & 0xffff) as i64
}

/// One jitter draw: a unit draw recentred around zero and scaled.
pub open spec fn spec_jitter_of(s: u64, blurriness: i64) -> i64 {
    crate::fixed::spec_mul(spec_unit_of(s) - 32768, blurriness as int) as i64
}

/// A deterministic random sampler: a shift-register generator whose whole
/// state is one plain number.
#[derive(Debug, Clone, Copy, PartialEq, Eq, Structural)]
pub struct Sampler {
    pub state: u64,
}

/// The sampler state after drawing one jitter vector.
pub open spec fn spec_state_after_vec(s: u64) -> u64 {
    spec_next_state(spec_next_state(spec_next_state(s)))
}

/// The jitter vector drawn from a state, component by component.
pub open spec fn spec_jitter_vec_of(s: u64, blurriness: i64) -> Vec3 {
    let s1 = spec_next_state(s);
    let s2 = spec_next_state(s1);
    let s3 = spec_next_state(s2);
    Vec3 {
        x: spec_jitter_of(s1, blurriness),
        y: spec_jitter_of(s2, blurriness),
        z: spec_jitter_of(s3, blurriness),
    }
}

impl Sampler {
    /// A sampler starting from the given seed.
    pub fn new(seed: u64) -> (r: Sampler)
        ensures
            r.state == seed,
    {
        Sampler { state: seed }
    }

    /// Advance the state once and return it.
    pub fn next_raw(&mut self) -> (r: u64)
        ensures
            final(self).state == spec_next_state(old(self).state),
            r == final(self).state,
    {
        let s = self.state;
        let a = s ^ (s << 13u64);
        let b = a ^ (a >> 7u64);
        let c = b ^ (b << 17u64);
        self.state = c;
        c
    }

    /// Draw a fixed-point value in `[0, 1)`.
    pub fn next_unit(&mut self) -> (r: i64)
        ensures
            final(self).state == spec_next_state(old(self).state),
            r == spec_unit_of(final(self).state),
            0 <= r < SCALE,
    {
        let s = self.next_raw();
        let bits = (s >> 13u64) & 0xffffu64;
        proof {
            assert((s >> 13u64) & 0xffffu64 < 0x10000u64) by (bit_vector);
        }
        bits as i64
    }

    /// Draw one jitter component, centred on zero and scaled by the
    /// blurriness.
    pub fn jitter(&mut self, blurriness: i64) -> (r: i64)
        ensures
            final(self).state == spec_next_state(old(self).state),
            r == spec_jitter_of(final(self).state, blurriness),
    {
        let u = self.next_unit();
        fx_mul(u - 32768, blurriness)
    }

    /// Draw a jitter vector for perturbing a direction.
    pub fn jitter_vec(&mut self, blurriness: i64) -> (r: Vec3)
        ensures
            final(self).state == spec_state_after_vec(old(self).state),
            r == spec_jitter_vec_of(old(self).state, blurriness),
    {
        let x = self.jitter(blurriness);
        let y = self.jitter(blurriness);
        let z = self.jitter(blurriness);
        Vec3 { x, y, z }
    }
}

} // verus!
