use vstd::prelude::*;

verus! {

/// A two-dimensional resource metric: computation time and proof size.
///
/// Comparisons are made component-wise; arithmetic saturates at the bounds
/// of `u64`.
#[derive(Clone, Copy, Debug, PartialEq, Eq, Structural)]
pub struct Weight {
    pub ref_time: u64,
    pub proof_size: u64,
}

/// `a - b` clamped at zero.
pub open spec fn sat_sub(a: u64, b: u64) -> u64 {
    if a >= b { (a - b) as u64 } else { 0 }
}

/// `a + b` clamped at `u64::MAX`.
pub open spec fn sat_add(a: u64, b: u64) -> u64 {
    if a + b <= u64::MAX { (a + b) as u64 } else { u64::MAX }
}

/// `a * b` clamped at `u64::MAX`.
pub open spec fn sat_mul(a: u64, b: u64) -> u64 {
    if a * b <= u64::MAX { (a * b) as u64 } else { u64::MAX }
}

/// `a * b` clamped at `u64::MAX`.
pub fn mul_saturating(a: u64, b: u64) -> (r: u64)
    ensures
        r == sat_mul(a, b),
{
    proof {
        assert((a as int) * (b as int) <= (u64::MAX as int) * (u64::MAX as int)) by (nonlinear_arith);
    }
    let p: u128 = (a as u128) * (b as u128);
    if p <= u64::MAX as u128 {
        p as u64
    } else {
        u64::MAX
    }
}

impl Weight {
    pub open spec fn spec_all_gte(self, o: Weight) -> bool {
        self.ref_time >= o.ref_time && self.proof_size >= o.proof_size
    }

    pub open spec fn spec_any_gt(self, o: Weight) -> bool {
        self.ref_time > o.ref_time || self.proof_size > o.proof_size
    }

    pub open spec fn spec_saturating_sub(self, o: Weight) -> Weight {
        Weight {
            ref_time: sat_sub(self.ref_time, o.ref_time),
            proof_size: sat_sub(self.proof_size, o.proof_size),
        }
    }

    pub open spec fn spec_saturating_add(self, o: Weight) -> Weight {
        Weight {
            ref_time: sat_add(self.ref_time, o.ref_time),
            proof_size: sat_add(self.proof_size, o.proof_size),
        }
    }

    pub open spec fn spec_zero() -> Weight {
        Weight { ref_time: 0, proof_size: 0 }
    }

    pub open spec fn spec_max() -> Weight {
        Weight { ref_time: u64::MAX, proof_size: u64::MAX }
    }

    pub fn zero() -> (r: Weight)
        ensures
            r == Weight::spec_zero(),
    {
        Weight { ref_time: 0, proof_size: 0 }
    }

    pub fn max_value() -> (r: Weight)
        ensures
            r == Weight::spec_max(),
    {
        Weight { ref_time: u64::MAX, proof_size: u64::MAX }
    }

    pub fn from_parts(ref_time: u64, proof_size: u64) -> (r: Weight)
        ensures
            r.ref_time == ref_time,
            r.proof_size == proof_size,
    {
        Weight { ref_time, proof_size }
    }

    /// Whether every component of `self` is at least that of `o`.
    pub fn all_gte(&self, o: &Weight) -> (r: bool)
        ensures
            r == self.spec_all_gte(*o),
    {
        self.ref_time >= o.ref_time && self.proof_size >= o.proof_size
    }

    /// Whether some component of `self` exceeds that of `o`.
    pub fn any_gt(&self, o: &Weight) -> (r: bool)
        ensures
            r == self.spec_any_gt(*o),
    {
        self.ref_time > o.ref_time || self.proof_size > o.proof_size
    }

    pub fn saturating_sub(&self, o: &Weight) -> (r: Weight)
        ensures
            r == self.spec_saturating_sub(*o),
    {
        let ref_time: u64 = if self.ref_time >= o.ref_time { self.ref_time - o.ref_time } else { 0 };
        let proof_size: u64 = if self.proof_size >= o.proof_size {
            self.proof_size - o.proof_size
        } else {
            0
        };
        Weight { ref_time, proof_size }
    }

    pub fn saturating_add(&self, o: &Weight) -> (r: Weight)
        ensures
            r == self.spec_saturating_add(*o),
    {
        let ref_time: u64 = if self.ref_time <= u64::MAX - o.ref_time {
            self.ref_time + o.ref_time
        } else {
            u64::MAX
        };
        let proof_size: u64 = if self.proof_size <= u64::MAX - o.proof_size {
            self.proof_size + o.proof_size
        } else {
            u64::MAX
        };
        Weight { ref_time, proof_size }
    }

    /// Subtracts `o` in place, clamping each component at zero.
    pub fn saturating_reduce(&mut self, o: &Weight)
        ensures
            *final(self) == old(self).spec_saturating_sub(*o),
    {
        *self = self.saturating_sub(o);
    }

    /// `self - o` when no component would go below zero.
    pub fn checked_sub(&self, o: &Weight) -> (r: Option<Weight>)
        ensures
            r == (if self.spec_all_gte(*o) {
                Some(self.spec_saturating_sub(*o))
            } else {
                None::<Weight>
            }),
    {
        if self.all_gte(o) {
            Some(self.saturating_sub(o))
        } else {
            None
        }
    }

    /// Subtracts `o` in place when it fits; otherwise leaves `self` unchanged
    /// and returns `false`.
    pub fn checked_reduce(&mut self, o: &Weight) -> (r: bool)
        ensures
            r == old(self).spec_all_gte(*o),
            *final(self) == (if r { old(self).spec_saturating_sub(*o) } else { *old(self) }),
    {
        match self.checked_sub(o) {
            Some(w) => {
                *self = w;
                true
            },
            None => false,
        }
    }
}

/// The weight of one database read and of one database write.
#[derive(Clone, Copy, Debug, PartialEq, Eq, Structural)]
pub struct RuntimeDbWeight {
    pub read: u64,
    pub write: u64,
}

impl RuntimeDbWeight {
    pub open spec fn spec_reads(self, n: u64) -> Weight {
        Weight { ref_time: sat_mul(self.read, n), proof_size: 0 }
    }

    pub open spec fn spec_writes(self, n: u64) -> Weight {
        Weight { ref_time: sat_mul(self.write, n), proof_size: 0 }
    }

    /// The weight of `n` reads.
    pub fn reads(&self, n: u64) -> (r: Weight)
        ensures
            r == self.spec_reads(n),
    {
        Weight { ref_time: mul_saturating(self.read, n), proof_size: 0 }
    }

    /// The weight of `n` writes.
    pub fn writes(&self, n: u64) -> (r: Weight)
        ensures
            r == self.spec_writes(n),
    {
        Weight { ref_time: mul_saturating(self.write, n), proof_size: 0 }
    }
}

} // verus!
