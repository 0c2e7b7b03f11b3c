//! The integer side of the cloud noise: the hash that gives every lattice
//! point its pseudo-random value, and the schedule of octaves.

use vstd::arithmetic::mul::{lemma_mul_inequality, lemma_mul_nonnegative};
use vstd::arithmetic::power2::{lemma2_to64, lemma_pow2_pos, lemma_pow2_strictly_increases, lemma_pow2_unfold, pow2};
use vstd::prelude::*;
use vstd::wrapping::i32_specs;

verus! {

/// The odd factor of the mixing function.
pub const MIX_FACTOR: i32 = 0x45d9f3b;

/// The denominator over which a lattice value is read as a fraction of one.
pub const UNIT_DENOMINATOR: u32 = 4294967295;

/// The mixing function: fold the high half onto the low half, then multiply
/// by `MIX_FACTOR`, wrapping at 32 bits.
#[verifier::opaque]
pub open spec fn mix(v: i32) -> i32 {
    i32_specs::wrapping_mul((v >> 16) ^ v, MIX_FACTOR)
}

/// Mixes one more coordinate into a running hash.
pub open spec fn absorb(h: i32, v: i32) -> i32 {
    mix(i32_specs::wrapping_add(h, v))
}

/// The hash of a lattice point: the seed is mixed first, then `x`, `y`, `z`
/// and the octave scale are absorbed, in that order.
pub open spec fn lattice_hash(seed: i32, scale: i32, x: i32, y: i32, z: i32) -> i32 {
    absorb(absorb(absorb(absorb(mix(seed), x), y), z), scale)
}

/// A hash moved from the signed 32-bit range onto `0 ..= UNIT_DENOMINATOR`.
pub open spec fn unit_numerator(h: i32) -> u32 {
    (h + 0x8000_0000) as u32
}

/// Corner `i` of the lattice cell at `(x0, y0, z0)`: bit 0 of `i` moves one
/// step along x, bit 1 along y, bit 2 along z.
pub open spec fn corner(i: int, x0: i32, y0: i32, z0: i32) -> (int, int, int) {
    (x0 + i % 2, y0 + (i / 2) % 2, z0 + (i / 4) % 2)
}

/// The scale of octave `k` of `levels`: octaves run from the coarsest, of
/// scale 2^(levels - 1), down to the finest, of scale 1.
pub open spec fn octave_scale(levels: nat, k: nat) -> int {
    pow2((levels - 1 - k) as nat) as int
}

/// The number that every scale is divided by to give the octave's weight:
/// 2^levels - 1.
pub open spec fn weight_total(levels: nat) -> int {
    pow2(levels) - 1
}

/// The sum of the scales of the octaves `from .. levels`.
pub open spec fn scale_sum(levels: nat, from: nat) -> int
    decreases levels - from,
{
    if from >= levels {
        0
    } else {
        octave_scale(levels, from) + scale_sum(levels, from + 1)
    }
}

/// The density that octaves `from .. levels` contribute, times
/// `weight_total`: each octave's value times its scale. A value is a
/// numerator over a common unit.
pub open spec fn weighted_sum(levels: nat, values: Seq<int>, from: nat) -> int
    decreases levels - from,
{
    if from >= levels {
        0
    } else {
        octave_scale(levels, from) * values[from as int] + weighted_sum(levels, values, from + 1)
    }
}

/// The plain test: sum every octave, then compare with the threshold.
pub open spec fn full_test(levels: nat, values: Seq<int>, threshold: int) -> bool {
    weighted_sum(levels, values, 0) >= threshold
}

/// The hierarchical test from octave `k` on, `acc` being the sum so far.
/// After every octave but the last it answers no where even the largest
/// values still to come (`unit` each) cannot lift the sum to the threshold,
/// and yes where the sum has reached it already; the last octave compares once.
pub open spec fn pruned_test(
    levels: nat,
    values: Seq<int>,
    unit: int,
    threshold: int,
    k: nat,
    acc: int,
) -> bool
    decreases levels - k,
{
    let sum = acc + octave_scale(levels, k) * values[k as int];
    if k + 1 >= levels {
        sum >= threshold
    } else if sum < threshold - (octave_scale(levels, k) - 1) * unit {
        false
    } else if sum >= threshold {
        true
    } else {
        pruned_test(levels, values, unit, threshold, k + 1, sum)
    }
}

/// The mixing function on one value.
pub fn hash_i32(x: i32) -> (r: i32)
    ensures
        r == mix(x),
{
    reveal(mix);
    ((x >> 16) ^ x).wrapping_mul(MIX_FACTOR)
}

/// What the noise reads of a cloud field: its seed and its number of octaves.
#[derive(Clone, Copy, Debug)]
pub struct NoiseLattice {
    seed: i32,
    levels: u32,
}

impl NoiseLattice {
    /// The seed that every hash starts from.
    pub closed spec fn spec_seed(&self) -> i32 {
        self.seed
    }

    /// The number of octaves.
    pub closed spec fn spec_levels(&self) -> u32 {
        self.levels
    }

    /// A lattice has at least one octave, and few enough that the sum of its
    /// octave scales fits in an `i32`.
    #[verifier::type_invariant]
    spec fn levels_in_range(&self) -> bool {
        1 <= self.levels <= 30
    }

    /// A lattice of `levels` octaves hashed from `seed`, or `None` where
    /// `levels` is outside `1 ..= 30`.
    pub fn new(levels: u32, seed: i32) -> (r: Option<NoiseLattice>)
        ensures
            r is Some <==> 1 <= levels <= 30,
            r matches Some(lattice) ==> lattice.spec_levels() == levels && lattice.spec_seed()
                == seed,
    {
        if 1 <= levels && levels <= 30 {
            Some(NoiseLattice { seed, levels })
        } else {
            None
        }
    }

    #[verifier::when_used_as_spec(spec_seed)]
    pub fn seed(&self) -> (r: i32)
        ensures
            r == self.spec_seed(),
    {
        self.seed
    }

    #[verifier::when_used_as_spec(spec_levels)]
    pub fn levels(&self) -> (r: u32)
        ensures
            r == self.spec_levels(),
            1 <= r <= 30,
    {
        proof {
            use_type_invariant(self);
        }
        self.levels
    }

    /// The divisor of the octave weights, 2^levels - 1.
    pub fn divisor(&self) -> (r: i32)
        ensures
            r == weight_total(self.levels() as nat),
            r >= 1,
    {
        proof {
            use_type_invariant(self);
            lemma2_to64();
        }
        let mut d: i32 = 1;
        let mut i: u32 = 0;
        while i < self.levels
            invariant
                i <= self.levels <= 30,
                d == pow2(i as nat),
                i >= 1 ==> d >= 2,
            decreases self.levels - i,
        {
            proof {
                lemma_pow2_strictly_increases(i as nat, 30);
                lemma_pow2_unfold((i + 1) as nat);
                lemma2_to64();
            }
            d = d * 2;
            i = i + 1;
        }
        d - 1
    }

    /// The scales of the octaves in the order they are evaluated: from
    /// 2^(levels - 1) halving down to 1.
    pub fn octave_scales(&self) -> (r: Vec<i32>)
        ensures
            r.len() == self.levels(),
            forall|k: int|
                0 <= k < r.len() ==> #[trigger] r[k] == octave_scale(
                    self.levels() as nat,
                    k as nat,
                ),
    {
        proof {
            use_type_invariant(self);
            lemma2_to64();
        }
        let levels: u32 = self.levels;
        let mut top: i32 = 1;
        let mut i: u32 = 1;
        while i < levels
            invariant
                1 <= i <= levels <= 30,
                top == pow2((i - 1) as nat),
            decreases levels - i,
        {
            proof {
                lemma_pow2_strictly_increases((i - 1) as nat, 29);
                lemma_pow2_unfold(i as nat);
                lemma2_to64();
            }
            top = top * 2;
            i = i + 1;
        }
        let mut scales: Vec<i32> = Vec::new();
        let mut dividend: i32 = top;
        let mut k: u32 = 0;
        while k < levels
            invariant
                k <= levels <= 30,
                levels >= 1,
                scales.len() == k,
                k < levels ==> dividend == octave_scale(levels as nat, k as nat),
                forall|j: int|
                    0 <= j < k ==> #[trigger] scales[j] == octave_scale(levels as nat, j as nat),
            decreases levels - k,
        {
            scales.push(dividend);
            proof {
                if k + 1 < levels {
                    lemma_pow2_unfold((levels - 1 - k) as nat);
                }
            }
            dividend = dividend / 2;
            k = k + 1;
        }
        scales
    }

    /// The value of the lattice point `(x, y, z)` in the octave of scale
    /// `scale2`, as a numerator over `UNIT_DENOMINATOR`.
    pub fn hash(&self, scale2: i32, x: i32, y: i32, z: i32) -> (r: u32)
        ensures
            r == unit_numerator(lattice_hash(self.seed(), scale2, x, y, z)),
            r <= UNIT_DENOMINATOR,
    {
        let mut val: i32 = hash_i32(self.seed);
        val = hash_i32(val.wrapping_add(x));
        val = hash_i32(val.wrapping_add(y));
        val = hash_i32(val.wrapping_add(z));
        val = hash_i32(val.wrapping_add(scale2));
        (val as i64 + 0x8000_0000) as u32
    }

    /// The value at corner `i` of the lattice cell whose lowest corner is
    /// `(x0, y0, z0)`.
    pub open spec fn corner_value(&self, scale2: i32, i: int, x0: i32, y0: i32, z0: i32) -> u32 {
        let c = corner(i, x0, y0, z0);
        unit_numerator(lattice_hash(self.seed(), scale2, c.0 as i32, c.1 as i32, c.2 as i32))
    }

    /// The values at the eight corners of the lattice cell whose lowest
    /// corner is `(x0, y0, z0)`, in the order that `corner` gives.
    pub fn corner_hashes(&self, scale2: i32, x0: i32, y0: i32, z0: i32) -> (r: [u32; 8])
        requires
            x0 < i32::MAX,
            y0 < i32::MAX,
            z0 < i32::MAX,
        ensures
            forall|i: int| 0 <= i < 8 ==> r[i] == #[trigger] self.corner_value(scale2, i, x0, y0, z0),
            forall|i: int| 0 <= i < 8 ==> #[trigger] r[i] <= UNIT_DENOMINATOR,
    {
        let x1: i32 = x0 + 1;
        let y1: i32 = y0 + 1;
        let z1: i32 = z0 + 1;
        let v0: u32 = self.hash(scale2, x0, y0, z0);
        let v1: u32 = self.hash(scale2, x1, y0, z0);
        let v2: u32 = self.hash(scale2, x0, y1, z0);
        let v3: u32 = self.hash(scale2, x1, y1, z0);
        let v4: u32 = self.hash(scale2, x0, y0, z1);
        let v5: u32 = self.hash(scale2, x1, y0, z1);
        let v6: u32 = self.hash(scale2, x0, y1, z1);
        let v7: u32 = self.hash(scale2, x1, y1, z1);
        proof {
            assert(v0 == self.corner_value(scale2, 0, x0, y0, z0));
            assert(v1 == self.corner_value(scale2, 1, x0, y0, z0));
            assert(v2 == self.corner_value(scale2, 2, x0, y0, z0));
            assert(v3 == self.corner_value(scale2, 3, x0, y0, z0));
            assert(v4 == self.corner_value(scale2, 4, x0, y0, z0));
            assert(v5 == self.corner_value(scale2, 5, x0, y0, z0));
            assert(v6 == self.corner_value(scale2, 6, x0, y0, z0));
            assert(v7 == self.corner_value(scale2, 7, x0, y0, z0));
        }
        let r: [u32; 8] = [v0, v1, v2, v3, v4, v5, v6, v7];
        assert forall|i: int| 0 <= i < 8 implies r[i] == #[trigger] self.corner_value(
            scale2,
            i,
            x0,
            y0,
            z0,
        ) by {
            if i == 0 {
            } else if i == 1 {
            } else if i == 2 {
            } else if i == 3 {
            } else if i == 4 {
            } else if i == 5 {
            } else if i == 6 {
            } else {
                assert(i == 7);
            }
        }
        r
    }
}

/// The octave weights sum to one: the scales add up to `weight_total`.
pub proof fn lemma_weights_sum_to_one(levels: nat)
    requires
        levels >= 1,
    ensures
        scale_sum(levels, 0) == weight_total(levels),
{
    lemma_remaining_weight(levels, 0);
    lemma_pow2_unfold(levels);
}

/// After octave `k`, the scales still to come add up to one less than the
/// scale of octave `k`.
pub proof fn lemma_remaining_weight(levels: nat, k: nat)
    requires
        k < levels,
    ensures
        scale_sum(levels, k + 1) == octave_scale(levels, k) - 1,
    decreases levels - k,
{
    if k + 1 >= levels {
        lemma2_to64();
    } else {
        lemma_remaining_weight(levels, k + 1);
        lemma_pow2_unfold((levels - 1 - k) as nat);
    }
}

/// What the octaves `from .. levels` contribute lies between nothing and
/// `unit` times the sum of their scales.
pub proof fn lemma_weighted_sum_bounds(levels: nat, values: Seq<int>, unit: int, from: nat)
    requires
        values.len() == levels,
        forall|i: int| 0 <= i < levels ==> 0 <= #[trigger] values[i] <= unit,
    ensures
        0 <= weighted_sum(levels, values, from) <= scale_sum(levels, from) * unit,
    decreases levels - from,
{
    if from < levels {
        lemma_weighted_sum_bounds(levels, values, unit, from + 1);
        let s = octave_scale(levels, from);
        let v = values[from as int];
        let rest = scale_sum(levels, from + 1);
        lemma_pow2_pos((levels - 1 - from) as nat);
        lemma_mul_nonnegative(s, v);
        lemma_mul_inequality(v, unit, s);
        assert((s + rest) * unit == s * unit + rest * unit) by (nonlinear_arith);
        assert(v * s == s * v && unit * s == s * unit) by (nonlinear_arith);
    } else {
        assert(0 * unit == 0);
    }
}

/// Pruning never changes the answer: for octave values between nothing and
/// `unit`, the hierarchical test and the plain test agree on every threshold.
pub proof fn lemma_pruning_is_exact(levels: nat, values: Seq<int>, unit: int, threshold: int)
    requires
        levels >= 1,
        values.len() == levels,
        forall|i: int| 0 <= i < levels ==> 0 <= #[trigger] values[i] <= unit,
    ensures
        pruned_test(levels, values, unit, threshold, 0, 0) == full_test(levels, values, threshold),
{
    lemma_pruned_test_from(levels, values, unit, threshold, 0, 0);
}

/// From any octave on, the hierarchical test answers as the sum of all that
/// is still to come would.
pub proof fn lemma_pruned_test_from(
    levels: nat,
    values: Seq<int>,
    unit: int,
    threshold: int,
    k: nat,
    acc: int,
)
    requires
        k < levels,
        values.len() == levels,
        forall|i: int| 0 <= i < levels ==> 0 <= #[trigger] values[i] <= unit,
    ensures
        pruned_test(levels, values, unit, threshold, k, acc) == (acc + weighted_sum(
            levels,
            values,
            k,
        ) >= threshold),
    decreases levels - k,
{
    let sum = acc + octave_scale(levels, k) * values[k as int];
    lemma_weighted_sum_bounds(levels, values, unit, k + 1);
    lemma_remaining_weight(levels, k);
    if k + 1 < levels {
        lemma_pruned_test_from(levels, values, unit, threshold, k + 1, sum);
    } else {
        assert(weighted_sum(levels, values, k + 1) == 0);
    }
}

} // verus!
