//! A small multiplicative congruential generator, one instance per image slice.

use vstd::arithmetic::div_mod::{lemma_mul_mod_noop_left, lemma_mul_mod_noop_right, lemma_small_mod};
use vstd::arithmetic::power::pow;
use vstd::prelude::*;

verus! {

/// The odd constant every state is multiplied by, modulo 2^64.
pub const MULTIPLIER: u64 = 44485709377909;

/// One transition of the generator.
pub open spec fn step(state: u64) -> u64 {
    ((state as nat * MULTIPLIER as nat) % 0x1_0000_0000_0000_0000) as u64
}

/// The state reached from `state` after `n` transitions.
pub open spec fn steps(state: u64, n: nat) -> u64
    decreases n,
{
    if n == 0 {
        state
    } else {
        step(steps(state, (n - 1) as nat))
    }
}

/// The 16-bit sample that a state yields: its sixteen highest bits.
pub open spec fn sample_of(state: u64) -> u16 {
    (state / 0x1_0000_0000_0000) as u16
}

pub struct Frng {
    state: u64,
}

impl View for Frng {
    type V = u64;

    closed spec fn view(&self) -> u64 {
        self.state
    }
}

impl Frng {
    /// Starts a generator from `seed`; the first three transitions are
    /// discarded before any sample is handed out.
    pub fn new(seed: u64) -> (result: Frng)
        ensures
            result@ == steps(seed, 3),
    {
        let mut result = Frng { state: seed };
        result.next();
        result.next();
        result.next();
        proof {
            reveal_with_fuel(steps, 4);
        }
        result
    }

    /// Advances the state by one transition.
    pub fn next(&mut self)
        ensures
            final(self)@ == step(old(self)@),
    {
        self.state = self.state.wrapping_mul(MULTIPLIER);
    }

    /// Advances the state and returns the sample of the new state.
    pub fn next_short(&mut self) -> (sample: u16)
        ensures
            final(self)@ == step(old(self)@),
            sample == sample_of(final(self)@),
    {
        self.next();
        let state: u64 = self.state;
        assert(state >> 48 == state / 0x1_0000_0000_0000) by (bit_vector);
        (state >> 48) as u16
    }
}

/// Transitions compose: `m` of them followed by `n` more are `m + n` of them.
pub proof fn lemma_steps_compose(state: u64, m: nat, n: nat)
    ensures
        steps(steps(state, m), n) == steps(state, m + n),
    decreases n,
{
    if n > 0 {
        lemma_steps_compose(state, m, (n - 1) as nat);
    }
}

/// The state after `n` transitions is the seed times the `n`-th power of the
/// multiplier, modulo 2^64.
pub proof fn lemma_steps_closed_form(seed: u64, n: nat)
    ensures
        steps(seed, n) as int == (seed as int * pow(MULTIPLIER as int, n)) % 0x1_0000_0000_0000_0000,
    decreases n,
{
    let m = MULTIPLIER as int;
    let r = 0x1_0000_0000_0000_0000int;
    reveal(pow);
    if n == 0 {
        assert(seed as int * pow(m, 0) == seed as int) by (nonlinear_arith)
            requires
                pow(m, 0) == 1,
        ;
    } else {
        let k = (n - 1) as nat;
        lemma_steps_closed_form(seed, k);
        let a = seed as int * pow(m, k);
        assert(steps(seed, n) as int == ((a % r) * m) % r);
        lemma_mul_mod_noop_left(a, m, r);
        assert(a * m == seed as int * pow(m, n)) by (nonlinear_arith)
            requires
                a == seed as int * pow(m, k),
                pow(m, n) == m * pow(m, k),
        ;
    }
}

/// Distinct states stay distinct: the multiplier is odd, so a transition can
/// be undone.
pub proof fn lemma_step_injective(a: u64, b: u64)
    requires
        step(a) == step(b),
    ensures
        a == b,
{
    lemma_step_undone(a);
    lemma_step_undone(b);
}

/// Multiplying by the inverse of the multiplier modulo 2^64 undoes a transition.
pub proof fn lemma_step_undone(a: u64)
    ensures
        ((step(a) as nat * 1806327105921013469) % 0x1_0000_0000_0000_0000) as u64 == a,
{
    let r = 0x1_0000_0000_0000_0000int;
    let m = MULTIPLIER as int;
    let inv = 1806327105921013469int;
    let x = a as int;
    assert((m * inv) % r == 1) by (nonlinear_arith)
        requires
            m == 44485709377909,
            inv == 1806327105921013469,
            r == 0x1_0000_0000_0000_0000,
    ;
    lemma_mul_mod_noop_left(x * m, inv, r);
    assert((x * m) * inv == x * (m * inv)) by (nonlinear_arith);
    lemma_mul_mod_noop_right(x, m * inv, r);
    lemma_small_mod(a as nat, r as nat);
}

/// A generator seeded with zero never leaves zero.
pub proof fn lemma_zero_is_fixed(n: nat)
    ensures
        steps(0, n) == 0,
    decreases n,
{
    if n > 0 {
        lemma_zero_is_fixed((n - 1) as nat);
    }
}

} // verus!
