//! Seeds for the slices of a render, drawn one after the other from a single
//! xoshiro256++ generator.

use rand::{RngCore, SeedableRng};
use rand_xoshiro::Xoshiro256PlusPlus;
use vstd::prelude::*;

verus! {

#[verifier::external_type_specification]
#[verifier::external_body]
pub struct ExXoshiro256PlusPlus(Xoshiro256PlusPlus);

/// The state words that a generator holds.
pub uninterp spec fn generator_words(rng: Xoshiro256PlusPlus) -> Seq<u64>;

/// The state words of a generator freshly seeded with `seed`.
pub uninterp spec fn seeded_words(seed: u64) -> Seq<u64>;

/// One draw from a generator whose state words are `words`: the 64-bit
/// output, and the state words afterwards.
pub uninterp spec fn stepped(words: Seq<u64>) -> (u64, Seq<u64>);

/// `Xoshiro256PlusPlus::seed_from_u64`: the state of the generator it
/// returns depends on `seed` alone.
#[verifier::external_body]
fn seed_generator(seed: u64) -> (rng: Xoshiro256PlusPlus)
    ensures
        generator_words(rng) == seeded_words(seed),
{
    Xoshiro256PlusPlus::seed_from_u64(seed)
}

/// `Xoshiro256PlusPlus::next_u64`: the output and the new state depend on
/// the state before the call alone.
#[verifier::external_body]
fn next_word(rng: &mut Xoshiro256PlusPlus) -> (word: u64)
    ensures
        word == stepped(generator_words(*old(rng))).0,
        generator_words(*final(rng)) == stepped(generator_words(*old(rng))).1,
{
    rng.next_u64()
}

/// `Xoshiro256PlusPlus::next_u32`: the upper half of what `next_u64` would
/// have returned, with the same change of state.
#[verifier::external_body]
fn next_half_word(rng: &mut Xoshiro256PlusPlus) -> (half: u32)
    ensures
        half == stepped(generator_words(*old(rng))).0 / 0x1_0000_0000,
        generator_words(*final(rng)) == stepped(generator_words(*old(rng))).1,
{
    rng.next_u32()
}

/// The next `n` outputs of a generator whose state words are `words`.
pub open spec fn seeds_from(words: Seq<u64>, n: nat) -> Seq<u64>
    decreases n,
{
    if n == 0 {
        Seq::empty()
    } else {
        seq![stepped(words).0] + seeds_from(stepped(words).1, (n - 1) as nat)
    }
}

/// The state words of a generator after `n` draws from `words`.
pub open spec fn words_after(words: Seq<u64>, n: nat) -> Seq<u64>
    decreases n,
{
    if n == 0 {
        words
    } else {
        words_after(stepped(words).1, (n - 1) as nat)
    }
}

/// A 32-bit draw read as a signed number of the same bits.
pub open spec fn signed_of(draw: u32) -> i32 {
    if draw < 0x8000_0000 {
        draw as i32
    } else {
        (draw - 0x1_0000_0000) as i32
    }
}

/// The source of the seeds of a render. Its view is the state of the
/// generator inside.
pub struct SeedSource {
    rng: Xoshiro256PlusPlus,
}

impl View for SeedSource {
    type V = Seq<u64>;

    closed spec fn view(&self) -> Seq<u64> {
        generator_words(self.rng)
    }
}

impl SeedSource {
    /// A source that starts from the top-level seed `seed`.
    pub fn new(seed: u64) -> (source: SeedSource)
        ensures
            source@ == seeded_words(seed),
    {
        SeedSource { rng: seed_generator(seed) }
    }

    /// Draws the seed of the next slice.
    pub fn next_seed(&mut self) -> (seed: u64)
        ensures
            seed == stepped(old(self)@).0,
            final(self)@ == stepped(old(self)@).1,
    {
        next_word(&mut self.rng)
    }

    /// Draws the seeds of the next `slice_count` slices, in slice order.
    pub fn slice_seeds(&mut self, slice_count: usize) -> (seeds: Vec<u64>)
        ensures
            seeds@ == seeds_from(old(self)@, slice_count as nat),
            final(self)@ == words_after(old(self)@, slice_count as nat),
    {
        let ghost start = self@;
        let mut seeds: Vec<u64> = Vec::new();
        let mut i: usize = 0;
        while i < slice_count
            invariant
                i <= slice_count,
                seeds@ == seeds_from(start, i as nat),
                self@ == words_after(start, i as nat),
            decreases slice_count - i,
        {
            let seed: u64 = self.next_seed();
            seeds.push(seed);
            proof {
                lemma_seeds_split(start, i as nat, 1);
                lemma_words_after_split(start, i as nat, 1);
                reveal_with_fuel(seeds_from, 2);
                reveal_with_fuel(words_after, 2);
            }
            i = i + 1;
        }
        seeds
    }
}

/// The seed of a cloud field, read from a 32-bit draw.
pub fn seed_from_draw(draw: u32) -> (seed: i32)
    ensures
        seed == signed_of(draw),
{
    assert(draw as i32 == signed_of(draw)) by (bit_vector);
    draw as i32
}

/// The seed of the cloud field that belongs to the configured seed `seed`:
/// the first 32-bit draw of a generator seeded with it.
pub fn cloud_seed(seed: u64) -> (r: i32)
    ensures
        r == signed_of((stepped(seeded_words(seed)).0 / 0x1_0000_0000) as u32),
{
    let mut rng = seed_generator(seed);
    let draw: u32 = next_half_word(&mut rng);
    seed_from_draw(draw)
}

/// Drawing `a` seeds and then `b` more gives the seeds that drawing `a + b`
/// at once gives: a slice's seed depends on its place in the order of
/// draws, not on how the draws are grouped.
pub proof fn lemma_seeds_split(words: Seq<u64>, a: nat, b: nat)
    ensures
        seeds_from(words, a + b) == seeds_from(words, a) + seeds_from(words_after(words, a), b),
    decreases a,
{
    if a == 0 {
        assert(seeds_from(words, 0) + seeds_from(words, b) =~= seeds_from(words, b));
    } else {
        let next = stepped(words).1;
        lemma_seeds_split(next, (a - 1) as nat, b);
        assert(seeds_from(words, a + b) =~= seq![stepped(words).0] + seeds_from(
            next,
            (a + b - 1) as nat,
        ));
        assert(seeds_from(words, a + b) =~= seeds_from(words, a) + seeds_from(
            words_after(words, a),
            b,
        ));
    }
}

/// The state after `a` draws and then `b` more is the state after `a + b`.
pub proof fn lemma_words_after_split(words: Seq<u64>, a: nat, b: nat)
    ensures
        words_after(words, a + b) == words_after(words_after(words, a), b),
    decreases a,
{
    if a > 0 {
        lemma_words_after_split(stepped(words).1, (a - 1) as nat, b);
    }
}

} // verus!
