use rand::rngs::StdRng;
use rand::Rng;
use rand::SeedableRng;
use vstd::prelude::*;

verus! {

/// `rand::rngs::StdRng`, declared so that a generator can be held in a field.
/// Nothing is known of what a value of it holds.
#[verifier::external_type_specification]
#[verifier::external_body]
pub struct ExStdRng(StdRng);

/// The word with number `index`, counted from zero, in the stream of 32-bit
/// words that a `rand::rngs::StdRng` made by `seed_from_u64(seed)` hands out.
/// The generator is a ChaCha stream keyed by the seed, so the word depends on
/// the seed and its place in the stream and on nothing else.
pub uninterp spec fn std_rng_word(seed: u64, index: nat) -> u32;

/// A seeded stream of random words. Generation draws all its randomness from
/// one such stream, so what it builds is a function of the seed.
pub struct RandomSource {
    rng: StdRng,
    seed: Ghost<u64>,
    drawn: Ghost<nat>,
}

/// The value in `lo ..= hi` that a word picks: the words are spread over the
/// range by their remainder.
pub open spec fn pick_in_range(word: u32, lo: int, hi: int) -> int {
    lo + (word as int) % (hi - lo + 1)
}

impl RandomSource {
    /// The seed the stream was made from.
    pub closed spec fn seed(&self) -> u64 {
        self.seed@
    }

    /// How many words have been taken from the stream.
    pub closed spec fn drawn(&self) -> nat {
        self.drawn@
    }

    /// Calls `StdRng::seed_from_u64`: the new generator stands at the start
    /// of the stream of `seed`.
    #[verifier::external_body]
    fn seeded(seed: u64) -> (source: RandomSource)
        ensures
            source.seed() == seed,
            source.drawn() == 0,
    {
        RandomSource { rng: StdRng::seed_from_u64(seed), seed: Ghost(seed), drawn: Ghost(0) }
    }

    /// Calls `Rng::random::<u32>`, which for a `StdRng` is `next_u32`: it
    /// returns the next word of the stream and moves one word on.
    #[verifier::external_body]
    fn next_word(&mut self) -> (word: u32)
        ensures
            word == std_rng_word(old(self).seed(), old(self).drawn()),
            final(self).seed() == old(self).seed(),
            final(self).drawn() == old(self).drawn() + 1,
    {
        self.rng.random::<u32>()
    }

    /// A stream that starts at the first word of `seed`.
    pub fn new(seed: u64) -> (source: RandomSource)
        ensures
            source.seed() == seed,
            source.drawn() == 0,
    {
        RandomSource::seeded(seed)
    }

    /// Takes the next word of the stream.
    pub fn word(&mut self) -> (word: u32)
        ensures
            word == std_rng_word(old(self).seed(), old(self).drawn()),
            final(self).seed() == old(self).seed(),
            final(self).drawn() == old(self).drawn() + 1,
    {
        self.next_word()
    }

    /// Takes one word and picks with it a value from `lo ..= hi`.
    pub fn in_range(&mut self, lo: i32, hi: i32) -> (value: i32)
        requires
            lo <= hi,
        ensures
            value == pick_in_range(
                std_rng_word(old(self).seed(), old(self).drawn()),
                lo as int,
                hi as int,
            ),
            lo <= value <= hi,
            final(self).seed() == old(self).seed(),
            final(self).drawn() == old(self).drawn() + 1,
    {
        let word: u32 = self.next_word();
        let span: i64 = hi as i64 - lo as i64 + 1;
        let offset: i64 = (word as i64) % span;
        (lo as i64 + offset) as i32
    }
}

} // verus!
