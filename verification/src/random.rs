//! The random source: a seeded, reproducible stream of 64-bit words.
//!
//! Draw order is part of the contract: a source is a seed together with the
//! number of words already drawn, and the `n`-th word of a seed is fixed.
use rand::rngs::OsRng;
use rand::RngCore;
use rand::SeedableRng;
use rand_chacha::ChaCha8Rng;
use vstd::prelude::*;

verus! {

#[verifier::external_type_specification]
#[verifier::external_body]
pub struct ExChaCha8Rng(ChaCha8Rng);

/// The `index`-th 64-bit word of the ChaCha8 stream that
/// `seed_from_u64(seed)` starts.
pub uninterp spec fn seeded_word(seed: u64, index: nat) -> u64;

/// The word that `stream` will yield after `ahead` further draws.
pub uninterp spec fn upcoming(stream: ChaCha8Rng, ahead: nat) -> u64;

/// Calls `ChaCha8Rng::seed_from_u64`. Trusted: the generator it returns
/// yields, draw by draw, the stream named by `seeded_word` for that seed.
#[verifier::external_body]
fn seeded_stream(seed: u64) -> (stream: ChaCha8Rng)
    ensures
        forall|k: nat| #[trigger] upcoming(stream, k) == seeded_word(seed, k),
{
    ChaCha8Rng::seed_from_u64(seed)
}

/// Calls `RngCore::next_u64` on the generator. Trusted: it returns the next
/// word of the stream and leaves the generator one word further on.
#[verifier::external_body]
fn next_word(stream: &mut ChaCha8Rng) -> (word: u64)
    ensures
        word == upcoming(*old(stream), 0),
        forall|k: nat| #[trigger] upcoming(*final(stream), k) == upcoming(*old(stream), k + 1),
{
    stream.next_u64()
}

/// Calls `OsRng::try_fill_bytes` for eight bytes of operating-system
/// entropy. Nothing is claimed of the value; `None` when the system refuses.
#[verifier::external_body]
fn entropy_word() -> (word: Option<u64>) {
    let mut bytes = [0u8; 8];
    match OsRng.try_fill_bytes(&mut bytes) {
        Ok(()) => Some(u64::from_le_bytes(bytes)),
        Err(_) => None,
    }
}

/// How a source gets its seed.
#[derive(Clone, Copy, Debug, PartialEq, Eq, Structural)]
pub enum SeedOpt {
    /// Take a fresh seed from the operating system.
    Auto,
    /// Use this seed.
    Seed(u64),
}

/// What a source is, mathematically: its seed and how far it has been read.
pub struct RngView {
    pub seed: u64,
    pub drawn: nat,
}

/// A random source. It is owned by one consumer at a time; every draw
/// advances it by exactly one word.
pub struct Rng {
    seed: u64,
    stream: ChaCha8Rng,
    drawn: Ghost<nat>,
}

/// The value `lo + word mod (hi - lo + 1)`: how a raw word is folded into the
/// closed range `[lo, hi]`.
pub open spec fn fold_into(word: u64, lo: i64, hi: i64) -> int
    recommends
        lo <= hi,
{
    lo + (word as int) % (hi - lo + 1)
}

/// Folds a raw word into the closed range `[lo, hi]`.
pub fn fold_word(word: u64, lo: i64, hi: i64) -> (value: i64)
    requires
        lo <= hi,
    ensures
        value == fold_into(word, lo, hi),
        lo <= value <= hi,
{
    let width: u128 = (hi as i128 - lo as i128 + 1) as u128;
    let offset: u128 = (word as u128) % width;
    (lo as i128 + offset as i128) as i64
}

/// The seed used when the operating system yields no entropy.
pub const FALLBACK_SEED: u64 = 0;

impl Rng {
    pub closed spec fn view(&self) -> RngView {
        RngView { seed: self.seed, drawn: self.drawn@ }
    }

    /// The stream held is the seed's stream, read up to `drawn`.
    pub closed spec fn wf(&self) -> bool {
        forall|k: nat| #[trigger] upcoming(self.stream, k) == seeded_word(self.seed, self.drawn@ + k)
    }

    /// The word that this source will yield after `ahead` further draws.
    pub closed spec fn coming(&self, ahead: nat) -> u64 {
        upcoming(self.stream, ahead)
    }

    /// A fresh source. With `SeedOpt::Seed(s)` it starts the stream of `s`;
    /// with `SeedOpt::Auto` the seed is drawn from the operating system, or
    /// is `FALLBACK_SEED` where the system yields none. Either way `seed`
    /// reports it.
    pub fn new(opt: SeedOpt) -> (rng: Rng)
        ensures
            rng.wf(),
            rng@.drawn == 0,
            opt matches SeedOpt::Seed(s) ==> rng@.seed == s,
    {
        let seed: u64 = match opt {
            SeedOpt::Seed(s) => s,
            SeedOpt::Auto => match entropy_word() {
                Some(s) => s,
                None => FALLBACK_SEED,
            },
        };
        Rng { seed, stream: seeded_stream(seed), drawn: Ghost(0) }
    }

    /// The seed that reproduces this source's stream from its start.
    pub fn seed(&self) -> (seed: u64)
        ensures
            seed == self@.seed,
    {
        self.seed
    }

    /// Draws the next raw word.
    pub fn word(&mut self) -> (word: u64)
        requires
            old(self).wf(),
        ensures
            final(self).wf(),
            word == seeded_word(old(self)@.seed, old(self)@.drawn),
            word == old(self).coming(0),
            final(self)@.seed == old(self)@.seed,
            final(self)@.drawn == old(self)@.drawn + 1,
    {
        let word = next_word(&mut self.stream);
        proof {
            self.drawn@ = self.drawn@ + 1;
        }
        word
    }

    /// Draws `n` raw words, in stream order.
    pub fn words(&mut self, n: usize) -> (out: Vec<u64>)
        requires
            old(self).wf(),
        ensures
            final(self).wf(),
            out@.len() == n,
            forall|k: int|
                0 <= k < n ==> #[trigger] out@[k] == seeded_word(
                    old(self)@.seed,
                    old(self)@.drawn + k as nat,
                ),
            final(self)@.seed == old(self)@.seed,
            final(self)@.drawn == old(self)@.drawn + n,
    {
        let mut out: Vec<u64> = Vec::new();
        let mut k: usize = 0;
        while k < n
            invariant
                k <= n,
                self.wf(),
                out@.len() == k,
                self@.seed == old(self)@.seed,
                self@.drawn == old(self)@.drawn + k,
                forall|j: int|
                    0 <= j < k ==> #[trigger] out@[j] == seeded_word(
                        old(self)@.seed,
                        old(self)@.drawn + j as nat,
                    ),
            decreases n - k,
        {
            let word = self.word();
            out.push(word);
            k += 1;
        }
        out
    }

    /// Draws a value of the closed range `[lo, hi]`, consuming one word.
    pub fn range(&mut self, lo: i64, hi: i64) -> (value: i64)
        requires
            old(self).wf(),
            lo <= hi,
        ensures
            final(self).wf(),
            value == fold_into(seeded_word(old(self)@.seed, old(self)@.drawn), lo, hi),
            lo <= value <= hi,
            final(self)@.seed == old(self)@.seed,
            final(self)@.drawn == old(self)@.drawn + 1,
    {
        let word = self.word();
        fold_word(word, lo, hi)
    }
}

/// Determinism: two sources with one seed, read equally far, yield the same
/// word at every further position, and that word is fixed by the seed and
/// the position alone.
pub proof fn lemma_same_seed_same_stream(a: Rng, b: Rng, ahead: nat)
    requires
        a.wf(),
        b.wf(),
        a@ == b@,
    ensures
        a.coming(ahead) == b.coming(ahead),
        a.coming(ahead) == seeded_word(a@.seed, a@.drawn + ahead),
{
}

/// Replay: a fresh source made from the seed that a used source reports
/// catches up with it; read as far as the used one has been read, it goes
/// on exactly as the used one does.
pub proof fn lemma_seed_replays(used: Rng, fresh: Rng, ahead: nat)
    requires
        used.wf(),
        fresh.wf(),
        fresh@.seed == used@.seed,
        fresh@.drawn == 0,
    ensures
        fresh.coming(used@.drawn + ahead) == used.coming(ahead),
{
}

} // verus!
