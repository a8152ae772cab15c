use vstd::prelude::*;

verus! {

/// The two-byte big-endian chunk number `i` of `s`.
pub open spec fn chunk(s: Seq<u8>, i: int) -> u64 {
    ((s[2 * i] as u64) << 8u64) | (s[2 * i + 1] as u64)
}

/// The exclusive-or of the first `n` two-byte chunks of `s`.
pub open spec fn fold_chunks(s: Seq<u8>, n: nat) -> u64
    decreases n,
{
    if n == 0 {
        0
    } else {
        fold_chunks(s, (n - 1) as nat) ^ chunk(s, n - 1)
    }
}

/// The generator state that a seed folds into: the exclusive-or of its
/// two-byte chunks, and of the trailing byte shifted left by eight bits when
/// the length is odd.
pub open spec fn fold_seed(s: Seq<u8>) -> u64 {
    if s.len() % 2 == 1 {
        fold_chunks(s, s.len() / 2) ^ ((s.last() as u64) << 8u64)
    } else {
        fold_chunks(s, s.len() / 2)
    }
}

proof fn lemma_chunk_bound(s: Seq<u8>, i: int)
    requires
        0 <= i,
        2 * i + 1 < s.len(),
    ensures
        chunk(s, i) < 0x10000,
{
    let hi = s[2 * i];
    let lo = s[2 * i + 1];
    assert(((hi as u64) << 8u64) | (lo as u64) < 0x10000) by (bit_vector);
}

proof fn lemma_fold_chunks_bound(s: Seq<u8>, n: nat)
    requires
        2 * n <= s.len(),
    ensures
        fold_chunks(s, n) < 0x10000,
    decreases n,
{
    if n > 0 {
        lemma_fold_chunks_bound(s, (n - 1) as nat);
        lemma_chunk_bound(s, n - 1);
        let a = fold_chunks(s, (n - 1) as nat);
        let b = chunk(s, n - 1);
        assert(a < 0x10000 && b < 0x10000 ==> a ^ b < 0x10000) by (bit_vector);
    }
}

/// A folded seed is below 2^16, so any number of draws that fits in a
/// `usize` can follow it without overflowing the state.
pub proof fn lemma_fold_seed_bound(s: Seq<u8>)
    ensures
        fold_seed(s) < 0x10000,
{
    lemma_fold_chunks_bound(s, s.len() / 2);
    if s.len() % 2 == 1 {
        let a = fold_chunks(s, s.len() / 2);
        let b = s.last();
        assert(a < 0x10000 ==> a ^ ((b as u64) << 8u64) < 0x10000) by (bit_vector);
    }
}

proof fn lemma_fold_chunks_prefix(s: Seq<u8>, t: Seq<u8>, n: nat)
    requires
        2 * n <= s.len(),
        s.len() <= t.len(),
        forall|k: int| 0 <= k < s.len() ==> t[k] == s[k],
    ensures
        fold_chunks(t, n) == fold_chunks(s, n),
    decreases n,
{
    if n > 0 {
        lemma_fold_chunks_prefix(s, t, (n - 1) as nat);
        assert(chunk(t, n - 1) == chunk(s, n - 1));
    }
}

/// Appending one byte `b` to a seed of even length folds `b << 8` into the
/// state; so when `b` is not zero the two seeds start from different states,
/// and their draw sequences differ.
pub proof fn lemma_trailing_byte(s: Seq<u8>, b: u8)
    requires
        s.len() % 2 == 0,
    ensures
        fold_seed(s.push(b)) == fold_seed(s) ^ ((b as u64) << 8u64),
        b != 0 ==> fold_seed(s.push(b)) != fold_seed(s),
{
    let t = s.push(b);
    assert(t.len() / 2 == s.len() / 2);
    lemma_fold_chunks_prefix(s, t, s.len() / 2);
    let a = fold_seed(s);
    assert(b != 0 ==> a ^ ((b as u64) << 8u64) != a) by (bit_vector);
}

/// The state of the pseudorandom generator.
///
/// Each draw reads the state and then advances it by one, so the draws that
/// a seed yields read the states `fold_seed(seed)`, `fold_seed(seed) + 1`, ...
/// The state is always a whole number well below 2^53, so it is held here
/// exactly as an integer.
pub struct Seed {
    state: u64,
}

impl Seed {
    pub closed spec fn value(&self) -> u64 {
        self.state
    }

    /// Folds the seed bytes into a new generator state.
    pub fn new(seed: &[u8]) -> (r: Seed)
        ensures
            r.value() == fold_seed(seed@),
    {
        let mut acc: u64 = 0;
        let len: usize = seed.len();
        let n: usize = len / 2;
        let mut i: usize = 0;
        while i < n
            invariant
                len == seed@.len(),
                n == len / 2,
                i <= n,
                acc == fold_chunks(seed@, i as nat),
            decreases n - i,
        {
            assert(2 * i + 1 < seed@.len());
            let h: u64 = ((seed[2 * i] as u64) << 8u64) | (seed[2 * i + 1] as u64);
            acc = acc ^ h;
            i = i + 1;
        }
        if seed.len() % 2 == 1 {
            acc = acc ^ ((seed[seed.len() - 1] as u64) << 8u64);
        }
        Seed { state: acc }
    }

    /// The current state, which the next draw reads.
    pub fn state(&self) -> (r: u64)
        ensures
            r == self.value(),
    {
        self.state
    }

    /// Takes one draw: returns the state that the draw reads and advances the
    /// state by one.
    pub fn next_state(&mut self) -> (r: u64)
        requires
            old(self).value() < u64::MAX,
        ensures
            r == old(self).value(),
            final(self).value() == old(self).value() + 1,
    {
        let r = self.state;
        self.state = self.state + 1;
        r
    }
}

} // verus!
