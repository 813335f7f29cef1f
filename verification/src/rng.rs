use vstd::prelude::*;

verus! {

/// The SplitMix64 increment.
pub const GOLDEN: u64 = 0x9E3779B97F4A7C15;

/// Bitwise left rotation of a 64-bit word by `k` places (`0 < k < 64`).
pub open spec fn rotl(x: u64, k: u64) -> u64 {
    (x << k) | (x >> sub_width(k))
}

pub open spec fn sub_width(k: u64) -> u64 {
    (64 - k) as u64
}

/// The output of SplitMix64 for an (already advanced) state.
pub open spec fn splitmix_mix(z0: u64) -> u64 {
    let z1 = (z0 ^ (z0 >> 30u64)).wrapping_mul(0xBF58476D1CE4E5B9u64);
    let z2 = (z1 ^ (z1 >> 27u64)).wrapping_mul(0x94D049BB133111EBu64);
    z2 ^ (z2 >> 31u64)
}

/// A Xoshiro256++ state.
pub type State = (u64, u64, u64, u64);

/// The state that `Rng::seed` derives from a seed with four SplitMix64 outputs.
pub open spec fn seed_state(seed: u64) -> State {
    let a = seed.wrapping_add(GOLDEN);
    let b = a.wrapping_add(GOLDEN);
    let c = b.wrapping_add(GOLDEN);
    let d = c.wrapping_add(GOLDEN);
    (splitmix_mix(a), splitmix_mix(b), splitmix_mix(c), splitmix_mix(d))
}

/// The output of one Xoshiro256++ step.
pub open spec fn step_output(s: State) -> u64 {
    rotl(s.0.wrapping_add(s.3), 23).wrapping_add(s.0)
}

/// The state after one Xoshiro256++ step.
pub open spec fn step_state(s: State) -> State {
    let t = s.1 << 17u64;
    let s2 = s.2 ^ s.0;
    let s3 = s.3 ^ s.1;
    let s1 = s.1 ^ s2;
    let s0 = s.0 ^ s3;
    (s0, s1, s2 ^ t, rotl(s3, 45))
}

/// The state after `n` steps.
pub open spec fn advance(s: State, n: nat) -> State
    decreases n,
{
    if n == 0 {
        s
    } else {
        advance(step_state(s), (n - 1) as nat)
    }
}

/// A deterministic Xoshiro256++ generator seeded with SplitMix64.
#[derive(Debug)]
pub struct Rng {
    s0: u64,
    s1: u64,
    s2: u64,
    s3: u64,
}

impl View for Rng {
    type V = State;

    closed spec fn view(&self) -> State {
        (self.s0, self.s1, self.s2, self.s3)
    }
}

fn rotl_exec(x: u64, k: u64) -> (r: u64)
    requires
        0 < k < 64,
    ensures
        r == rotl(x, k),
{
    (x << k) | (x >> (64 - k))
}

fn splitmix_exec(z0: u64) -> (r: u64)
    ensures
        r == splitmix_mix(z0),
{
    let z1 = (z0 ^ (z0 >> 30u64)).wrapping_mul(0xBF58476D1CE4E5B9u64);
    let z2 = (z1 ^ (z1 >> 27u64)).wrapping_mul(0x94D049BB133111EBu64);
    z2 ^ (z2 >> 31u64)
}

impl Rng {
    /// A generator whose state is four SplitMix64 outputs from `seed`.
    pub fn seed(seed: u64) -> (r: Self)
        ensures
            r@ == seed_state(seed),
    {
        let a = seed.wrapping_add(GOLDEN);
        let b = a.wrapping_add(GOLDEN);
        let c = b.wrapping_add(GOLDEN);
        let d = c.wrapping_add(GOLDEN);
        Rng { s0: splitmix_exec(a), s1: splitmix_exec(b), s2: splitmix_exec(c), s3: splitmix_exec(d) }
    }

    /// One Xoshiro256++ step: returns its output and advances the state.
    pub fn next_u64(&mut self) -> (r: u64)
        ensures
            r == step_output(old(self)@),
            final(self)@ == step_state(old(self)@),
    {
        let result = rotl_exec(self.s0.wrapping_add(self.s3), 23).wrapping_add(self.s0);
        let t = self.s1 << 17u64;
        self.s2 = self.s2 ^ self.s0;
        self.s3 = self.s3 ^ self.s1;
        self.s1 = self.s1 ^ self.s2;
        self.s0 = self.s0 ^ self.s3;
        self.s2 = self.s2 ^ t;
        self.s3 = rotl_exec(self.s3, 45);
        result
    }

    /// A value in `[min, max]`; `min` itself when `min >= max`, without a step.
    pub fn gen_range(&mut self, min: usize, max: usize) -> (r: usize)
        requires
            min >= max || max - min < usize::MAX,
        ensures
            min >= max ==> r == min && final(self)@ == old(self)@,
            min < max ==> final(self)@ == step_state(old(self)@) && r == min + (step_output(
                old(self)@,
            ) as usize) % ((max - min + 1) as usize),
            min < max ==> min <= r <= max,
    {
        if min >= max {
            return min;
        }
        let span = max - min + 1;
        let x = self.next_u64() as usize;
        min + x % span
    }

    /// A value in `[min, max]`; `min` itself when `min >= max`, without a step.
    pub fn gen_i64(&mut self, min: i64, max: i64) -> (r: i64)
        requires
            min >= max || max - min < i64::MAX,
        ensures
            min >= max ==> r == min && final(self)@ == old(self)@,
            min < max ==> final(self)@ == step_state(old(self)@) && r == min + (step_output(
                old(self)@,
            ) % ((max - min + 1) as u64)),
            min < max ==> min <= r <= max,
    {
        if min >= max {
            return min;
        }
        let diff = (max - min + 1) as u64;
        let x = self.next_u64() % diff;
        min + (x as i64)
    }

    /// `true` when the low 32 bits of the next output are at most `threshold`
    /// (the integer part of `gen_bool`, whose probability becomes such a threshold).
    pub fn gen_bool_below(&mut self, threshold: u32) -> (r: bool)
        ensures
            final(self)@ == step_state(old(self)@),
            r == ((step_output(old(self)@) as u32) <= threshold),
    {
        (self.next_u64() as u32) <= threshold
    }

    /// An element of a non-empty slice, at the index `gen_range(0, len - 1)` gives.
    pub fn pick<'a, T>(&mut self, slice: &'a [T]) -> (r: &'a T)
        requires
            slice@.len() > 0,
        ensures
            slice@.len() == 1 ==> *r == slice@[0] && final(self)@ == old(self)@,
            slice@.len() > 1 ==> final(self)@ == step_state(old(self)@) && *r == slice@[((
            step_output(old(self)@) as usize) % (slice@.len() as usize)) as int],
    {
        let idx = self.gen_range(0, slice.len() - 1);
        &slice[idx]
    }
}


/// The `n`th output (from zero) of a generator seeded with `seed`.
pub open spec fn nth_output(seed: u64, n: nat) -> u64 {
    step_output(advance(seed_state(seed), n))
}

proof fn lemma_advance_step(s: State, n: nat)
    ensures
        advance(s, n + 1) == step_state(advance(s, n)),
    decreases n,
{
    assert(advance(s, n + 1) == advance(step_state(s), n));
    if n > 0 {
        lemma_advance_step(step_state(s), (n - 1) as nat);
        assert(advance(s, n) == advance(step_state(s), (n - 1) as nat));
    } else {
        assert(advance(step_state(s), 0) == step_state(s));
    }
}

/// The outputs of a seeded generator are the Xoshiro256++ sequence from its
/// SplitMix64 state: a generator whose state is that after `n` steps from the
/// seed gives the `n`th output next, and is then in the state after `n + 1`
/// steps.
pub proof fn law_output_sequence(seed: u64, n: nat, before: State, out: u64, after: State)
    requires
        before == advance(seed_state(seed), n),
        out == step_output(before),
        after == step_state(before),
    ensures
        out == nth_output(seed, n),
        after == advance(seed_state(seed), n + 1),
{
    lemma_advance_step(seed_state(seed), n);
}

} // verus!
