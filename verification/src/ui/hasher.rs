//! Hashing-based change detection.
//!
//! A [`Hasher`] is a process-local accumulator combining each visited
//! widget's discriminant and layout-relevant content into a single
//! digest. The digest is a pure function of the values fed in — never of
//! renderer state, cursor position or transient interaction state — so
//! identical widget trees always produce identical digests, and a caller
//! may reuse a previous layout whenever the digest did not change.

use vstd::prelude::*;
use vstd::string::StrSliceExecFns;

verus! {

/// The starting value of a fresh accumulator.
pub const HASH_SEED: u64 = 0xcbf29ce484222325;

/// The multiplier folded in at every step.
pub const HASH_PRIME: u64 = 0x100000001b3;

/// One accumulation step: fold `v` into `state` by xor and a wrapping
/// multiply.
pub open spec fn spec_mix(state: u64, v: u64) -> u64 {
    vstd::wrapping::u64_specs::wrapping_mul(state ^ v, HASH_PRIME)
}

/// The digest after folding in every character of `s`, left to right.
pub open spec fn spec_hash_chars(state: u64, s: Seq<char>) -> u64
    decreases s.len(),
{
    if s.len() == 0 {
        state
    } else {
        spec_hash_chars(spec_mix(state, s[0] as u64), s.subrange(1, s.len() as int))
    }
}

/// The digest after folding in a string: its length first, then its
/// characters in order, so differently split strings never collide with
/// each other by concatenation.
pub open spec fn spec_hash_str(state: u64, s: Seq<char>) -> u64 {
    spec_hash_chars(spec_mix(state, s.len() as u64), s)
}

/// The digest after folding in an optional pixel value: a presence tag,
/// then the value itself.
pub open spec fn spec_hash_opt(state: u64, o: Option<u32>) -> u64 {
    match o {
        None => spec_mix(state, 0),
        Some(v) => spec_mix(spec_mix(state, 1), v as u64),
    }
}

/// A process-local hash accumulator.
pub struct Hasher {
    /// The digest accumulated so far.
    pub digest: u64,
}

impl Hasher {
    /// A fresh accumulator, at the fixed seed.
    pub fn new() -> (h: Hasher)
        ensures
            h.digest == HASH_SEED,
    {
        Hasher { digest: HASH_SEED }
    }

    /// Folds one value into the digest.
    pub fn write_u64(&mut self, v: u64)
        ensures
            final(self).digest == spec_mix(old(self).digest, v),
    {
        self.digest = (self.digest ^ v).wrapping_mul(HASH_PRIME);
    }

    /// Folds one pixel value into the digest.
    pub fn write_u32(&mut self, v: u32)
        ensures
            final(self).digest == spec_mix(old(self).digest, v as u64),
    {
        self.write_u64(v as u64);
    }

    /// Folds a boolean into the digest.
    pub fn write_bool(&mut self, v: bool)
        ensures
            final(self).digest == spec_mix(old(self).digest, if v { 1u64 } else { 0u64 }),
    {
        if v {
            self.write_u64(1);
        } else {
            self.write_u64(0);
        }
    }

    /// Folds an optional pixel value into the digest.
    pub fn write_opt(&mut self, o: Option<u32>)
        ensures
            final(self).digest == spec_hash_opt(old(self).digest, o),
    {
        match o {
            None => self.write_u64(0),
            Some(v) => {
                self.write_u64(1);
                self.write_u64(v as u64);
            },
        }
    }

    /// Folds a string into the digest: its length, then every character
    /// in order.
    pub fn write_str(&mut self, s: &str)
        ensures
            final(self).digest == spec_hash_str(old(self).digest, s@),
    {
        let n: usize = s.unicode_len();
        self.write_u64(n as u64);
        let ghost start = self.digest;
        let mut i: usize = 0;
        assert(s@.subrange(0, s@.len() as int) =~= s@);
        while i < n
            invariant
                i <= n,
                n == s@.len(),
                spec_hash_chars(start, s@) == spec_hash_chars(
                    self.digest,
                    s@.subrange(i as int, s@.len() as int),
                ),
            decreases n - i,
        {
            let c = s.get_char(i);
            proof {
                let suf = s@.subrange(i as int, s@.len() as int);
                assert(suf[0] == s@[i as int]);
                assert(suf.subrange(1, suf.len() as int) =~= s@.subrange(
                    i as int + 1,
                    s@.len() as int,
                ));
            }
            self.write_u64(c as u64);
            i = i + 1;
        }
        proof {
            assert(s@.subrange(s@.len() as int, s@.len() as int) =~= Seq::<char>::empty());
        }
    }
}

} // verus!
