//! Byte-addressable scratch memory with word-aligned, gas-billed growth.

use vstd::prelude::*;
use vstd::pervasive::VecAdditionalExecFns;
use crate::result::InstructionResult;

verus! {

/// `new_len` rounded up to the next word (32-byte) boundary.
pub open spec fn rounded_len(n: nat) -> nat {
    ((n + 31) / 32) * 32
}

/// Length of the buffer after a resize to `n`: memory never shrinks.
pub open spec fn spec_grown_len(len: nat, n: nat) -> nat {
    if rounded_len(n) <= len {
        len
    } else {
        rounded_len(n)
    }
}

/// Billable growth of a resize to `n`, in words.
pub open spec fn spec_added_words(len: nat, n: nat) -> nat {
    ((spec_grown_len(len, n) - len) / 32) as nat
}

/// Total gas attributed to a memory of `words` words: linear part plus
/// the quadratic term `words^2 / 512`.
pub open spec fn spec_memory_gas(words: nat) -> nat {
    3 * words + words * words / 512
}

/// Expandable, zero-filled scratch memory. Grows only in whole-word
/// increments and never beyond its configured ceiling.
pub struct Memory {
    data: Vec<u8>,
    limit: u64,
}

impl View for Memory {
    type V = Seq<u8>;

    closed spec fn view(&self) -> Seq<u8> {
        self.data@
    }
}

impl Memory {
    /// The configured ceiling on the buffer length, in bytes.
    pub closed spec fn spec_limit(&self) -> u64 {
        self.limit
    }

    /// The ceiling the machine can actually honour: the configured limit,
    /// clamped to the address width.
    pub open spec fn spec_ceiling(&self) -> nat {
        if self.spec_limit() <= usize::MAX {
            self.spec_limit() as nat
        } else {
            usize::MAX as nat
        }
    }

    /// Buffer length is word-aligned and within the ceiling.
    pub open spec fn wf(&self) -> bool {
        &&& self@.len() % 32 == 0
        &&& self@.len() <= self.spec_ceiling()
    }

    /// A fresh, empty memory without a configured ceiling.
    pub fn new() -> (r: Memory)
        ensures
            r.wf(),
            r@ == Seq::<u8>::empty(),
            r.spec_limit() == u64::MAX,
    {
        let r = Memory { data: Vec::new(), limit: u64::MAX };
        proof {
            assert(r@ =~= Seq::<u8>::empty());
        }
        r
    }

    /// A fresh, empty memory with a configured ceiling.
    pub fn new_with_limit(limit: u64) -> (r: Memory)
        ensures
            r.wf(),
            r@ == Seq::<u8>::empty(),
            r.spec_limit() == limit,
    {
        let r = Memory { data: Vec::new(), limit };
        proof {
            assert(r@ =~= Seq::<u8>::empty());
        }
        r
    }

    /// Current buffer length in bytes.
    pub fn len(&self) -> (r: usize)
        ensures
            r == self@.len(),
    {
        self.data.len()
    }

    /// Grow the buffer so that `new_len` bytes are addressable, rounding
    /// up to a word boundary and zero-filling. Returns the billable
    /// growth in words: zero when the rounded length is already covered,
    /// so a second resize to the same length is never billed. Fails with
    /// `MemoryLimitExceeded`, mutating nothing, when the rounded length
    /// would exceed the ceiling.
    pub fn resize_to(&mut self, new_len: usize) -> (r: Result<u64, InstructionResult>)
        requires
            old(self).wf(),
        ensures
            final(self).wf(),
            final(self).spec_limit() == old(self).spec_limit(),
            match r {
                Ok(added) => {
                    &&& rounded_len(new_len as nat) <= old(self).spec_ceiling()
                    &&& final(self)@.len() == spec_grown_len(old(self)@.len(), new_len as nat)
                    &&& added == spec_added_words(old(self)@.len(), new_len as nat)
                    &&& final(self)@ == old(self)@.add(
                        Seq::new((final(self)@.len() - old(self)@.len()) as nat, |i: int| 0u8))
                },
                Err(e) => {
                    &&& e == InstructionResult::MemoryLimitExceeded
                    &&& rounded_len(new_len as nat) > old(self).spec_ceiling()
                    &&& *final(self) == *old(self)
                },
            },
    {
        let nl = new_len as u128;
        let rounded = ((nl + 31) / 32) * 32;
        if rounded > self.limit as u128 || rounded > usize::MAX as u128 {
            return Err(InstructionResult::MemoryLimitExceeded);
        }
        let rl = rounded as usize;
        if rl <= self.data.len() {
            proof {
                assert(self@ =~= self@.add(Seq::new(0, |i: int| 0u8)));
            }
            return Ok(0);
        }
        let added_words = ((rl - self.data.len()) / 32) as u64;
        let ghost old_view = self.data@;
        self.data.resize(rl, 0u8);
        proof {
            assert((rounded_len(new_len as nat) / 32) * 32 == rounded_len(new_len as nat)) by {
                let q = (new_len as nat + 31) / 32;
                assert(rounded_len(new_len as nat) == q * 32);
                assert(q * 32 / 32 == q) by (nonlinear_arith);
            };
            assert(self.data@ =~= old_view.add(
                Seq::new((rl - old_view.len()) as nat, |i: int| 0u8)));
            assert(self.data@.len() % 32 == 0) by {
                let q = (new_len as nat + 31) / 32;
                assert(q * 32 % 32 == 0) by (nonlinear_arith);
            };
        }
        Ok(added_words)
    }

    /// Copy `len` bytes starting at `offset` out of memory. The range
    /// must already be addressable: callers resize first.
    pub fn read(&self, offset: usize, len: usize) -> (r: Vec<u8>)
        requires
            offset + len <= self@.len(),
        ensures
            r@ == self@.subrange(offset as int, offset + len),
    {
        let n = self.data.len();
        let mut out: Vec<u8> = Vec::with_capacity(len);
        let mut i: usize = 0;
        while i < len
            invariant
                n == self@.len(),
                offset + len <= n,
                i <= len,
                out@.len() == i,
                forall|j: int| 0 <= j < i ==> out@[j] == self@[offset + j],
            decreases len - i,
        {
            out.push(self.data[offset + i]);
            i = i + 1;
        }
        proof {
            assert(out@ =~= self@.subrange(offset as int, offset + len));
        }
        out
    }

    /// Copy `src` into memory at `offset`. The range must already be
    /// addressable: callers resize first.
    pub fn write(&mut self, offset: usize, src: &Vec<u8>)
        requires
            old(self).wf(),
            offset + src@.len() <= old(self)@.len(),
        ensures
            final(self).wf(),
            final(self).spec_limit() == old(self).spec_limit(),
            final(self)@ == old(self)@.subrange(0, offset as int)
                .add(src@)
                .add(old(self)@.subrange(offset + src@.len(), old(self)@.len() as int)),
    {
        let n = self.data.len();
        let mut i: usize = 0;
        while i < src.len()
            invariant
                n == self@.len(),
                offset + src@.len() <= n,
                self@.len() == old(self)@.len(),
                self.spec_limit() == old(self).spec_limit(),
                i <= src@.len(),
                forall|j: int| 0 <= j < i ==> self@[offset + j] == src@[j],
                forall|j: int|
                    0 <= j < self@.len() && !(offset <= j < offset + i)
                        ==> self@[j] == old(self)@[j],
            decreases src@.len() - i,
        {
            self.data.set(offset + i, src[i]);
            i = i + 1;
        }
        proof {
            assert(self@ =~= old(self)@.subrange(0, offset as int)
                .add(src@)
                .add(old(self)@.subrange(offset + src@.len(), old(self)@.len() as int)));
        }
    }

    /// The gas a growth of this memory to `new_len` bytes would cost:
    /// the difference of [`spec_memory_gas`] at the new and old word
    /// counts, saturated to the gas width. Charging this cost must
    /// succeed before [`Memory::resize_to`] is called. Fails with
    /// `MemoryLimitExceeded` exactly when the resize itself would.
    pub fn grow_cost(&self, new_len: usize) -> (r: Result<u64, InstructionResult>)
        requires
            self.wf(),
        ensures
            match r {
                Ok(c) => {
                    &&& rounded_len(new_len as nat) <= self.spec_ceiling()
                    &&& {
                        let old_words = self@.len() / 32;
                        let new_words = spec_grown_len(self@.len(), new_len as nat) / 32;
                        let d = spec_memory_gas(new_words as nat) - spec_memory_gas(old_words as nat);
                        c == if d <= u64::MAX { d } else { u64::MAX as int }
                    }
                },
                Err(e) => {
                    &&& e == InstructionResult::MemoryLimitExceeded
                    &&& rounded_len(new_len as nat) > self.spec_ceiling()
                },
            },
    {
        let nl = new_len as u128;
        let rounded = ((nl + 31) / 32) * 32;
        if rounded > self.limit as u128 || rounded > usize::MAX as u128 {
            return Err(InstructionResult::MemoryLimitExceeded);
        }
        let cur_len = self.data.len() as u128;
        let grown = if rounded <= cur_len { cur_len } else { rounded };
        let old_words = cur_len / 32;
        let new_words = grown / 32;
        proof {
            assert(old_words <= new_words);
            assert(old_words * old_words <= new_words * new_words) by (nonlinear_arith)
                requires 0 <= old_words <= new_words;
            vstd::arithmetic::div_mod::lemma_div_is_ordered(
                (old_words * old_words) as int, (new_words * new_words) as int, 512);
            assert(new_words < 0x800_0000_0000_0000u128);
            assert(new_words * new_words <= 0x40_0000_0000_0000_0000_0000_0000_0000u128)
                by (nonlinear_arith)
                requires 0 <= new_words < 0x800_0000_0000_0000u128;
        }
        let cost = (3 * new_words + new_words * new_words / 512)
            - (3 * old_words + old_words * old_words / 512);
        if cost > u64::MAX as u128 {
            Ok(u64::MAX)
        } else {
            Ok(cost as u64)
        }
    }
}

/// Resizing is idempotent: once memory has grown to cover the rounded
/// length, a second resize to the same length performs no billable
/// growth.
pub proof fn lemma_resize_to_idempotent(len: nat, n: nat)
    ensures
        spec_added_words(spec_grown_len(len, n), n) == 0,
{
}

} // verus!
