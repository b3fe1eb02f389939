//! The machine word: a 256-bit unsigned integer stored as 32 big-endian
//! bytes, the universal stack and memory value unit.

use vstd::prelude::*;
use vstd::arithmetic::div_mod::{lemma_div_denominator, lemma_mod_breakdown};
use vstd::pervasive::VecAdditionalExecFns;

verus! {

/// Number of bytes in a machine word.
pub const WORD_BYTES: usize = 32;

/// The unsigned value of a big-endian byte string.
pub open spec fn be_val(s: Seq<u8>) -> nat
    decreases s.len(),
{
    if s.len() == 0 {
        0
    } else {
        (be_val(s.drop_last()) * 256 + s.last()) as nat
    }
}

/// 256 to the power `n`: the number of values of an `n`-byte string.
pub open spec fn pow256(n: nat) -> nat
    decreases n,
{
    if n == 0 {
        1
    } else {
        256 * pow256((n - 1) as nat)
    }
}

/// A byte string's value is bounded by the size of its domain.
pub proof fn lemma_be_val_bound(s: Seq<u8>)
    ensures
        be_val(s) < pow256(s.len()),
    decreases s.len(),
{
    if s.len() > 0 {
        lemma_be_val_bound(s.drop_last());
    }
}

/// A byte string has value zero exactly when every byte is zero.
pub proof fn lemma_be_val_zero_iff(s: Seq<u8>)
    ensures
        be_val(s) == 0 <==> (forall|i: int| 0 <= i < s.len() ==> s[i] == 0),
    decreases s.len(),
{
    if s.len() > 0 {
        let dl = s.drop_last();
        lemma_be_val_zero_iff(dl);
        assert(forall|i: int| 0 <= i < dl.len() ==> #[trigger] dl[i] == s[i]);
        if be_val(s) == 0 {
            assert(be_val(dl) * 256 + s.last() == 0);
            assert(be_val(dl) == 0);
            assert forall|i: int| 0 <= i < s.len() implies s[i] == 0 by {
                if i < s.len() - 1 {
                    assert(dl[i] == 0);
                } else {
                    assert(s[i] == s.last());
                }
            }
        } else {
            if forall|i: int| 0 <= i < s.len() ==> s[i] == 0 {
                assert(forall|i: int| 0 <= i < dl.len() ==> #[trigger] dl[i] == 0);
                assert(be_val(dl) == 0);
                assert(s.last() == s[s.len() - 1]);
                assert(false);
            }
        }
    }
}

/// Appending a byte multiplies the value by 256 and adds the byte.
pub proof fn lemma_be_val_snoc(s: Seq<u8>, b: u8)
    ensures
        be_val(s.push(b)) == be_val(s) * 256 + b,
{
    assert(s.push(b).drop_last() =~= s);
    assert(s.push(b).last() == b);
}

/// Prepending a byte adds it at the most significant position.
pub proof fn lemma_be_val_cons(b: u8, t: Seq<u8>)
    ensures
        be_val(seq![b].add(t)) == b * pow256(t.len()) + be_val(t),
    decreases t.len(),
{
    let s = seq![b].add(t);
    if t.len() == 0 {
        assert(s =~= seq![b]);
        assert(s.drop_last() =~= Seq::<u8>::empty());
        assert(be_val(s.drop_last()) == 0);
        assert(be_val(s) == be_val(s.drop_last()) * 256 + s.last());
        assert(s.last() == b);
        assert(pow256(0) == 1);
        assert(be_val(t) == 0);
    } else {
        lemma_be_val_cons(b, t.drop_last());
        assert(s.drop_last() =~= seq![b].add(t.drop_last()));
        assert(s.last() == t.last());
        let n = t.len();
        let p = pow256((n - 1) as nat);
        let q = be_val(t.drop_last());
        assert(be_val(s) == (b * p + q) * 256 + t.last());
        assert((b * p + q) * 256 == b * (256 * p) + q * 256) by (nonlinear_arith);
        assert(pow256(n) == 256 * p);
        assert(be_val(t) == q * 256 + t.last());
    }
}

/// Leading zero bytes do not change the value.
pub proof fn lemma_be_val_zero_prefix(z: Seq<u8>, t: Seq<u8>)
    requires
        forall|i: int| 0 <= i < z.len() ==> z[i] == 0,
    ensures
        be_val(z.add(t)) == be_val(t),
    decreases t.len(),
{
    if t.len() == 0 {
        assert(z.add(t) =~= z);
        lemma_be_val_zero_iff(z);
    } else {
        lemma_be_val_zero_prefix(z, t.drop_last());
        assert(z.add(t).drop_last() =~= z.add(t.drop_last()));
        assert(z.add(t).last() == t.last());
    }
}

/// A nonzero byte at position `i` forces the value up to the weight of
/// that position.
pub proof fn lemma_be_val_nonzero_byte(s: Seq<u8>, i: int)
    requires
        0 <= i < s.len(),
        s[i] != 0,
    ensures
        be_val(s) >= pow256((s.len() - 1 - i) as nat),
    decreases s.len(),
{
    if i == s.len() - 1 {
    } else {
        assert(s.drop_last()[i] == s[i]);
        lemma_be_val_nonzero_byte(s.drop_last(), i);
    }
}

/// Powers of 256 are monotone.
pub proof fn lemma_pow256_le(a: nat, b: nat)
    requires
        a <= b,
    ensures
        pow256(a) <= pow256(b),
    decreases b,
{
    if a < b {
        lemma_pow256_le(a, (b - 1) as nat);
        assert(pow256((b - 1) as nat) >= 1) by {
            lemma_pow256_le(0, (b - 1) as nat);
        }
    }
}

/// The weight of one whole word: 256^8 is 2^64.
pub proof fn lemma_pow256_8()
    ensures
        pow256(8) == 0x1_0000_0000_0000_0000,
{
    reveal_with_fuel(pow256, 9);
}

/// A 256-bit unsigned word, stored big-endian.
#[derive(Debug, Clone, PartialEq, Eq)]
pub struct Word {
    bytes: Vec<u8>,
}

impl View for Word {
    type V = Seq<u8>;

    closed spec fn view(&self) -> Seq<u8> {
        self.bytes@
    }
}

impl Word {
    /// A word always holds exactly 32 bytes.
    pub open spec fn wf(&self) -> bool {
        self@.len() == WORD_BYTES
    }

    /// The word's numeric value.
    pub open spec fn val(&self) -> nat {
        be_val(self@)
    }

    /// The all-zero word.
    pub fn zero() -> (r: Word)
        ensures
            r.wf(),
            forall|i: int| 0 <= i < 32 ==> r@[i] == 0,
            r.val() == 0,
    {
        let mut bytes: Vec<u8> = Vec::with_capacity(WORD_BYTES);
        for k in 0..WORD_BYTES
            invariant
                bytes@.len() == k,
                forall|i: int| 0 <= i < k ==> bytes@[i] == 0,
        {
            bytes.push(0u8);
        }
        let w = Word { bytes };
        proof {
            lemma_be_val_zero_iff(w@);
        }
        w
    }

    /// Build a word from at most 32 big-endian bytes, zero-extended on
    /// the left; the numeric value is exactly the value of the bytes.
    pub fn from_be_bytes(data: &Vec<u8>) -> (r: Word)
        requires
            data@.len() <= WORD_BYTES,
        ensures
            r.wf(),
            r@ == Seq::new((WORD_BYTES - data@.len()) as nat, |i: int| 0u8).add(data@),
            r.val() == be_val(data@),
    {
        let pad = WORD_BYTES - data.len();
        let mut bytes: Vec<u8> = Vec::with_capacity(WORD_BYTES);
        for k in 0..pad
            invariant
                pad == WORD_BYTES - data@.len(),
                bytes@.len() == k,
                forall|i: int| 0 <= i < k ==> bytes@[i] == 0,
        {
            bytes.push(0u8);
        }
        let mut j: usize = 0;
        while j < data.len()
            invariant
                pad == WORD_BYTES - data@.len(),
                j <= data@.len(),
                bytes@.len() == pad + j,
                forall|i: int| 0 <= i < pad ==> bytes@[i] == 0,
                forall|i: int| 0 <= i < j ==> bytes@[pad + i] == data@[i],
            decreases data@.len() - j,
        {
            bytes.push(data[j]);
            j = j + 1;
        }
        let w = Word { bytes };
        proof {
            let z = Seq::new((WORD_BYTES - data@.len()) as nat, |i: int| 0u8);
            assert(w@ =~= z.add(data@));
            lemma_be_val_zero_prefix(z, data@);
        }
        w
    }

    /// Build a word holding the value of a 64-bit integer.
    pub fn from_u64(v: u64) -> (r: Word)
        ensures
            r.wf(),
            r.val() == v,
    {
        let mut bytes: Vec<u8> = Vec::with_capacity(WORD_BYTES);
        for k in 0..WORD_BYTES
            invariant
                bytes@.len() == k,
                forall|i: int| 0 <= i < k ==> bytes@[i] == 0,
        {
            bytes.push(0u8);
        }
        let mut x = v;
        let mut i: usize = 0;
        proof {
            lemma_pow256_8();
            assert(pow256(0) == 1);
            assert(v as nat / 1 == v as nat);
        }
        while i < 8
            invariant
                i <= 8,
                bytes@.len() == 32,
                x == v as nat / pow256(i as nat),
                forall|j: int| 0 <= j < 32 - i ==> bytes@[j] == 0,
                be_val(bytes@.skip(32 - i)) == v as nat % pow256(i as nat),
                pow256(8) == 0x1_0000_0000_0000_0000,
            decreases 8 - i,
        {
            let ghost old_bytes = bytes@;
            let ghost p = pow256(i as nat);
            let b = (x % 256) as u8;
            bytes.set(31 - i, b);
            proof {
                assert(bytes@.skip(31 - i as int) =~= seq![b].add(old_bytes.skip(32 - i as int)));
                lemma_be_val_cons(b, old_bytes.skip(32 - i as int));
                // x % 256 == (v / 256^i) % 256, and the suffix held v % 256^i;
                // together they form v % 256^(i+1).
                lemma_pow256_le(0, i as nat);
                lemma_mod_breakdown(v as int, p as int, 256);
                assert(pow256((i + 1) as nat) == p * 256);
                assert(be_val(bytes@.skip(32 - (i + 1) as int))
                    == v as nat % pow256((i + 1) as nat));
            }
            x = x / 256;
            proof {
                lemma_div_denominator(v as int, p as int, 256);
            }
            i = i + 1;
        }
        let w = Word { bytes };
        proof {
            let z = w@.take(24);
            assert(forall|j: int| 0 <= j < 24 ==> z[j] == 0);
            assert(w@ =~= z.add(w@.skip(24)));
            lemma_be_val_zero_prefix(z, w@.skip(24));
            assert(v as nat % pow256(8) == v) by {
                assert(v < pow256(8));
            }
        }
        w
    }

    /// The word's value as a 64-bit integer, when it fits; `None` exactly
    /// when the value exceeds `u64::MAX`.
    pub fn to_u64(&self) -> (r: Option<u64>)
        requires
            self.wf(),
        ensures
            match r {
                Some(v) => v == self.val(),
                None => self.val() > u64::MAX,
            },
    {
        proof {
            lemma_pow256_8();
        }
        let mut i: usize = 0;
        while i < 24
            invariant
                self.wf(),
                i <= 24,
                forall|j: int| 0 <= j < i ==> self@[j] == 0,
                pow256(8) == 0x1_0000_0000_0000_0000,
            decreases 24 - i,
        {
            if *self.byte_at(i) != 0 {
                proof {
                    lemma_be_val_nonzero_byte(self@, i as int);
                    lemma_pow256_le(8, (31 - i) as nat);
                }
                return None;
            }
            i = i + 1;
        }
        let mut acc: u64 = 0;
        let mut j: usize = 24;
        while j < 32
            invariant
                self.wf(),
                24 <= j <= 32,
                acc == be_val(self@.subrange(24, j as int)),
                acc < pow256((j - 24) as nat),
                pow256(8) == 0x1_0000_0000_0000_0000,
            decreases 32 - j,
        {
            let b = *self.byte_at(j);
            proof {
                lemma_pow256_le((j - 24) as nat, 7);
                lemma_pow256_le(7, 7);
                reveal_with_fuel(pow256, 9);
                assert(acc < pow256(7));
                assert(self@.subrange(24, j + 1).drop_last() =~= self@.subrange(24, j as int));
                assert(self@.subrange(24, j + 1).last() == self@[j as int]);
            }
            acc = acc * 256 + (b as u64);
            j = j + 1;
        }
        proof {
            let z = self@.take(24);
            assert(forall|k: int| 0 <= k < 24 ==> z[k] == 0);
            assert(self@ =~= z.add(self@.skip(24)));
            lemma_be_val_zero_prefix(z, self@.skip(24));
            assert(self@.skip(24) =~= self@.subrange(24, 32));
        }
        Some(acc)
    }

    /// Read one byte of the word.
    pub fn byte_at(&self, i: usize) -> (r: &u8)
        requires
            self.wf(),
            i < WORD_BYTES,
        ensures
            *r == self@[i as int],
    {
        &self.bytes[i]
    }

    /// Whether the word is zero.
    pub fn is_zero(&self) -> (r: bool)
        requires
            self.wf(),
        ensures
            r == (self.val() == 0),
    {
        let mut i: usize = 0;
        while i < 32
            invariant
                self.wf(),
                i <= 32,
                forall|j: int| 0 <= j < i ==> self@[j] == 0,
            decreases 32 - i,
        {
            if *self.byte_at(i) != 0 {
                proof {
                    lemma_be_val_zero_iff(self@);
                }
                return false;
            }
            i = i + 1;
        }
        proof {
            lemma_be_val_zero_iff(self@);
        }
        true
    }

    /// An exact copy of the word.
    pub fn duplicate(&self) -> (r: Word)
        ensures
            r@ == self@,
    {
        let bytes = self.bytes.clone();
        proof {
            assert(bytes@ =~= self.bytes@);
        }
        Word { bytes }
    }

    /// Structural equality of two words.
    pub fn eq_word(&self, other: &Word) -> (r: bool)
        requires
            self.wf(),
            other.wf(),
        ensures
            r == (self@ == other@),
    {
        let mut i: usize = 0;
        while i < 32
            invariant
                self.wf(),
                other.wf(),
                i <= 32,
                forall|j: int| 0 <= j < i ==> self@[j] == other@[j],
            decreases 32 - i,
        {
            if *self.byte_at(i) != *other.byte_at(i) {
                return false;
            }
            i = i + 1;
        }
        proof {
            assert(self@ =~= other@);
        }
        true
    }
}

} // verus!
