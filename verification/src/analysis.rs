//! Bytecode analysis: the one-time pass that locks raw code into an
//! execution-ready form, padding it with terminating stop bytes and
//! computing the set of valid jump destinations.

use vstd::prelude::*;
use vstd::pervasive::VecAdditionalExecFns;

verus! {

pub const OP_STOP: u8 = 0x00;
pub const OP_POP: u8 = 0x50;
pub const OP_JUMP: u8 = 0x56;
pub const OP_JUMPI: u8 = 0x57;
pub const OP_PC: u8 = 0x58;
pub const OP_MSIZE: u8 = 0x59;
pub const OP_GAS: u8 = 0x5a;
pub const OP_JUMPDEST: u8 = 0x5b;
pub const OP_PUSH1: u8 = 0x60;
pub const OP_PUSH32: u8 = 0x7f;
pub const OP_DUP1: u8 = 0x80;
pub const OP_DUP16: u8 = 0x8f;
pub const OP_SWAP1: u8 = 0x90;
pub const OP_SWAP16: u8 = 0x9f;
pub const OP_CALL: u8 = 0xf1;
pub const OP_RETURN: u8 = 0xf3;
pub const OP_REVERT: u8 = 0xfd;

/// Stop bytes appended to the code so the cursor can never run off the
/// buffer, even past a trailing push instruction's operand.
pub const CODE_PADDING: usize = 33;

/// Number of immediate operand bytes that follow opcode `op`.
pub open spec fn spec_imm_len(op: u8) -> nat {
    if OP_PUSH1 <= op <= OP_PUSH32 {
        (op - OP_PUSH1 + 1) as nat
    } else {
        0
    }
}

/// The valid jump destinations of `code` reachable by scanning
/// instruction boundaries from offset `i`: every `JUMPDEST` byte that
/// stands at a boundary. Bytes inside a push instruction's immediate
/// operand are skipped and never marked.
pub open spec fn jump_dests_from(code: Seq<u8>, i: nat) -> Set<nat>
    decreases code.len() - i,
{
    if i >= code.len() {
        Set::empty()
    } else {
        let next = i + 1 + spec_imm_len(code[i as int]);
        let rest = if next <= code.len() {
            jump_dests_from(code, next as nat)
        } else {
            Set::<nat>::empty()
        };
        if code[i as int] == OP_JUMPDEST {
            rest.insert(i)
        } else {
            rest
        }
    }
}

/// The valid jump destinations of the whole program.
pub open spec fn spec_jump_dests(code: Seq<u8>) -> Set<nat> {
    jump_dests_from(code, 0)
}

/// Whether offset `t` lies inside the immediate operand of a push
/// instruction, scanning boundaries from offset `i`.
pub open spec fn spec_in_push_data(code: Seq<u8>, i: nat, t: nat) -> bool
    decreases code.len() - i,
{
    if i >= code.len() {
        false
    } else {
        let next = i + 1 + spec_imm_len(code[i as int]);
        if i < t && t < next {
            true
        } else if next <= code.len() && t >= next {
            spec_in_push_data(code, next as nat, t)
        } else {
            false
        }
    }
}

/// Every member of the destination set lies at or past the scan start.
proof fn lemma_dests_ge(code: Seq<u8>, i: nat)
    ensures
        forall|t: nat| #[trigger] jump_dests_from(code, i).contains(t) ==> t >= i,
    decreases code.len() - i,
{
    if i < code.len() {
        let next = i + 1 + spec_imm_len(code[i as int]);
        if next <= code.len() {
            lemma_dests_ge(code, next as nat);
        }
        assert forall|t: nat| jump_dests_from(code, i).contains(t) implies t >= i by {
            if t != i {
                if next <= code.len() {
                    assert(jump_dests_from(code, next as nat).contains(t));
                }
            }
        }
    }
}

/// A member of the destination set is a `JUMPDEST` byte of the code at
/// or past the scan start.
proof fn lemma_dest_member(code: Seq<u8>, i: nat, t: nat)
    requires
        jump_dests_from(code, i).contains(t),
    ensures
        i <= t < code.len(),
        code[t as int] == OP_JUMPDEST,
    decreases code.len() - i,
{
    if i >= code.len() {
        assert(false);
    } else {
        let next = i + 1 + spec_imm_len(code[i as int]);
        if code[i as int] == OP_JUMPDEST && t == i {
        } else {
            assert(next <= code.len() && jump_dests_from(code, next as nat).contains(t));
            lemma_dest_member(code, next as nat, t);
        }
    }
}

/// A valid jump destination always lies inside the code.
pub proof fn lemma_dests_bound(code: Seq<u8>, t: nat)
    ensures
        spec_jump_dests(code).contains(t) ==> t < code.len(),
{
    if jump_dests_from(code, 0).contains(t) {
        lemma_dest_member(code, 0, t);
    }
}

/// Every member of the destination set is a `JUMPDEST` byte inside the
/// code.
proof fn lemma_dests_are_jumpdests(code: Seq<u8>, i: nat)
    ensures
        forall|t: nat| #[trigger] jump_dests_from(code, i).contains(t)
            ==> t < code.len() && code[t as int] == OP_JUMPDEST,
{
    assert forall|t: nat| #[trigger] jump_dests_from(code, i).contains(t)
        implies t < code.len() && code[t as int] == OP_JUMPDEST by {
        lemma_dest_member(code, i, t);
    }
}

/// A byte inside a push instruction's immediate operand is never a
/// valid jump destination, whatever its value.
pub proof fn lemma_push_data_never_jump_dest(code: Seq<u8>, i: nat, t: nat)
    requires
        spec_in_push_data(code, i, t),
    ensures
        !jump_dests_from(code, i).contains(t),
    decreases code.len() - i,
{
    let next = i + 1 + spec_imm_len(code[i as int]);
    if i < t && t < next {
        // `t` is an operand byte of the (push) instruction at `i`: the
        // scan skips straight past it.
        assert(code[i as int] != OP_JUMPDEST);
        if next <= code.len() {
            lemma_dests_ge(code, next as nat);
            assert(!jump_dests_from(code, next as nat).contains(t));
        }
    } else {
        lemma_push_data_never_jump_dest(code, next as nat, t);
        if code[i as int] == OP_JUMPDEST {
            assert(t >= next);
        }
    }
}

/// Scanning an all-stop region yields no destinations.
proof fn lemma_dests_all_stop(code: Seq<u8>, i: nat)
    requires
        forall|j: int| i <= j < code.len() ==> code[j] == OP_STOP,
    ensures
        jump_dests_from(code, i) =~= Set::<nat>::empty(),
    decreases code.len() - i,
{
    if i < code.len() {
        lemma_dests_all_stop(code, i + 1);
    }
}

/// Appending stop-byte padding to a program never changes its jump
/// destinations: offsets marked before the padding are marked after it,
/// at the same positions, and the padding contributes none.
pub proof fn lemma_padding_preserves_jump_dests(code: Seq<u8>, pad: Seq<u8>, i: nat)
    requires
        forall|j: int| 0 <= j < pad.len() ==> pad[j] == OP_STOP,
        i <= code.len(),
    ensures
        jump_dests_from(code.add(pad), i) =~= jump_dests_from(code, i),
    decreases code.len() + pad.len() - i,
{
    let full = code.add(pad);
    if i >= full.len() {
    } else if i >= code.len() {
        assert(forall|j: int| i <= j < full.len() ==> full[j] == OP_STOP);
        lemma_dests_all_stop(full, i);
    } else {
        assert(full[i as int] == code[i as int]);
        let next = i + 1 + spec_imm_len(code[i as int]);
        if next <= code.len() {
            lemma_padding_preserves_jump_dests(code, pad, next as nat);
        } else {
            // The instruction at `i` overhangs the end of the code: the
            // unpadded scan stops, and the padded scan continues into
            // all-stop territory, which contributes nothing.
            if next <= full.len() {
                assert(forall|j: int| next <= j < full.len() ==> full[j] == OP_STOP);
                lemma_dests_all_stop(full, next as nat);
            }
            assert(code[i as int] != OP_JUMPDEST);
        }
    }
}

/// Code locked for execution: the original bytes, stop-padded so the
/// cursor can never read past the buffer, plus the table of valid jump
/// destinations computed once by [`analyze`].
pub struct BytecodeLocked {
    /// The padded code buffer.
    pub bytecode: Vec<u8>,
    /// Length of the original, unpadded code.
    pub original_len: usize,
    /// One flag per original byte: `true` exactly on valid jump
    /// destinations.
    pub jumpdests: Vec<bool>,
}

impl BytecodeLocked {
    /// The original, unpadded code.
    pub open spec fn orig(&self) -> Seq<u8> {
        self.bytecode@.subrange(0, self.original_len as int)
    }

    /// The padded buffer view.
    pub open spec fn code(&self) -> Seq<u8> {
        self.bytecode@
    }

    /// Locked-code invariant: the buffer is the original code followed
    /// by stop padding, and the table matches the destination set of the
    /// original code.
    pub open spec fn wf(&self) -> bool {
        &&& self.original_len + CODE_PADDING <= usize::MAX
        &&& self.bytecode@.len() == self.original_len + CODE_PADDING
        &&& forall|j: int|
            self.original_len <= j < self.bytecode@.len() ==> self.bytecode@[j] == OP_STOP
        &&& self.jumpdests@.len() == self.original_len
        &&& forall|p: int| 0 <= p < self.original_len
            ==> self.jumpdests@[p] == spec_jump_dests(self.orig()).contains(p as nat)
    }

    /// Length of the padded buffer.
    pub fn len(&self) -> (r: usize)
        ensures
            r == self.code().len(),
    {
        self.bytecode.len()
    }

    /// Length of the original code.
    pub fn orig_len(&self) -> (r: usize)
        ensures
            r == self.original_len,
    {
        self.original_len
    }

    /// The opcode byte at `pc`.
    pub fn opcode_at(&self, pc: usize) -> (r: u8)
        requires
            pc < self.code().len(),
        ensures
            r == self.code()[pc as int],
    {
        self.bytecode[pc]
    }

    /// Copy `n` bytes of code starting at `start` (used to read push
    /// immediates).
    pub fn code_slice(&self, start: usize, n: usize) -> (r: Vec<u8>)
        requires
            start + n <= self.code().len(),
        ensures
            r@ == self.code().subrange(start as int, start + n),
    {
        let m = self.bytecode.len();
        let mut out: Vec<u8> = Vec::with_capacity(n);
        let mut i: usize = 0;
        while i < n
            invariant
                m == self.code().len(),
                start + n <= m,
                i <= n,
                out@.len() == i,
                forall|j: int| 0 <= j < i ==> out@[j] == self.code()[start + j],
            decreases n - i,
        {
            out.push(self.bytecode[start + i]);
            i = i + 1;
        }
        proof {
            assert(out@ =~= self.code().subrange(start as int, start + n));
        }
        out
    }

    /// Whether `pc` is a valid jump target: inside the original code and
    /// marked in the destination table.
    pub fn is_valid_jump_dest(&self, pc: usize) -> (r: bool)
        requires
            self.wf(),
        ensures
            r == spec_jump_dests(self.orig()).contains(pc as nat),
    {
        if pc < self.original_len {
            self.jumpdests[pc]
        } else {
            proof {
                lemma_dests_are_jumpdests(self.orig(), 0);
            }
            false
        }
    }
}

/// Analyze raw code: append stop padding and compute the valid jump
/// destinations in one linear scan, skipping push immediates so that no
/// byte inside an operand is ever marked.
pub fn analyze(code: Vec<u8>) -> (r: BytecodeLocked)
    requires
        code@.len() + CODE_PADDING <= usize::MAX,
    ensures
        r.wf(),
        r.original_len == code@.len(),
        r.orig() == code@,
{
    let n = code.len();
    let ghost orig = code@;

    let mut table: Vec<bool> = Vec::with_capacity(n);
    let mut k: usize = 0;
    while k < n
        invariant
            table@.len() == k,
            k <= n,
            forall|p: int| 0 <= p < k ==> table@[p] == false,
        decreases n - k,
    {
        table.push(false);
        k = k + 1;
    }

    let mut i: usize = 0;
    while i < n
        invariant
            n == orig.len(),
            code@ == orig,
            table@.len() == n,
            i <= usize::MAX,
            forall|p: int| i <= p < n ==> table@[p] == false,
            forall|p: nat| spec_jump_dests(orig).contains(p)
                <==> ((p < i && p < n && table@[p as int]) || jump_dests_from(orig, i as nat).contains(p)),
            forall|p: int| 0 <= p < n && table@[p]
                ==> spec_jump_dests(orig).contains(p as nat),
        decreases n - i,
    {
        let op = code[i];
        proof {
            lemma_dests_ge(orig, (i + 1) as nat);
        }
        if op == OP_JUMPDEST {
            table.set(i, true);
            i = i + 1;
        } else if OP_PUSH1 <= op && op <= OP_PUSH32 {
            let imm = (op - OP_PUSH1 + 1) as usize;
            proof {
                let next = i + 1 + spec_imm_len(op);
                if next <= orig.len() {
                    lemma_dests_ge(orig, next as nat);
                }
            }
            if imm <= n - 1 - i {
                i = i + 1 + imm;
            } else {
                i = n;
            }
        } else {
            i = i + 1;
        }
    }

    let mut bytecode = code;
    proof {
        assert(bytecode@.subrange(0, orig.len() as int) =~= orig);
    }
    let mut j: usize = 0;
    while j < CODE_PADDING
        invariant
            bytecode@.len() == orig.len() + j,
            bytecode@.subrange(0, orig.len() as int) == orig,
            forall|q: int| orig.len() <= q < bytecode@.len() ==> bytecode@[q] == OP_STOP,
            j <= CODE_PADDING,
            orig.len() + CODE_PADDING <= usize::MAX,
        decreases CODE_PADDING - j,
    {
        let ghost prev = bytecode@;
        bytecode.push(OP_STOP);
        proof {
            assert(bytecode@.subrange(0, orig.len() as int)
                =~= prev.subrange(0, orig.len() as int));
        }
        j = j + 1;
    }

    let r = BytecodeLocked { bytecode, original_len: n, jumpdests: table };
    proof {
        assert(r.orig() =~= orig);
    }
    r
}

} // verus!
