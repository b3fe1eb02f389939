//! The bytecode invocation context: the locked code being run together
//! with the parameters of the call that runs it.

use vstd::prelude::*;
use crate::analysis::{analyze, BytecodeLocked, CODE_PADDING};
use crate::result::InstructionResult;
use crate::word::Word;
use crate::MAX_INITCODE_SIZE;

verus! {

/// A 160-bit account address.
pub struct Address {
    pub bytes: Vec<u8>,
}

impl View for Address {
    type V = Seq<u8>;

    open spec fn view(&self) -> Seq<u8> {
        self.bytes@
    }
}

impl Address {
    /// An address always holds exactly 20 bytes.
    pub open spec fn wf(&self) -> bool {
        self@.len() == 20
    }

    /// The all-zero address.
    pub fn zero() -> (r: Address)
        ensures
            r.wf(),
            forall|i: int| 0 <= i < 20 ==> r@[i] == 0,
    {
        let mut bytes: Vec<u8> = Vec::with_capacity(20);
        let mut i: usize = 0;
        while i < 20
            invariant
                bytes@.len() == i,
                i <= 20,
                forall|j: int| 0 <= j < i ==> bytes@[j] == 0,
            decreases 20 - i,
        {
            bytes.push(0u8);
            i = i + 1;
        }
        Address { bytes }
    }
}

/// Immutable invocation context: the analyzed code, the input payload,
/// the identities of caller and callee, and the value transferred.
/// Never mutated after construction.
pub struct Contract {
    /// Input payload of the call.
    pub input: Vec<u8>,
    /// The analyzed, locked code.
    pub bytecode: BytecodeLocked,
    /// Address the code runs at.
    pub address: Address,
    /// Address of the caller.
    pub caller: Address,
    /// Value transferred with the call.
    pub value: Word,
}

impl Contract {
    pub open spec fn wf(&self) -> bool {
        &&& self.bytecode.wf()
        &&& self.address.wf()
        &&& self.caller.wf()
        &&& self.value.wf()
    }

    /// Wrap already-analyzed code. Infallible.
    pub fn new(
        input: Vec<u8>,
        bytecode: BytecodeLocked,
        address: Address,
        caller: Address,
        value: Word,
    ) -> (r: Contract)
        requires
            bytecode.wf(),
            address.wf(),
            caller.wf(),
            value.wf(),
        ensures
            r.wf(),
            r.input == input,
            r.bytecode == bytecode,
            r.address == address,
            r.caller == caller,
            r.value == value,
    {
        Contract { input, bytecode, address, caller, value }
    }

    /// Analyze raw code and wrap it. Fails with `CodeSizeLimit`, exactly
    /// when the raw code exceeds the initialization-code ceiling; this
    /// is the only way construction can fail.
    pub fn new_raw(
        input: Vec<u8>,
        code: Vec<u8>,
        address: Address,
        caller: Address,
        value: Word,
    ) -> (r: Result<Contract, InstructionResult>)
        requires
            address.wf(),
            caller.wf(),
            value.wf(),
        ensures
            match r {
                Ok(c) => {
                    &&& code@.len() <= MAX_INITCODE_SIZE
                    &&& c.wf()
                    &&& c.bytecode.original_len == code@.len()
                    &&& c.bytecode.orig() == code@
                    &&& c.input == input
                    &&& c.address == address
                    &&& c.caller == caller
                    &&& c.value == value
                },
                Err(e) => {
                    &&& e == InstructionResult::CodeSizeLimit
                    &&& code@.len() > MAX_INITCODE_SIZE
                },
            },
    {
        if code.len() > MAX_INITCODE_SIZE {
            return Err(InstructionResult::CodeSizeLimit);
        }
        proof {
            assert(MAX_INITCODE_SIZE + CODE_PADDING <= usize::MAX);
        }
        let bytecode = analyze(code);
        Ok(Contract { input, bytecode, address, caller, value })
    }
}

} // verus!
