//! Execution log entries emitted by contracts.

use vstd::prelude::*;
use crate::contract::Address;
use crate::word::Word;

verus! {

/// One log entry: the emitting address, its topic words and its data
/// payload.
pub struct Log {
    /// Address the entry was emitted from.
    pub address: Address,
    /// Topic words of the entry.
    pub topics: Vec<Word>,
    /// Data payload.
    pub data: Vec<u8>,
}

impl Log {
    pub open spec fn wf(&self) -> bool {
        &&& self.address.wf()
        &&& forall|i: int| 0 <= i < self.topics@.len() ==> (#[trigger] self.topics@[i]).wf()
    }

    /// Approximate memory footprint of the entry: the topic payloads
    /// plus the fixed size of the record itself.
    pub fn size(&self) -> (r: usize)
        requires
            self.topics@.len() * 32 + vstd::layout::size_of::<Log>() <= usize::MAX,
        ensures
            r == self.topics@.len() * 32 + vstd::layout::size_of::<Log>(),
    {
        self.topics.len() * 32 + core::mem::size_of::<Log>()
    }
}

} // verus!
