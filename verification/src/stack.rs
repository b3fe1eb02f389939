//! The operand stack: a fixed-capacity stack of machine words.

use vstd::prelude::*;
use vstd::pervasive::VecAdditionalExecFns;
use crate::result::InstructionResult;
use crate::word::Word;
use crate::STACK_LIMIT;

verus! {

/// The operand stack. Holds at most [`STACK_LIMIT`] words; all its
/// capacity is reserved at construction so no reallocation happens
/// mid-run. The view is the sequence of word views, bottom first.
pub struct Stack {
    data: Vec<Word>,
}

impl View for Stack {
    type V = Seq<Seq<u8>>;

    closed spec fn view(&self) -> Seq<Seq<u8>> {
        self.data@.map_values(|w: Word| w@)
    }
}

/// What a push does to the stack model: appends on success, refuses
/// beyond capacity.
pub open spec fn spec_push(s: Seq<Seq<u8>>, w: Seq<u8>) -> (Seq<Seq<u8>>, bool) {
    if s.len() < STACK_LIMIT {
        (s.push(w), true)
    } else {
        (s, false)
    }
}

/// What a pop does to the stack model: removes and yields the top,
/// refuses on empty.
pub open spec fn spec_pop(s: Seq<Seq<u8>>) -> (Seq<Seq<u8>>, Option<Seq<u8>>) {
    if s.len() > 0 {
        (s.drop_last(), Some(s.last()))
    } else {
        (s, None)
    }
}

impl Stack {
    /// Every element is a well-formed word and the capacity bound holds.
    pub open spec fn wf(&self) -> bool {
        &&& self@.len() <= STACK_LIMIT
        &&& forall|i: int| 0 <= i < self@.len() ==> (#[trigger] self@[i]).len() == 32
    }

    /// A fresh, empty stack with its full capacity reserved.
    pub fn new() -> (r: Stack)
        ensures
            r.wf(),
            r@ == Seq::<Seq<u8>>::empty(),
    {
        let r = Stack { data: Vec::with_capacity(STACK_LIMIT) };
        proof {
            assert(r@ =~= Seq::<Seq<u8>>::empty());
        }
        r
    }

    /// Current number of words on the stack.
    pub fn len(&self) -> (r: usize)
        ensures
            r == self@.len(),
    {
        self.data.len()
    }

    /// Push a word on top. Fails with `StackOverflow`, mutating nothing,
    /// when the stack already holds its capacity.
    pub fn push(&mut self, w: Word) -> (r: Result<(), InstructionResult>)
        requires
            old(self).wf(),
            w.wf(),
        ensures
            final(self).wf(),
            (final(self)@, r is Ok) == spec_push(old(self)@, w@),
            r is Err ==> r == Err::<(), InstructionResult>(InstructionResult::StackOverflow),
    {
        if self.data.len() < STACK_LIMIT {
            self.data.push(w);
            proof {
                assert(self@ =~= old(self)@.push(w@));
            }
            Ok(())
        } else {
            Err(InstructionResult::StackOverflow)
        }
    }

    /// Pop the top word. Fails with `StackUnderflow`, mutating nothing,
    /// on an empty stack.
    pub fn pop(&mut self) -> (r: Result<Word, InstructionResult>)
        requires
            old(self).wf(),
        ensures
            final(self).wf(),
            match r {
                Ok(w) => {
                    &&& w.wf()
                    &&& (final(self)@, Some(w@)) == spec_pop(old(self)@)
                },
                Err(e) => {
                    &&& e == InstructionResult::StackUnderflow
                    &&& old(self)@.len() == 0
                    &&& final(self)@ == old(self)@
                },
            },
    {
        match self.data.pop() {
            Some(w) => {
                proof {
                    assert(self@ =~= old(self)@.drop_last());
                    assert(old(self)@.last() == w@);
                }
                Ok(w)
            },
            None => Err(InstructionResult::StackUnderflow),
        }
    }

    /// Read the word `depth` entries below the top (`peek(0)` is the
    /// top). Fails with `StackUnderflow` when the stack is too shallow.
    pub fn peek(&self, depth: usize) -> (r: Result<Word, InstructionResult>)
        requires
            self.wf(),
        ensures
            match r {
                Ok(w) => {
                    &&& depth < self@.len()
                    &&& w.wf()
                    &&& w@ == self@[self@.len() - 1 - depth]
                },
                Err(e) => {
                    &&& e == InstructionResult::StackUnderflow
                    &&& depth >= self@.len()
                },
            },
    {
        if depth < self.data.len() {
            let i = self.data.len() - 1 - depth;
            let w = self.data[i].duplicate();
            proof {
                assert(self@[i as int] == self.data@[i as int]@);
            }
            Ok(w)
        } else {
            Err(InstructionResult::StackUnderflow)
        }
    }

    /// Overwrite the word `depth` entries below the top. Fails with
    /// `StackUnderflow`, mutating nothing, when the stack is too shallow.
    pub fn set(&mut self, depth: usize, w: Word) -> (r: Result<(), InstructionResult>)
        requires
            old(self).wf(),
            w.wf(),
        ensures
            final(self).wf(),
            match r {
                Ok(()) => {
                    &&& depth < old(self)@.len()
                    &&& final(self)@ == old(self)@.update(old(self)@.len() - 1 - depth, w@)
                },
                Err(e) => {
                    &&& e == InstructionResult::StackUnderflow
                    &&& depth >= old(self)@.len()
                    &&& final(self)@ == old(self)@
                },
            },
    {
        if depth < self.data.len() {
            let i = self.data.len() - 1 - depth;
            self.data.set(i, w);
            proof {
                assert(self@ =~= old(self)@.update(old(self)@.len() - 1 - depth, w@));
            }
            Ok(())
        } else {
            Err(InstructionResult::StackUnderflow)
        }
    }
}

/// The stack model after pushing each element of `ws` in order.
pub open spec fn spec_push_all(s: Seq<Seq<u8>>, ws: Seq<Seq<u8>>) -> Seq<Seq<u8>>
    decreases ws.len(),
{
    if ws.len() == 0 {
        s
    } else {
        spec_push_all(spec_push(s, ws[0]).0, ws.skip(1))
    }
}

/// The values yielded by `n` pops from the stack model, in pop order,
/// together with the remaining stack.
pub open spec fn spec_pop_all(s: Seq<Seq<u8>>, n: nat) -> (Seq<Seq<u8>>, Seq<Seq<u8>>)
    decreases n,
{
    if n == 0 {
        (Seq::empty(), s)
    } else {
        let (rest, top) = spec_pop(s);
        let (popped, left) = spec_pop_all(rest, (n - 1) as nat);
        (seq![top.unwrap_or(Seq::empty())].add(popped), left)
    }
}

/// Pushing all of `ws` onto a stack with room for it appends it.
proof fn lemma_push_all_appends(s: Seq<Seq<u8>>, ws: Seq<Seq<u8>>)
    requires
        s.len() + ws.len() <= STACK_LIMIT,
    ensures
        spec_push_all(s, ws) == s.add(ws),
    decreases ws.len(),
{
    if ws.len() == 0 {
        assert(spec_push_all(s, ws) =~= s.add(ws));
    } else {
        lemma_push_all_appends(s.push(ws[0]), ws.skip(1));
        assert(s.push(ws[0]).add(ws.skip(1)) =~= s.add(ws));
    }
}

/// Popping everything off a stack yields its contents in reverse and
/// leaves it empty.
proof fn lemma_pop_all_reverses(s: Seq<Seq<u8>>)
    ensures
        spec_pop_all(s, s.len()) == (s.reverse(), Seq::<Seq<u8>>::empty()),
    decreases s.len(),
{
    if s.len() == 0 {
        assert(s.reverse() =~= Seq::<Seq<u8>>::empty());
    } else {
        lemma_pop_all_reverses(s.drop_last());
        assert(seq![s.last()].add(s.drop_last().reverse()) =~= s.reverse());
    }
}

/// Any sequence of at most 1024 pushes onto an empty stack, followed by
/// the same number of pops, yields the pushed values in reverse order
/// and leaves the stack empty.
pub proof fn lemma_push_pop_round_trip(ws: Seq<Seq<u8>>)
    requires
        ws.len() <= STACK_LIMIT,
    ensures
        spec_pop_all(spec_push_all(Seq::empty(), ws), ws.len())
            == (ws.reverse(), Seq::<Seq<u8>>::empty()),
{
    lemma_push_all_appends(Seq::empty(), ws);
    assert(Seq::<Seq<u8>>::empty().add(ws) =~= ws);
    lemma_pop_all_reverses(ws);
}

} // verus!
