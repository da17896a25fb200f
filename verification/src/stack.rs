//! The operand stack of the virtual machine: a fixed-capacity array of
//! 64-bit cells with a stack pointer.
//!
//! Floats on the stack are represented by their IEEE-754 bit patterns, so a
//! single cell type (`u64`) serves every opcode. The view of a stack is the
//! sequence of live cells, bottom first.

use vstd::prelude::*;

verus! {

/// Number of 64-bit cells an operand stack holds.
pub const STACK_CAPACITY: usize = 65536;

pub struct Stack {
    stack_ptr: usize,
    stack_size: usize,
    stack: Vec<u64>,
}

impl View for Stack {
    type V = Seq<u64>;

    /// The live cells, bottom of the stack first.
    closed spec fn view(&self) -> Seq<u64> {
        self.stack@.take(self.stack_ptr as int)
    }
}

impl Stack {
    /// Storage really backs the whole capacity and the pointer stays inside it.
    pub closed spec fn wf(&self) -> bool {
        &&& self.stack_size == STACK_CAPACITY
        &&& self.stack@.len() == self.stack_size
        &&& self.stack_ptr <= self.stack_size
    }

    pub fn new() -> (r: Stack)
        ensures
            r.wf(),
            r@ == Seq::<u64>::empty(),
    {
        let r = Stack { stack_ptr: 0, stack_size: STACK_CAPACITY, stack: vec![0u64; STACK_CAPACITY] };
        proof {
            assert(r@ =~= Seq::<u64>::empty());
        }
        r
    }

    /// Push a cell; fails with a stack overflow once the capacity is reached.
    pub fn push(&mut self, value: u64) -> (r: Result<(), String>)
        requires
            old(self).wf(),
        ensures
            final(self).wf(),
            r is Ok <==> old(self)@.len() < STACK_CAPACITY,
            r is Ok ==> final(self)@ == old(self)@.push(value),
            r is Err ==> final(self)@ == old(self)@,
    {
        if self.stack_ptr >= self.stack_size {
            return Err(String::from_str("Stack overflow"));
        }

        self.stack.set(self.stack_ptr, value);
        self.stack_ptr = self.stack_ptr + 1;
        proof {
            assert(self@ =~= old(self)@.push(value));
        }
        Ok(())
    }

    /// Pop the top cell; fails when the stack is empty.
    pub fn pop(&mut self) -> (r: Result<u64, String>)
        requires
            old(self).wf(),
        ensures
            final(self).wf(),
            r is Ok <==> old(self)@.len() > 0,
            r is Ok ==> r == Ok::<u64, String>(old(self)@.last()) && final(self)@ == old(self)@.drop_last(),
            r is Err ==> final(self)@ == old(self)@,
    {
        if self.stack_ptr == 0 {
            return Err(String::from_str("Stack empty"));
        }

        self.stack_ptr = self.stack_ptr - 1;
        proof {
            assert(self@ =~= old(self)@.drop_last());
        }
        Ok(self.stack[self.stack_ptr])
    }

    /// Overwrite the cell `stack_offset` below the top (0 is the top itself);
    /// fails when the offset reaches below the bottom of the stack.
    pub fn set(&mut self, stack_offset: u64, value: u64) -> (r: Result<(), String>)
        requires
            old(self).wf(),
        ensures
            final(self).wf(),
            r is Ok <==> stack_offset < old(self)@.len(),
            r is Ok ==> final(self)@ == old(self)@.update(
                old(self)@.len() - 1 - stack_offset,
                value,
            ),
            r is Err ==> final(self)@ == old(self)@,
    {
        if stack_offset >= self.stack_ptr as u64 {
            return Err(String::from_str("Stack index out of bounds"));
        }

        let idx = self.stack_ptr - 1 - stack_offset as usize;
        self.stack.set(idx, value);
        proof {
            assert(self@ =~= old(self)@.update(old(self)@.len() - 1 - stack_offset, value));
        }
        Ok(())
    }

    /// Read the cell `stack_offset` below the top (0 is the top itself);
    /// fails when the offset reaches below the bottom of the stack.
    pub fn get(&mut self, stack_offset: u64) -> (r: Result<u64, String>)
        requires
            old(self).wf(),
        ensures
            final(self).wf(),
            final(self)@ == old(self)@,
            r is Ok <==> stack_offset < old(self)@.len(),
            r is Ok ==> r == Ok::<u64, String>(
                old(self)@[old(self)@.len() - 1 - stack_offset],
            ),
    {
        if stack_offset >= self.stack_ptr as u64 {
            return Err(String::from_str("Stack index out of bounds"));
        }

        let idx = self.stack_ptr - 1 - stack_offset as usize;
        Ok(self.stack[idx])
    }
}

/// Popping immediately after a push yields the pushed value and restores the
/// stack, and reading at offset 0 after a push yields the pushed value: both
/// stated over the views that `push`, `pop` and `get` promise.
pub proof fn lemma_push_pop_get(s: Seq<u64>, v: u64)
    ensures
        s.push(v).last() == v,
        s.push(v).drop_last() == s,
        s.push(v)[s.push(v).len() - 1 - 0] == v,
{
    assert(s.push(v).drop_last() =~= s);
}


/// A well-formed stack never holds more than the capacity.
pub broadcast proof fn lemma_stack_wf_len(s: Stack)
    ensures
        #[trigger] s.wf() ==> s@.len() <= STACK_CAPACITY,
{
}

} // verus!
