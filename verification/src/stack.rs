//! The fixed-capacity operand stack.
//!
//! 1024 slots of [`U256`].  The view is the sequence of live slots with the
//! top of the stack last; the dispatch loop checks depth before every
//! operation, so the methods here state their depth demands as
//! preconditions.

use crate::u256::U256;
use vstd::prelude::*;

verus! {

/// The stack capacity, in slots.
pub const STACK_LEN: usize = 1024;

/// The operand stack.
pub struct VmStack {
    slots: Vec<U256>,
}

impl View for VmStack {
    type V = Seq<U256>;

    closed spec fn view(&self) -> Seq<U256> {
        self.slots@
    }
}

impl VmStack {
    /// An empty stack.
    pub fn new() -> (r: VmStack)
        ensures
            r@.len() == 0,
    {
        VmStack { slots: Vec::new() }
    }

    /// The number of live slots.
    pub fn len(&self) -> (r: usize)
        ensures
            r == self@.len(),
    {
        self.slots.len()
    }

    /// Pushes a value on top.
    pub fn push(&mut self, value: U256)
        requires
            old(self)@.len() < STACK_LEN,
        ensures
            final(self)@ == old(self)@.push(value),
    {
        self.slots.push(value);
    }

    /// Removes and returns the top value.
    pub fn pop(&mut self) -> (r: U256)
        requires
            old(self)@.len() >= 1,
        ensures
            final(self)@ == old(self)@.drop_last(),
            r == old(self)@.last(),
    {
        let r = self.slots.pop().unwrap();
        proof {
            assert(self.slots@ =~= old(self)@.drop_last());
        }
        r
    }

    /// The top value.
    pub fn peek(&self) -> (r: U256)
        requires
            self@.len() >= 1,
        ensures
            r == self@.last(),
    {
        self.peekn(0)
    }

    /// The value one below the top.
    pub fn peek1(&self) -> (r: U256)
        requires
            self@.len() >= 2,
        ensures
            r == self@[self@.len() - 2],
    {
        self.peekn(1)
    }

    /// The value `index` slots below the top: `index = 0` is the top.
    pub fn peekn(&self, index: usize) -> (r: U256)
        requires
            index < self@.len(),
        ensures
            r == self@[self@.len() - 1 - index],
    {
        let i = self.slots.len() - 1 - index;
        self.slots[i]
    }

    /// Replaces the value `index` slots below the top and returns the
    /// previous value.
    pub fn set(&mut self, index: usize, value: U256) -> (r: U256)
        requires
            index < old(self)@.len(),
        ensures
            final(self)@ == old(self)@.update(old(self)@.len() - 1 - index, value),
            r == old(self)@[old(self)@.len() - 1 - index],
    {
        let i = self.slots.len() - 1 - index;
        let prev = self.slots[i];
        self.slots.set(i, value);
        prev
    }
}

} // verus!
