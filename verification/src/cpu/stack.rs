//! The call stack: a fixed array of return addresses and a stack pointer.
use vstd::prelude::*;
use super::CpuError;

verus! {

/// The number of nested calls the stack can hold.
pub const STACK_DEPTH: usize = 12;

/// Return addresses pushed by subroutine calls, bottom first.
pub struct Stack {
    stack: [u16; 12],
    sp: u8,
}

impl View for Stack {
    type V = Seq<u16>;

    /// The addresses currently on the stack, the bottom one first (the
    /// pointer never passes the twelfth slot).
    closed spec fn view(&self) -> Seq<u16> {
        self.stack@.subrange(0, if self.sp <= 12 { self.sp as int } else { 12 })
    }
}

impl Stack {
    #[verifier::type_invariant]
    spec fn inv(self) -> bool {
        self.sp <= 12
    }

    /// The stack never holds more than `STACK_DEPTH` addresses.
    pub proof fn lemma_depth(&self)
        ensures
            self@.len() <= STACK_DEPTH,
    {
    }

    /// An empty stack.
    pub fn new() -> (s: Stack)
        ensures
            s@ == Seq::<u16>::empty(),
    {
        Stack { stack: [0; 12], sp: 0 }
    }

    /// Removes and returns the address on top; fails when the stack is empty.
    pub fn pop(&mut self) -> (r: Result<u16, CpuError>)
        ensures
            old(self)@.len() == 0 ==> r == Err::<u16, CpuError>(CpuError::StackUnderflowError)
                && final(self)@ == old(self)@,
            old(self)@.len() > 0 ==> r == Ok::<u16, CpuError>(old(self)@.last())
                && final(self)@ == old(self)@.drop_last(),
    {
        proof {
            use_type_invariant(&*self);
        }
        if self.sp == 0 {
            return Err(CpuError::StackUnderflowError);
        }
        self.sp = self.sp - 1;
        let top = self.stack[self.sp as usize];
        Ok(top)
    }

    /// Places `val` on top; fails when the stack already holds `STACK_DEPTH` addresses.
    pub fn push(&mut self, val: u16) -> (r: Result<(), CpuError>)
        ensures
            old(self)@.len() >= STACK_DEPTH ==> r == Err::<(), CpuError>(
                CpuError::StackOverflowError,
            ) && final(self)@ == old(self)@,
            old(self)@.len() < STACK_DEPTH ==> r == Ok::<(), CpuError>(()) && final(self)@
                == old(self)@.push(val),
    {
        proof {
            use_type_invariant(&*self);
        }
        if self.sp == 12 {
            return Err(CpuError::StackOverflowError);
        }
        let ghost before = self@;
        self.stack[self.sp as usize] = val;
        self.sp = self.sp + 1;
        assert(self@ =~= before.push(val));
        Ok(())
    }

    /// The addresses on the stack, the bottom one first.
    pub fn entries(&self) -> (v: Vec<u16>)
        ensures
            v@ == self@,
    {
        proof {
            use_type_invariant(self);
        }
        let mut v: Vec<u16> = Vec::new();
        let mut i: u8 = 0;
        while i < self.sp
            invariant
                i <= self.sp <= 12,
                v@ == self.stack@.subrange(0, i as int),
            decreases self.sp - i,
        {
            v.push(self.stack[i as usize]);
            i = i + 1;
            assert(v@ =~= self.stack@.subrange(0, i as int));
        }
        v
    }
}

} // verus!
