//! The return-address stack used by subroutine call and return.

use vstd::prelude::*;

verus! {

/// The number of return addresses the stack can hold.
pub const STACK_CAPACITY: usize = 16;

/// Why a stack operation was refused.
#[derive(Debug, Clone, Copy, PartialEq, Eq, Structural)]
pub enum StackError {
    /// A push was attempted while the stack already held `STACK_CAPACITY` addresses.
    StackOverflow,
    /// A pop was attempted on an empty stack.
    StackUnderflow,
}

/// A bounded stack of 16-bit return addresses.
///
/// Its view is the sequence of addresses it holds, oldest first.
#[derive(Debug)]
pub struct Stack {
    mem: [u16; 16],
    sp: usize,
}

impl View for Stack {
    type V = Seq<u16>;

    closed spec fn view(&self) -> Seq<u16> {
        self.mem@.take(self.sp as int)
    }
}

impl Stack {
    /// What holds of every stack: it is within its capacity.
    #[verifier::type_invariant]
    pub closed spec fn inv(self) -> bool {
        self.sp <= STACK_CAPACITY
    }

    /// What the invariant says of the view.
    pub proof fn lemma_inv(self)
        requires
            self.inv(),
        ensures
            self@.len() <= STACK_CAPACITY,
    {
    }

    /// An empty stack.
    pub fn new() -> (s: Self)
        ensures
            s@ == Seq::<u16>::empty(),
    {
        Stack { mem: [0u16; 16], sp: 0 }
    }

    /// The number of addresses on the stack.
    pub fn len(&self) -> (n: usize)
        ensures
            n == self@.len(),
            n <= STACK_CAPACITY,
    {
        proof {
            use_type_invariant(self);
        }
        self.sp
    }

    /// Pushes `addr`, unless the stack is full.
    pub fn push(&mut self, addr: u16) -> (r: Result<(), StackError>)
        ensures
            old(self)@.len() < STACK_CAPACITY ==> r == Ok::<(), StackError>(()) && final(self)@
                == old(self)@.push(addr),
            old(self)@.len() >= STACK_CAPACITY ==> r == Err::<(), StackError>(
                StackError::StackOverflow,
            ) && final(self)@ == old(self)@,
    {
        proof {
            use_type_invariant(&*self);
        }
        if self.sp >= STACK_CAPACITY {
            return Err(StackError::StackOverflow);
        }
        self.mem[self.sp] = addr;
        self.sp = self.sp + 1;
        Ok(())
    }

    /// Pops the most recently pushed address, unless the stack is empty.
    pub fn pop(&mut self) -> (r: Result<u16, StackError>)
        ensures
            old(self)@.len() > 0 ==> r == Ok::<u16, StackError>(old(self)@.last()) && final(self)@
                == old(self)@.drop_last(),
            old(self)@.len() == 0 ==> r == Err::<u16, StackError>(StackError::StackUnderflow)
                && final(self)@ == old(self)@,
    {
        proof {
            use_type_invariant(&*self);
        }
        if self.sp == 0 {
            return Err(StackError::StackUnderflow);
        }
        self.sp = self.sp - 1;
        Ok(self.mem[self.sp])
    }
}

} // verus!
