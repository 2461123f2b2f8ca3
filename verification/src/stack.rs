//! The call stack of return addresses.

use vstd::prelude::*;
use crate::error::Fault;

verus! {

/// How many return addresses the stack holds at most.
pub const STACK_DEPTH: usize = 16;

/// A bounded stack of return addresses. Its view is the sequence of
/// addresses from the oldest to the most recent; the stack pointer is the
/// length of that sequence.
#[derive(Clone, Debug, PartialEq, Eq)]
pub struct CallStack {
    frames: Vec<u16>,
}

impl View for CallStack {
    type V = Seq<u16>;

    closed spec fn view(&self) -> Seq<u16> {
        self.frames@
    }
}

/// The outcome of pushing `addr` on a stack that holds `frames`.
pub open spec fn pushed(frames: Seq<u16>, addr: u16) -> Result<Seq<u16>, Fault> {
    if frames.len() < 16 {
        Ok(frames.push(addr))
    } else {
        Err(Fault::StackOverflow)
    }
}

/// The outcome of popping a stack that holds `frames`: the address taken
/// and what stays.
pub open spec fn popped(frames: Seq<u16>) -> Result<(u16, Seq<u16>), Fault> {
    if frames.len() > 0 {
        Ok((frames.last(), frames.drop_last()))
    } else {
        Err(Fault::StackUnderflow)
    }
}

impl CallStack {
    /// The stack pointer never exceeds the capacity.
    pub open spec fn wf(&self) -> bool {
        self@.len() <= STACK_DEPTH
    }

    /// An empty stack.
    pub fn new() -> (s: CallStack)
        ensures
            s@ == Seq::<u16>::empty(),
            s.wf(),
    {
        CallStack { frames: Vec::new() }
    }

    /// The stack pointer: how many return addresses are on the stack.
    pub fn depth(&self) -> (d: usize)
        ensures
            d == self@.len(),
    {
        self.frames.len()
    }

    /// The most recent return address, if there is one.
    pub fn top(&self) -> (t: Option<u16>)
        ensures
            self@.len() > 0 ==> t == Some(self@.last()),
            self@.len() == 0 ==> t is None,
    {
        let d: usize = self.frames.len();
        if d > 0 {
            Some(self.frames[d - 1])
        } else {
            None
        }
    }

    /// Pushes `addr`. With sixteen addresses already on the stack this is
    /// an overflow: the stack is left as it was.
    pub fn push(&mut self, addr: u16) -> (r: Result<(), Fault>)
        ensures
            match pushed(old(self)@, addr) {
                Ok(frames) => r is Ok && final(self)@ == frames,
                Err(fault) => r == Err::<(), Fault>(fault) && final(self)@ == old(self)@,
            },
            old(self).wf() ==> final(self).wf(),
    {
        if self.frames.len() < STACK_DEPTH {
            self.frames.push(addr);
            Ok(())
        } else {
            Err(Fault::StackOverflow)
        }
    }

    /// Pops the most recent return address. On an empty stack this is an
    /// underflow.
    pub fn pop(&mut self) -> (r: Result<u16, Fault>)
        ensures
            match popped(old(self)@) {
                Ok((addr, frames)) => r == Ok::<u16, Fault>(addr) && final(self)@ == frames,
                Err(fault) => r == Err::<u16, Fault>(fault) && final(self)@ == old(self)@,
            },
            old(self).wf() ==> final(self).wf(),
    {
        match self.frames.pop() {
            Some(addr) => Ok(addr),
            None => Err(Fault::StackUnderflow),
        }
    }
}

} // verus!
