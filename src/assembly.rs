//! A read-only program: instructions addressed by their index.
use vstd::prelude::*;

verus! {

/// A sequence of decoded instructions, addressed from zero.
pub struct Assembly<I> {
    instructions: Vec<I>,
}

impl<I: Copy> Assembly<I> {
    /// The instructions, by address.
    pub closed spec fn view(&self) -> Seq<I> {
        self.instructions@
    }

    /// A program of `instructions`, in order.
    pub fn new(instructions: Vec<I>) -> (r: Self)
        ensures
            r@ == instructions@,
    {
        Assembly { instructions }
    }

    /// The instruction at `index`, or `None` past the end.
    pub fn get(&self, index: usize) -> (r: Option<I>)
        ensures
            r == (if index < self@.len() {
                Some(self@[index as int])
            } else {
                None
            }),
    {
        if index < self.instructions.len() {
            Some(self.instructions[index])
        } else {
            None
        }
    }
}

} // verus!
