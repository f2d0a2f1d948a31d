//! The step counter behind the front end's progress lines: which numbered
//! step of how many is running.  Printing is I/O and stays with the front
//! end, which must not advance past the declared number of steps.

use vstd::prelude::*;

verus! {

/// A counter over a fixed number of numbered steps.
#[derive(Debug, PartialEq, Eq, Structural)]
pub struct StepLogger {
    step: u8,
    num_of_steps: u8,
}

impl StepLogger {
    /// A fresh counter standing before step one of `num_of_steps`.
    pub fn new(num_of_steps: u8) -> (r: StepLogger)
        ensures
            r.spec_step() == 1,
            r.spec_num_of_steps() == num_of_steps,
    {
        StepLogger { step: 1, num_of_steps }
    }

    /// The step about to run.
    pub closed spec fn spec_step(&self) -> u8 {
        self.step
    }

    /// How many steps there are in all.
    pub closed spec fn spec_num_of_steps(&self) -> u8 {
        self.num_of_steps
    }

    /// The step about to run.
    pub fn step(&self) -> (r: u8)
        ensures
            r == self.spec_step(),
    {
        self.step
    }

    /// How many steps there are in all.
    pub fn num_of_steps(&self) -> (r: u8)
        ensures
            r == self.spec_num_of_steps(),
    {
        self.num_of_steps
    }

    /// Takes the next step: hands out the running step's number and moves
    /// past it.  May only be called while steps remain.
    pub fn advance(&mut self) -> (r: u8)
        requires
            old(self).spec_step() <= old(self).spec_num_of_steps(),
            old(self).spec_num_of_steps() < u8::MAX,
        ensures
            r == old(self).spec_step(),
            final (self).spec_step() == old(self).spec_step() + 1,
            final (self).spec_num_of_steps() == old(self).spec_num_of_steps(),
    {
        let current = self.step;
        self.step = self.step + 1;
        current
    }
}

} // verus!
