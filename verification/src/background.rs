//! The sky gradient behind every missed ray: a top and a bottom colour,
//! blended by the ray direction during rendering (which is floating-point
//! work and lives with the rendering front end).

use crate::colour::Colour;
use vstd::prelude::*;

verus! {

/// A vertical background gradient.
#[derive(Debug, Clone, Copy, PartialEq, Eq, Structural)]
pub struct Background {
    pub top: Colour,
    pub bottom: Colour,
}

impl Background {
    /// Packs the two gradient ends.
    pub fn new(top: Colour, bottom: Colour) -> (r: Background)
        ensures
            r == (Background { top, bottom }),
    {
        Background { top, bottom }
    }

    /// The colour overhead.
    pub fn top(&self) -> (r: &Colour)
        ensures
            r == self.top,
    {
        &self.top
    }

    /// The colour underfoot.
    pub fn bottom(&self) -> (r: &Colour)
        ensures
            r == self.bottom,
    {
        &self.bottom
    }
}

} // verus!
