//! Where the root of a drawing sits relative to its branches.

use vstd::prelude::*;

verus! {

/// The side of a node on which its branches grow.
#[derive(Debug, Clone, Copy, PartialEq, Eq, Structural)]
pub enum Alignment {
    Start,
    Middle,
    End,
}

/// Collects the two flags from which an [`Alignment`] is chosen.
#[derive(Debug, Clone, Copy)]
pub struct AlignmentBuilder {
    pub centered: bool,
    pub flipped: bool,
}

/// The alignment that the two flags select: centring wins over flipping.
pub open spec fn resolve_alignment(centered: bool, flipped: bool) -> Alignment {
    if centered {
        Alignment::Middle
    } else if flipped {
        Alignment::End
    } else {
        Alignment::Start
    }
}

impl Default for AlignmentBuilder {
    fn default() -> (builder: AlignmentBuilder)
        ensures
            !builder.centered,
            !builder.flipped,
    {
        AlignmentBuilder { centered: false, flipped: false }
    }
}

impl AlignmentBuilder {
    /// A builder with both flags off.
    pub fn new() -> (builder: AlignmentBuilder)
        ensures
            !builder.centered,
            !builder.flipped,
    {
        AlignmentBuilder { centered: false, flipped: false }
    }

    /// Sets the centring flag and leaves the other flag alone.
    pub fn centered(&mut self, middle: bool) -> (ret: &mut Self)
        ensures
            *ret == (AlignmentBuilder { centered: middle, flipped: old(self).flipped }),
            *final(self) == *final(ret),
    {
        self.centered = middle;
        self
    }

    /// Sets the flipping flag and leaves the other flag alone.
    pub fn flipped(&mut self, flipped: bool) -> (ret: &mut Self)
        ensures
            *ret == (AlignmentBuilder { centered: old(self).centered, flipped }),
            *final(self) == *final(ret),
    {
        self.flipped = flipped;
        self
    }

    /// The alignment that the flags select.
    pub fn build(&self) -> (alignment: Alignment)
        ensures
            alignment == resolve_alignment(self.centered, self.flipped),
    {
        if self.centered {
            Alignment::Middle
        } else if self.flipped {
            Alignment::End
        } else {
            Alignment::Start
        }
    }
}

} // verus!
