//! Weight painting vocabulary.

use vstd::prelude::*;

verus! {

/// How a brush dab combines with what is already on a vertex.
#[derive(Debug, Clone, Copy, PartialEq, Eq, Structural)]
pub enum BrushMode {
    Add,
    Subtract,
    /// Pull each vertex toward the average of its neighbours.
    Smooth,
}

impl Default for BrushMode {
    /// A brush adds unless told otherwise.
    fn default() -> (m: BrushMode)
        ensures
            m == BrushMode::Add,
    {
        BrushMode::Add
    }
}

impl BrushMode {
    /// The mode's name, as the tool panel shows it.
    pub open spec fn spec_label(self) -> Seq<char> {
        match self {
            BrushMode::Add => "Add"@,
            BrushMode::Subtract => "Subtract"@,
            BrushMode::Smooth => "Smooth"@,
        }
    }

    pub fn label(self) -> (l: &'static str)
        ensures
            l@ == self.spec_label(),
    {
        match self {
            BrushMode::Add => "Add",
            BrushMode::Subtract => "Subtract",
            BrushMode::Smooth => "Smooth",
        }
    }
}

} // verus!
