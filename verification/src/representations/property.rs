//! Properties by the entity that they describe.

use crate::representations::instruction::Instruction;
use crate::representations::loops::{LoopIter, LoopNest};
use vstd::prelude::*;

verus! {

pub trait Property {
    fn name(&self) -> &str;

    fn description(&self) -> &str;
}

/// A property of an instruction.
pub trait InstProperty: Property {
    /// The property as text, for the instruction that it describes.
    fn inline_to_str(&self, inst: &Instruction) -> String;
}

/// A property of an iterator.
pub trait IterProperty: Property {
    /// The property as text, for the iterator that it describes.
    fn inline_to_str(&self, iter: &LoopIter) -> String;
}

/// A property of a nest as a whole.
pub trait LoopProperty: Property {
    /// The property as text, for the nest that it describes.
    fn to_str(&self, loop_nest: &LoopNest) -> String;
}

} // verus!
