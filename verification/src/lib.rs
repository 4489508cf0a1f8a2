//! Loop-nest analysis: an affine intermediate representation with its text
//! syntax, a small algebra of loop transforms, and a pipeline of analysis
//! passes that attach properties to the entities of a nest.

pub mod affine;
pub mod analyses;
pub mod arch;
pub mod arith;
pub mod assoc;
pub mod loop_prob;
pub mod mapping;
pub mod representations;
pub mod text;
pub mod passes;
