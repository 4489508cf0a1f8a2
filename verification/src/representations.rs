//! The intermediate representation: affine expressions, instructions, loop
//! nests, mappings, transforms and architectures.

pub mod affine_expr;
pub mod affine_parse;
pub mod affine_roundtrip;
pub mod affine_transforms;
pub mod arch;
pub mod evaluate;
pub mod instruction;
pub mod instruction_parse;
pub mod instruction_roundtrip;
pub mod loop_transforms;
pub mod loops;
pub mod loops_roundtrip;
pub mod mapping;
pub mod property;
pub mod simplify;
pub mod simplify_laws;
pub mod transforms;
pub mod transforms_roundtrip;
