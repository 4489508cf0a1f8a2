//! A plain description of a loop problem.

use crate::affine::AffineExpression;
use vstd::prelude::*;

verus! {

#[derive(Debug)]
pub struct LoopProb {
    pub loop_nest: Vec<Loop>,
    pub body: Vec<Instruction>,
    pub conditionals: Vec<Conditionals>,
}

#[derive(Debug)]
pub struct Loop {
    pub iter_name: String,
    pub bounds: (i32, i32),
    pub step: i32,
}

#[derive(Debug)]
pub struct Instruction {
    pub name: String,
    pub duration: Option<i32>,
    pub access: AffineExpression,
}

#[derive(Debug)]
pub struct Conditionals {
    /// The loops that are executed conditionally.
    pub skipped_loops: Vec<String>,
    pub cond_comp_loops: Vec<String>,
}

} // verus!
