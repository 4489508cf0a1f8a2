//! A plain description of an architecture: its dimensions and the
//! connections between neighbouring elements.

use vstd::prelude::*;

verus! {

#[derive(Debug)]
pub struct Arch {
    pub dims_name: Vec<String>,
    pub dims_shape: Vec<i32>,
    pub connections: Vec<Connection>,
}

/// A connection to the neighbour in a direction.
#[derive(Debug)]
pub struct Connection {
    pub direction: Vec<i32>,
}

} // verus!
