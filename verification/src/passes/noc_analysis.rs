//! The ports to the network that a nest makes use of.

use crate::representations::arch::DataPort;
use crate::representations::loops::LoopNest;
use vstd::prelude::*;

verus! {

pub struct NoCAnalysis {
    pub loop_nest: LoopNest,
    pub concretized_noc: Vec<DataPort>,
}

impl NoCAnalysis {
    /// An analysis of a nest in which no port is made concrete yet.
    pub fn from_loop_nest(loop_nest: LoopNest) -> (r: NoCAnalysis)
        ensures
            r.loop_nest == loop_nest,
            r.concretized_noc@.len() == 0,
    {
        NoCAnalysis { loop_nest, concretized_noc: Vec::new() }
    }
}

} // verus!
