//! The architecture that a loop nest is mapped onto: the data ports of a
//! processing element and the dimensions of the array of elements.

use vstd::prelude::*;

verus! {

/// A dimension of the array of processing elements.
#[derive(Debug, PartialEq)]
pub struct Dimension {
    pub name: String,
    pub shape: i32,
}

#[derive(Debug, PartialEq)]
pub struct Arch {
    pub pe_arch: PEArch,
    pub dimensions: Vec<Dimension>,
}

/// A processing element: its data ports and the width of its data path.
#[derive(Debug, PartialEq)]
pub struct PEArch {
    pub data_ports: Vec<DataPort>,
    pub data_width: i32,
}

#[derive(Debug, PartialEq)]
pub enum DataPort {
    NocPort(NocPort),
    MemoryWritePort(MemoryPort),
    MemoryReadPort(MemoryPort),
}

/// A port to the network between the elements. The topology is the
/// direction of the port: an offset along each dimension.
#[derive(Debug, PartialEq)]
pub struct NocPort {
    pub name: String,
    pub topology: Vec<i32>,
}

#[derive(Debug, PartialEq)]
pub struct MemoryPort {
    pub name: String,
    pub mem_name: String,
}

pub enum ControlType {
    SkipNZ,
    Shuffle,
}

pub struct Control {
    pub ctrl_type: ControlType,
}

impl Arch {
    /// The data ports of the processing element.
    pub fn data_ports(&self) -> (r: &Vec<DataPort>)
        ensures
            *r == self.pe_arch.data_ports,
    {
        &self.pe_arch.data_ports
    }
}

} // verus!
