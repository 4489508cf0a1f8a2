//! The mapper: what it knows of the network of an architecture.

use crate::representations::arch::{Arch, DataPort, NocPort};
use crate::representations::loops::LoopNest;
use vstd::prelude::*;

verus! {

pub struct Mapper {
    pub arch: Arch,
    pub loop_prob: LoopNest,
}

/// Whether two directions are opposite: of the same length, and at each
/// place the one is the negative of the other.
pub open spec fn opposite(a: Seq<i32>, b: Seq<i32>) -> bool {
    a.len() == b.len() && forall|i: int| 0 <= i < a.len() ==> #[trigger] a[i] + b[i] == 0
}

/// The ports to the network among the data ports, in their order.
pub open spec fn noc_ports(ports: Seq<DataPort>) -> Seq<NocPort>
    decreases ports.len(),
{
    if ports.len() == 0 {
        Seq::empty()
    } else {
        match ports.last() {
            DataPort::NocPort(noc) => noc_ports(ports.drop_last()).push(noc),
            _ => noc_ports(ports.drop_last()),
        }
    }
}

/// Whether the port at `i` has an opposite among the other ports.
pub open spec fn has_opposite(nocs: Seq<NocPort>, i: int) -> bool {
    exists|j: int|
        0 <= j < nocs.len() && j != i && opposite(nocs[i].topology@, (#[trigger] nocs[j]).topology@)
}

/// Whether each port has an opposite among the other ports.
pub open spec fn symmetric(nocs: Seq<NocPort>) -> bool {
    forall|i: int| 0 <= i < nocs.len() ==> #[trigger] has_opposite(nocs, i)
}

/// The position of the first port that is opposite to the direction, or the
/// number of ports where there is none.
pub open spec fn first_opposite(nocs: Seq<NocPort>, topology: Seq<i32>) -> int
    decreases nocs.len(),
{
    if nocs.len() == 0 {
        0
    } else {
        let before = first_opposite(nocs.drop_last(), topology);
        if before < nocs.len() - 1 {
            before
        } else if opposite(topology, nocs.last().topology@) {
            nocs.len() - 1
        } else {
            nocs.len() as int
        }
    }
}

impl Mapper {
    pub fn new(arch: Arch, loop_prob: LoopNest) -> (r: Self)
        ensures
            r.arch == arch,
            r.loop_prob == loop_prob,
    {
        Self { arch, loop_prob }
    }

    /// Whether two directions are opposite.
    pub fn is_symmetric_opposites(topo1: &Vec<i32>, topo2: &Vec<i32>) -> (b: bool)
        ensures
            b == opposite(topo1@, topo2@),
    {
        if topo1.len() != topo2.len() {
            return false;
        }
        let mut i: usize = 0;
        while i < topo1.len()
            invariant
                topo1.len() == topo2.len(),
                i <= topo1.len(),
                forall|k: int| 0 <= k < i ==> #[trigger] topo1@[k] + topo2@[k] == 0,
            decreases topo1.len() - i,
        {
            if (topo1[i] as i64) + (topo2[i] as i64) != 0 {
                return false;
            }
            i = i + 1;
        }
        true
    }

    /// The ports to the network of the architecture.
    pub fn get_noc_ports(&self) -> (r: Vec<&NocPort>)
        ensures
            r@.len() == noc_ports(self.arch.pe_arch.data_ports@).len(),
            forall|i: int| 0 <= i < r@.len() ==> *(#[trigger] r@[i]) == noc_ports(
                self.arch.pe_arch.data_ports@,
            )[i],
    {
        let ports = &self.arch.pe_arch.data_ports;
        let mut r: Vec<&NocPort> = Vec::new();
        let mut i: usize = 0;
        assert(ports@.take(0) =~= Seq::<DataPort>::empty());
        while i < ports.len()
            invariant
                i <= ports.len(),
                r@.len() == noc_ports(ports@.take(i as int)).len(),
                forall|k: int| 0 <= k < r@.len() ==> *(#[trigger] r@[k]) == noc_ports(
                    ports@.take(i as int),
                )[k],
            decreases ports.len() - i,
        {
            proof {
                let next = ports@.take(i + 1);
                assert(next.drop_last() =~= ports@.take(i as int));
                assert(next.last() == ports@[i as int]);
            }
            match &ports[i] {
                DataPort::NocPort(noc) => {
                    r.push(noc);
                },
                _ => {},
            }
            i = i + 1;
        }
        assert(ports@.take(ports.len() as int) =~= ports@);
        r
    }

    /// Whether each port to the network has a port in the opposite
    /// direction: for north there is south.
    pub fn check_noc_symetry(&self) -> (b: bool)
        ensures
            b == symmetric(noc_ports(self.arch.pe_arch.data_ports@)),
    {
        let ports = self.get_noc_ports();
        let ghost nocs = noc_ports(self.arch.pe_arch.data_ports@);
        let mut i: usize = 0;
        while i < ports.len()
            invariant
                i <= ports.len(),
                nocs == noc_ports(self.arch.pe_arch.data_ports@),
                ports@.len() == nocs.len(),
                forall|k: int| 0 <= k < ports@.len() ==> *(#[trigger] ports@[k]) == nocs[k],
                forall|k: int| 0 <= k < i ==> #[trigger] has_opposite(nocs, k),
            decreases ports.len() - i,
        {
            let mut found = false;
            let mut j: usize = 0;
            while j < ports.len() && !found
                invariant
                    i < ports.len(),
                    j <= ports.len(),
                    ports@.len() == nocs.len(),
                    forall|k: int| 0 <= k < ports@.len() ==> *(#[trigger] ports@[k]) == nocs[k],
                    found ==> has_opposite(nocs, i as int),
                    !found ==> forall|k: int|
                        0 <= k < j ==> !(k != i && opposite(
                            nocs[i as int].topology@,
                            (#[trigger] nocs[k]).topology@,
                        )),
                decreases ports.len() - j + (if found { 0int } else { 1int }),
            {
                assert(*ports@[i as int] == nocs[i as int]);
                assert(*ports@[j as int] == nocs[j as int]);
                if j != i && Self::is_symmetric_opposites(&ports[i].topology, &ports[j].topology) {
                    found = true;
                } else {
                    j = j + 1;
                }
            }
            if !found {
                assert(!has_opposite(nocs, i as int));
                return false;
            }
            i = i + 1;
        }
        true
    }

    /// The first port to the network that is opposite to the given one.
    pub fn find_symmetric_noc(&self, noc: &NocPort) -> (r: Option<&NocPort>)
        ensures
            match r {
                Some(p) => first_opposite(
                    noc_ports(self.arch.pe_arch.data_ports@),
                    noc.topology@,
                ) < noc_ports(self.arch.pe_arch.data_ports@).len() && *p == noc_ports(
                    self.arch.pe_arch.data_ports@,
                )[first_opposite(noc_ports(self.arch.pe_arch.data_ports@), noc.topology@)],
                None => first_opposite(noc_ports(self.arch.pe_arch.data_ports@), noc.topology@)
                    == noc_ports(self.arch.pe_arch.data_ports@).len(),
            },
    {
        let ports = self.get_noc_ports();
        let ghost nocs = noc_ports(self.arch.pe_arch.data_ports@);
        let mut i: usize = 0;
        assert(nocs.take(0) =~= Seq::<NocPort>::empty());
        while i < ports.len()
            invariant
                i <= ports.len(),
                nocs == noc_ports(self.arch.pe_arch.data_ports@),
                ports@.len() == nocs.len(),
                forall|k: int| 0 <= k < ports@.len() ==> *(#[trigger] ports@[k]) == nocs[k],
                first_opposite(nocs.take(i as int), noc.topology@) == i,
            decreases ports.len() - i,
        {
            proof {
                let next = nocs.take(i + 1);
                assert(next.drop_last() =~= nocs.take(i as int));
                assert(next.last() == nocs[i as int]);
                assert(*ports@[i as int] == nocs[i as int]);
            }
            if Self::is_symmetric_opposites(&noc.topology, &ports[i].topology) {
                proof {
                    lemma_first_opposite_stays(nocs, noc.topology@, i + 1);
                }
                return Some(ports[i]);
            }
            i = i + 1;
        }
        assert(nocs.take(ports.len() as int) =~= nocs);
        None
    }

    /// The rank of the network, the number of dimensions of its flow: half
    /// the number of its ports. A mesh in two dimensions has the rank 2.
    /// Only a symmetric network has a rank.
    pub fn noc_rank(&self) -> (r: Option<usize>)
        ensures
            r == if symmetric(noc_ports(self.arch.pe_arch.data_ports@)) {
                Some((noc_ports(self.arch.pe_arch.data_ports@).len() / 2) as usize)
            } else {
                None
            },
    {
        let noc_ports = self.get_noc_ports();
        if !self.check_noc_symetry() {
            return None;
        }
        Some(noc_ports.len() / 2)
    }

    /// For all data accesses in the loop body, generates all possible
    /// mappings to the data ports. Nothing is generated yet.
    pub fn generate_all_mappings(&self) {
    }
}

/// Once a port is the first opposite one, it stays the first however many
/// ports follow.
pub proof fn lemma_first_opposite_stays(nocs: Seq<NocPort>, topology: Seq<i32>, k: int)
    requires
        0 <= k <= nocs.len(),
        first_opposite(nocs.take(k), topology) < k,
    ensures
        first_opposite(nocs, topology) == first_opposite(nocs.take(k), topology),
    decreases nocs.len() - k,
{
    if k < nocs.len() {
        assert(nocs.take(k + 1).drop_last() =~= nocs.take(k));
        lemma_first_opposite_stays(nocs, topology, k + 1);
    } else {
        assert(nocs.take(k) =~= nocs);
    }
}

} // verus!
