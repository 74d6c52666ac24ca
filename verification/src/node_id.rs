//! Identities of the processes that take part in the system.

use vstd::prelude::*;

verus! {

/// The id of a process. Replicas hold the ids below the first client id,
/// clients the ids from it upwards.
#[derive(Copy, Clone, Debug, PartialEq, Eq, Structural, PartialOrd, Ord, Hash)]
pub struct NodeId(pub u32);

/// The low 32 bits of `x`.
pub open spec fn low_u32(x: int) -> u32 {
    (x % 0x1_0000_0000) as u32
}

impl NodeId {
    /// The ids that stand for the given numbers, in the same order.
    pub fn targets_u32(ids: Vec<u32>) -> (r: Vec<NodeId>)
        ensures
            r@ == ids@.map_values(|x: u32| NodeId(x)),
    {
        let mut out: Vec<NodeId> = Vec::with_capacity(ids.len());
        let mut i: usize = 0;
        while i < ids.len()
            invariant
                i <= ids.len(),
                out@ == ids@.take(i as int).map_values(|x: u32| NodeId(x)),
            decreases ids.len() - i,
        {
            out.push(NodeId(ids[i]));
            assert(ids@.take(i + 1) == ids@.take(i as int).push(ids@[i as int]));
            i += 1;
        }
        assert(ids@.take(i as int) == ids@);
        out
    }

    /// The ids that stand for the given indices, in the same order. An index
    /// that does not fit in 32 bits keeps its low 32 bits.
    pub fn targets(ids: Vec<usize>) -> (r: Vec<NodeId>)
        ensures
            r@ == ids@.map_values(|x: usize| NodeId(low_u32(x as int))),
    {
        let mut out: Vec<NodeId> = Vec::with_capacity(ids.len());
        let mut i: usize = 0;
        while i < ids.len()
            invariant
                i <= ids.len(),
                out@ == ids@.take(i as int).map_values(|x: usize| NodeId(low_u32(x as int))),
            decreases ids.len() - i,
        {
            out.push(NodeId::from_usize(ids[i]));
            assert(ids@.take(i + 1) == ids@.take(i as int).push(ids@[i as int]));
            i += 1;
        }
        assert(ids@.take(i as int) == ids@);
        out
    }

    /// The ids `0, 1, .., n - 1`: every replica of a system of `n` replicas.
    pub fn replicas(n: u32) -> (r: Vec<NodeId>)
        ensures
            r@ == Seq::new(n as nat, |i: int| NodeId(i as u32)),
    {
        let mut out: Vec<NodeId> = Vec::new();
        let mut i: u32 = 0;
        while i < n
            invariant
                i <= n,
                out@ == Seq::new(i as nat, |j: int| NodeId(j as u32)),
            decreases n - i,
        {
            out.push(NodeId(i));
            i += 1;
        }
        out
    }

    /// The numeric value of this id.
    pub fn id(&self) -> (r: u32)
        ensures
            r == self.0,
    {
        self.0
    }

    /// The id with the low 32 bits of `id`.
    pub fn from_u64(id: u64) -> (r: NodeId)
        ensures
            r == NodeId(low_u32(id as int)),
    {
        #[verifier::truncate]
        let low: u32 = id as u32;
        assert(low == (id % 0x1_0000_0000) as u32) by (bit_vector)
            requires
                low == id as u32,
        ;
        NodeId(low)
    }

    /// The id with the low 32 bits of `id`.
    pub fn from_usize(id: usize) -> (r: NodeId)
        ensures
            r == NodeId(low_u32(id as int)),
    {
        NodeId::from_u64(id as u64)
    }

    /// Whether this id belongs to a client, given the first client id.
    pub fn is_client(&self, first_cli: NodeId) -> (r: bool)
        ensures
            r == (self.0 >= first_cli.0),
    {
        self.0 >= first_cli.0
    }
}

impl From<u32> for NodeId {
    fn from(id: u32) -> (r: NodeId) {
        NodeId(id)
    }
}

impl vstd::std_specs::convert::FromSpecImpl<u32> for NodeId {
    open spec fn obeys_from_spec() -> bool {
        true
    }

    open spec fn from_spec(id: u32) -> NodeId {
        NodeId(id)
    }
}

impl From<u64> for NodeId {
    fn from(id: u64) -> (r: NodeId) {
        NodeId::from_u64(id)
    }
}

impl vstd::std_specs::convert::FromSpecImpl<u64> for NodeId {
    open spec fn obeys_from_spec() -> bool {
        true
    }

    open spec fn from_spec(id: u64) -> NodeId {
        NodeId(low_u32(id as int))
    }
}

impl From<usize> for NodeId {
    fn from(id: usize) -> (r: NodeId) {
        NodeId::from_usize(id)
    }
}

impl vstd::std_specs::convert::FromSpecImpl<usize> for NodeId {
    open spec fn obeys_from_spec() -> bool {
        true
    }

    open spec fn from_spec(id: usize) -> NodeId {
        NodeId(low_u32(id as int))
    }
}

impl From<NodeId> for usize {
    fn from(id: NodeId) -> (r: usize) {
        id.0 as usize
    }
}

impl vstd::std_specs::convert::FromSpecImpl<NodeId> for usize {
    open spec fn obeys_from_spec() -> bool {
        true
    }

    open spec fn from_spec(id: NodeId) -> usize {
        id.0 as usize
    }
}

impl From<NodeId> for u32 {
    fn from(id: NodeId) -> (r: u32) {
        id.0
    }
}

impl vstd::std_specs::convert::FromSpecImpl<NodeId> for u32 {
    open spec fn obeys_from_spec() -> bool {
        true
    }

    open spec fn from_spec(id: NodeId) -> u32 {
        id.0
    }
}

impl From<NodeId> for u64 {
    fn from(id: NodeId) -> (r: u64) {
        id.0 as u64
    }
}

impl vstd::std_specs::convert::FromSpecImpl<NodeId> for u64 {
    open spec fn obeys_from_spec() -> bool {
        true
    }

    open spec fn from_spec(id: NodeId) -> u64 {
        id.0 as u64
    }
}

/// Whether `id` is among `ids`.
pub fn contains_node(ids: &Vec<NodeId>, id: NodeId) -> (r: bool)
    ensures
        r == ids@.contains(id),
{
    let mut i: usize = 0;
    while i < ids.len()
        invariant
            i <= ids.len(),
            forall|j: int| 0 <= j < i ==> ids@[j] != id,
        decreases ids.len() - i,
    {
        if ids[i].0 == id.0 {
            return true;
        }
        i += 1;
    }
    false
}

} // verus!
