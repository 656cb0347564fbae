//! Where a peer can be reached: the kinds of address, the address record that
//! a peer publishes under its own identity, and the nodes that a client knows.
use vstd::prelude::*;

verus! {

/// The kind of a network address.
#[derive(PartialEq, Eq, Structural, Clone, Copy, Debug, Hash)]
pub enum NodeAddressType {
    Onion,
    Clear,
    Ipv4,
    Ipv6,
}

impl NodeAddressType {
    /// The position of the kind in the list of kinds, as the address record
    /// stores it.
    pub open spec fn index_spec(self) -> u32 {
        match self {
            NodeAddressType::Onion => 0,
            NodeAddressType::Clear => 1,
            NodeAddressType::Ipv4 => 2,
            NodeAddressType::Ipv6 => 3,
        }
    }

    /// The number that the RPC interface gives the kind.
    pub open spec fn number_spec(self) -> i32 {
        (self.index_spec() + 1) as i32
    }

    #[verifier::when_used_as_spec(index_spec)]
    pub fn index(self) -> (r: u32)
        ensures
            r == self.index_spec(),
    {
        match self {
            NodeAddressType::Onion => 0,
            NodeAddressType::Clear => 1,
            NodeAddressType::Ipv4 => 2,
            NodeAddressType::Ipv6 => 3,
        }
    }

    /// The kind at a position of the list of kinds; `None` past its end.
    pub fn from_index(i: u32) -> (r: Option<NodeAddressType>)
        ensures
            i < 4 <==> r is Some,
            r matches Some(k) ==> k.index_spec() == i,
    {
        match i {
            0 => Some(NodeAddressType::Onion),
            1 => Some(NodeAddressType::Clear),
            2 => Some(NodeAddressType::Ipv4),
            3 => Some(NodeAddressType::Ipv6),
            _ => None,
        }
    }

    /// The number of the kind in the RPC interface: one for onion, two for
    /// clear, three for IPv4, four for IPv6.
    #[verifier::when_used_as_spec(number_spec)]
    pub fn number(self) -> (r: i32)
        ensures
            r == self.number_spec(),
    {
        (self.index() + 1) as i32
    }

    /// The kind that an RPC number stands for; the number must stand for
    /// one (see [`NodeAddressType::from_number`] to test it).
    pub fn from(number: i32) -> (r: NodeAddressType)
        requires
            1 <= number <= 4,
        ensures
            r.number_spec() == number,
    {
        match NodeAddressType::from_number(number) {
            Some(k) => k,
            None => vstd::pervasive::unreached(),
        }
    }

    /// The kind that an RPC number stands for; `None` for a number that
    /// stands for no kind.
    pub fn from_number(n: i32) -> (r: Option<NodeAddressType>)
        ensures
            1 <= n <= 4 <==> r is Some,
            r matches Some(k) ==> k.number_spec() == n,
    {
        if 1 <= n && n <= 4 {
            NodeAddressType::from_index((n - 1) as u32)
        } else {
            None
        }
    }
}

/// A node that a client can talk to: the kind of its address and the address.
#[derive(PartialEq, Eq, Clone, Debug, Hash)]
pub struct Node {
    pub kind: NodeAddressType,
    pub address: String,
}

impl Node {
    pub fn new(kind: NodeAddressType, address: String) -> (r: Node)
        ensures
            r.kind == kind,
            r.address@ == address@,
    {
        Node { kind, address }
    }
}

/// The address record of a peer: its identity in byte form, the address at
/// which it can be reached, and the kind of that address.
#[derive(PartialEq, Eq, Clone, Debug)]
pub struct NodeData {
    pub peer_id: Vec<u8>,
    pub address: String,
    pub address_type: NodeAddressType,
}

/// The value of an address record.
pub struct NodeDataView {
    pub peer_id: Seq<u8>,
    pub address: Seq<char>,
    pub address_type: NodeAddressType,
}

impl View for NodeData {
    type V = NodeDataView;

    open spec fn view(&self) -> NodeDataView {
        NodeDataView { peer_id: self.peer_id@, address: self.address@, address_type: self.address_type }
    }
}

/// The record that stands for "no address known": no identity, an empty
/// address, and the clear kind.
pub open spec fn empty_node_data() -> NodeDataView {
    NodeDataView { peer_id: Seq::empty(), address: Seq::empty(), address_type: NodeAddressType::Clear }
}

impl NodeData {
    /// The record that stands for "no address known".
    pub fn empty() -> (r: NodeData)
        ensures
            r@ == empty_node_data(),
    {
        NodeData { peer_id: Vec::new(), address: String::new(), address_type: NodeAddressType::Clear }
    }

    /// Whether this is the record that stands for "no address known".
    pub fn is_empty(&self) -> (r: bool)
        ensures
            r == (self@.peer_id.len() == 0 && self@.address.len() == 0),
    {
        self.peer_id.len() == 0 && self.address.as_str().unicode_len() == 0
    }
}

/// The nodes a client knows, each once.
pub struct OpenBazaarNodes {
    nodes: Vec<Node>,
}

pub open spec fn node_view(n: Node) -> (NodeAddressType, Seq<char>) {
    (n.kind, n.address@)
}

impl OpenBazaarNodes {
    /// The known nodes.
    pub closed spec fn nodes_spec(&self) -> Set<(NodeAddressType, Seq<char>)> {
        self.nodes@.map_values(|n: Node| node_view(n)).to_set()
    }

    /// No node is listed twice.
    pub closed spec fn wf(&self) -> bool {
        self.nodes@.map_values(|n: Node| node_view(n)).no_duplicates()
    }

    pub fn new() -> (r: OpenBazaarNodes)
        ensures
            r.wf(),
            r.nodes_spec() == Set::<(NodeAddressType, Seq<char>)>::empty(),
    {
        let r = OpenBazaarNodes { nodes: Vec::new() };
        assert(r.nodes_spec() =~= Set::<(NodeAddressType, Seq<char>)>::empty());
        r
    }

    /// Whether the node is known.
    pub fn contains(&self, node: &Node) -> (r: bool)
        ensures
            r == self.nodes_spec().contains(node_view(*node)),
    {
        let ghost v = self.nodes@.map_values(|n: Node| node_view(n));
        let mut i: usize = 0;
        while i < self.nodes.len()
            invariant
                0 <= i <= self.nodes@.len(),
                v == self.nodes@.map_values(|n: Node| node_view(n)),
                forall|j: int| 0 <= j < i ==> v[j] != node_view(*node),
            decreases self.nodes@.len() - i,
        {
            if self.nodes[i].kind == node.kind && self.nodes[i].address == node.address {
                assert(v[i as int] == node_view(*node));
                return true;
            }
            i = i + 1;
        }
        false
    }

    /// Adds a node unless it is known already.
    pub fn add(&mut self, node: Node)
        requires
            old(self).wf(),
        ensures
            final(self).wf(),
            final(self).nodes_spec() == old(self).nodes_spec().insert(node_view(node)),
    {
        if self.contains(&node) {
            assert(self.nodes_spec() =~= self.nodes_spec().insert(node_view(node)));
        } else {
            let ghost before = self.nodes@.map_values(|n: Node| node_view(n));
            let ghost nv = node_view(node);
            self.nodes.push(node);
            proof {
                assert(self.nodes@.map_values(|n: Node| node_view(n)) =~= before.push(nv));
                before.lemma_push_to_set_commute(nv);
            }
        }
    }

    /// The known nodes, in the order they were added.
    pub fn nodes(&self) -> (r: &Vec<Node>)
        ensures
            r@.map_values(|n: Node| node_view(n)).to_set() == self.nodes_spec(),
    {
        &self.nodes
    }
}

/// Where a node can be reached, as the RPC interface answers a lookup: the
/// address and the number of its kind.
pub struct NodeLocation {
    pub address: String,
    pub address_type: i32,
}

impl NodeLocation {
    /// The location that an address record gives.
    pub fn of(data: &NodeData) -> (r: NodeLocation)
        ensures
            r.address@ == data.address@,
            r.address_type == data.address_type.number_spec(),
    {
        NodeLocation { address: data.address.clone(), address_type: data.address_type.number() }
    }

    /// The locations of the records, in order.
    pub fn of_all(records: &Vec<NodeData>) -> (r: Vec<NodeLocation>)
        ensures
            r@.len() == records@.len(),
            forall|i: int| 0 <= i < r@.len() ==> (#[trigger] r@[i]).address@ == records@[i].address@
                && r@[i].address_type == records@[i].address_type.number_spec(),
    {
        let mut r: Vec<NodeLocation> = Vec::new();
        let mut i: usize = 0;
        while i < records.len()
            invariant
                0 <= i <= records@.len(),
                r@.len() == i,
                forall|j: int| 0 <= j < i ==> (#[trigger] r@[j]).address@ == records@[j].address@
                    && r@[j].address_type == records@[j].address_type.number_spec(),
            decreases records@.len() - i,
        {
            r.push(NodeLocation::of(&records[i]));
            i = i + 1;
        }
        r
    }
}

} // verus!
