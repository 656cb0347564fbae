use openbazaar::node::{Node, NodeAddressType, NodeData, NodeLocation, OpenBazaarNodes};

#[test]
fn address_kind_numbers() {
    assert_eq!(NodeAddressType::from_number(1), Some(NodeAddressType::Onion));
    assert_eq!(NodeAddressType::from_number(2), Some(NodeAddressType::Clear));
    assert_eq!(NodeAddressType::from_number(3), Some(NodeAddressType::Ipv4));
    assert_eq!(NodeAddressType::from_number(4), Some(NodeAddressType::Ipv6));
    assert_eq!(NodeAddressType::from_number(0), None);
    assert_eq!(NodeAddressType::from_number(5), None);
    assert_eq!(NodeAddressType::Ipv6.number(), 4);
    assert_eq!(NodeAddressType::from(2), NodeAddressType::Clear);
    assert_eq!(NodeAddressType::from(4), NodeAddressType::Ipv6);
    assert_eq!(NodeAddressType::Onion.index(), 0);
    assert_eq!(NodeAddressType::from_index(2), Some(NodeAddressType::Ipv4));
    assert_eq!(NodeAddressType::from_index(4), None);
}

#[test]
fn node_new_keeps_fields() {
    let n = Node::new(NodeAddressType::Clear, "http://127.0.0.1:8010".to_string());
    assert_eq!(n.kind, NodeAddressType::Clear);
    assert_eq!(n.address, "http://127.0.0.1:8010");
}

#[test]
fn known_nodes_hold_each_node_once() {
    let mut nodes = OpenBazaarNodes::new();
    nodes.add(Node::new(NodeAddressType::Clear, "a".to_string()));
    nodes.add(Node::new(NodeAddressType::Clear, "a".to_string()));
    nodes.add(Node::new(NodeAddressType::Onion, "a".to_string()));
    assert_eq!(nodes.nodes().len(), 2);
    assert!(nodes.contains(&Node::new(NodeAddressType::Onion, "a".to_string())));
    assert!(!nodes.contains(&Node::new(NodeAddressType::Ipv4, "a".to_string())));
}

#[test]
fn empty_record_is_empty() {
    let d = NodeData::empty();
    assert!(d.is_empty());
    assert_eq!(d.address_type, NodeAddressType::Clear);
    let e = NodeData { peer_id: vec![1], address: String::new(), address_type: NodeAddressType::Clear };
    assert!(!e.is_empty());
}

#[test]
fn locations_follow_records() {
    let records = vec![
        NodeData { peer_id: vec![1], address: "x.onion".to_string(), address_type: NodeAddressType::Onion },
        NodeData { peer_id: vec![2], address: "1.2.3.4".to_string(), address_type: NodeAddressType::Ipv4 },
    ];
    let locs = NodeLocation::of_all(&records);
    assert_eq!(locs.len(), 2);
    assert_eq!(locs[0].address, "x.onion");
    assert_eq!(locs[0].address_type, 1);
    assert_eq!(locs[1].address, "1.2.3.4");
    assert_eq!(locs[1].address_type, 3);
}
