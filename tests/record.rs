use openbazaar::node::{NodeAddressType, NodeData};
use openbazaar::record::{decode_node_data, encode_node_data, LookupError};

#[test]
fn record_layout_is_bincode_of_fields() {
    let d = NodeData { peer_id: vec![1, 2], address: "ab".to_string(), address_type: NodeAddressType::Clear };
    let bytes = encode_node_data(&d);
    assert_eq!(
        bytes,
        vec![2, 0, 0, 0, 0, 0, 0, 0, 1, 2, 2, 0, 0, 0, 0, 0, 0, 0, b'a', b'b', 1, 0, 0, 0]
    );
    let expected = bincode::serialize(&(vec![1u8, 2], "ab".to_string(), 1u32)).unwrap();
    assert_eq!(bytes, expected);
}

#[test]
fn record_round_trip() {
    for kind in [NodeAddressType::Onion, NodeAddressType::Clear, NodeAddressType::Ipv4, NodeAddressType::Ipv6] {
        let d = NodeData { peer_id: vec![9; 38], address: "héllo:80".to_string(), address_type: kind };
        let back = decode_node_data(&encode_node_data(&d)).unwrap();
        assert_eq!(back, d);
    }
}

#[test]
fn record_with_trailing_bytes_reads() {
    let d = NodeData { peer_id: vec![], address: String::new(), address_type: NodeAddressType::Ipv6 };
    let mut bytes = encode_node_data(&d);
    bytes.push(42);
    assert_eq!(decode_node_data(&bytes).unwrap(), d);
}

#[test]
fn short_record_is_malformed() {
    assert!(matches!(decode_node_data(&vec![5, 0, 0]), Err(LookupError::Malformed(_))));
    assert!(matches!(decode_node_data(&vec![]), Err(LookupError::Malformed(_))));
}

#[test]
fn invalid_text_is_malformed() {
    let bytes = vec![0, 0, 0, 0, 0, 0, 0, 0, 1, 0, 0, 0, 0, 0, 0, 0, 0xff, 0, 0, 0, 0];
    assert!(matches!(decode_node_data(&bytes), Err(LookupError::Malformed(_))));
}

#[test]
fn unknown_kind_is_reported() {
    let bytes = bincode::serialize(&(vec![1u8], "x".to_string(), 7u32)).unwrap();
    assert!(matches!(decode_node_data(&bytes), Err(LookupError::UnknownKind(7))));
}
