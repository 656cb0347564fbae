//! The byte form of an address record, as it is stored as a DHT value under
//! the identity of the peer it describes.
//!
//! The layout is bincode's (fixed-width little-endian integers): the identity
//! bytes and the address text, each after its length in eight bytes, then the
//! kind's position in four bytes.
use vstd::prelude::*;
use vstd::utf8::{decode_utf8, encode_utf8, encode_utf8_decode_utf8};
use crate::distance::pow256;
use crate::node::{NodeAddressType, NodeData, NodeDataView};

verus! {

/// The `n` low bytes of `v`, least significant first.
pub open spec fn le_bytes(v: nat, n: nat) -> Seq<u8>
    decreases n,
{
    if n == 0 {
        Seq::empty()
    } else {
        seq![(v % 256) as u8] + le_bytes(v / 256, (n - 1) as nat)
    }
}

/// The bytes of an address record with these fields.
pub open spec fn record_bytes(peer_id: Seq<u8>, address: Seq<char>, kind: u32) -> Seq<u8> {
    let text = encode_utf8(address);
    le_bytes(peer_id.len(), 8) + peer_id + le_bytes(text.len(), 8) + text + le_bytes(kind as nat, 4)
}

/// The bytes of an address record.
pub open spec fn node_record(n: NodeDataView) -> Seq<u8> {
    record_bytes(n.peer_id, n.address, n.address_type.index_spec())
}

/// The bytes begin with the record of `n`.
pub open spec fn holds_record(bytes: Seq<u8>, n: NodeDataView) -> bool {
    exists|rest: Seq<u8>| bytes == #[trigger] (node_record(n) + rest)
}

/// Why no address record could be read.
#[derive(PartialEq, Eq, Clone, Debug)]
pub enum LookupError {
    /// The DHT lookup failed, for the reason given.
    Failed(String),
    /// The bytes do not hold the three fields; the text says what is wrong.
    Malformed(String),
    /// The fields are there, but the kind's position names no kind.
    UnknownKind(u32),
}

/// Relies on `bincode::serialize` (bincode 1: fixed-width little-endian
/// integers): a byte vector and a string are written as their length in
/// eight bytes and then their bytes (UTF-8 for the string), a `u32` as its
/// four bytes, and a tuple as its fields in order. Nothing in these types
/// can make it fail.
#[verifier::external_body]
fn bincode_write(peer_id: &Vec<u8>, address: &String, kind: u32) -> (r: Result<Vec<u8>, String>)
    ensures
        r is Ok,
        r is Ok ==> r->Ok_0@ == record_bytes(peer_id@, address@, kind),
{
    bincode::serialize(&(peer_id, address, kind)).map_err(|e| e.to_string())
}

/// Relies on `bincode::deserialize` (same format): it reads back the fields
/// that `bincode::serialize` wrote, leaves any bytes after them unread, and
/// fails where the bytes end early or the text is not UTF-8.
#[verifier::external_body]
fn bincode_read(bytes: &Vec<u8>) -> (r: Result<(Vec<u8>, String, u32), String>)
    ensures
        forall|p: Seq<u8>, a: Seq<char>, k: u32, rest: Seq<u8>|
            bytes@ == #[trigger] (record_bytes(p, a, k) + rest) ==> r is Ok && r->Ok_0.0@ == p && r->Ok_0.1@ == a && r->Ok_0.2 == k,
        r is Ok ==> exists|rest: Seq<u8>|
            bytes@ == #[trigger] (record_bytes(r->Ok_0.0@, r->Ok_0.1@, r->Ok_0.2) + rest),
{
    bincode::deserialize::<(Vec<u8>, String, u32)>(bytes.as_slice()).map_err(|e| e.to_string())
}

/// The bytes that store an address record.
pub fn encode_node_data(n: &NodeData) -> (r: Vec<u8>)
    ensures
        r@ == node_record(n@),
{
    match bincode_write(&n.peer_id, &n.address, n.address_type.index()) {
        Ok(b) => b,
        Err(_) => vstd::pervasive::unreached(),
    }
}

/// Reads an address record back from stored bytes.
///
/// Bytes that begin with the record of `n` give `n`; a success gives a
/// record that the bytes begin with; fields whose kind position names no
/// kind give `UnknownKind` with that position. Anything else that bincode
/// cannot read gives `Malformed`.
pub fn decode_node_data(bytes: &Vec<u8>) -> (r: Result<NodeData, LookupError>)
    ensures
        forall|n: NodeDataView| #[trigger] holds_record(bytes@, n) ==> (r matches Ok(d) && d@ == n),
        r matches Ok(d) ==> holds_record(bytes@, d@),
        forall|p: Seq<u8>, a: Seq<char>, k: u32, rest: Seq<u8>|
            bytes@ == #[trigger] (record_bytes(p, a, k) + rest) && k >= 4 ==> r == Err::<NodeData, LookupError>(
                LookupError::UnknownKind(k),
            ),
        r matches Err(LookupError::UnknownKind(k)) ==> k >= 4,
        r matches Err(LookupError::Malformed(_)) ==> forall|p: Seq<u8>, a: Seq<char>, k: u32, rest: Seq<u8>|
            bytes@ != #[trigger] (record_bytes(p, a, k) + rest),
        !(r matches Err(LookupError::Failed(_))),
{
    let ghost g = bytes@;
    match bincode_read(bytes) {
        Ok((peer_id, address, k)) => {
            match NodeAddressType::from_index(k) {
                Some(kind) => {
                    let d = NodeData { peer_id, address, address_type: kind };
                    proof {
                        let rest = choose|rest: Seq<u8>| g == #[trigger] (record_bytes(d.peer_id@, d.address@, k) + rest);
                        assert(g == node_record(d@) + rest);
                    }
                    Ok(d)
                },
                None => {
                    assert forall|n: NodeDataView| #[trigger] holds_record(g, n) implies false by {
                        let rest = choose|rest: Seq<u8>| g == #[trigger] (node_record(n) + rest);
                        assert(g == record_bytes(n.peer_id, n.address, n.address_type.index_spec()) + rest);
                    }
                    Err(LookupError::UnknownKind(k))
                },
            }
        },
        Err(msg) => {
            assert forall|n: NodeDataView| #[trigger] holds_record(g, n) implies false by {
                let rest = choose|rest: Seq<u8>| g == #[trigger] (node_record(n) + rest);
                assert(g == record_bytes(n.peer_id, n.address, n.address_type.index_spec()) + rest);
            }
            Err(LookupError::Malformed(msg))
        },
    }
}

/// The integer that `n` little-endian bytes stand for.
pub open spec fn le_value(s: Seq<u8>) -> nat
    decreases s.len(),
{
    if s.len() == 0 {
        0
    } else {
        s[0] as nat + 256 * le_value(s.drop_first())
    }
}

proof fn lemma_le_bytes_read_back(v: nat, n: nat)
    requires
        v < pow256(n),
    ensures
        le_bytes(v, n).len() == n,
        le_value(le_bytes(v, n)) == v,
    decreases n,
{
    if n > 0 {
        let p = pow256((n - 1) as nat);
        assert(v / 256 < p) by (nonlinear_arith)
            requires
                v < 256 * p,
        ;
        lemma_le_bytes_read_back(v / 256, (n - 1) as nat);
        let s = le_bytes(v, n);
        assert(s.drop_first() =~= le_bytes(v / 256, (n - 1) as nat));
        assert(((v % 256) as u8) as nat == v % 256);
    }
}

/// The fields of a record fit the eight-byte lengths that store them.
pub open spec fn record_fits(n: NodeDataView) -> bool {
    n.peer_id.len() < pow256(8) && encode_utf8(n.address).len() < pow256(8)
}

/// The bytes of a record determine its fields: two records whose bytes
/// begin the same stored value are one record.
pub proof fn lemma_record_determines_fields(a: NodeDataView, b: NodeDataView, ra: Seq<u8>, rb: Seq<u8>)
    requires
        record_fits(a),
        record_fits(b),
        node_record(a) + ra == node_record(b) + rb,
    ensures
        a == b,
{
    reveal_with_fuel(pow256, 9);
    let x = node_record(a) + ra;
    let ta = encode_utf8(a.address);
    let tb = encode_utf8(b.address);
    let pa = a.peer_id;
    let pb = b.peer_id;
    lemma_le_bytes_read_back(pa.len(), 8);
    lemma_le_bytes_read_back(pb.len(), 8);
    lemma_le_bytes_read_back(ta.len(), 8);
    lemma_le_bytes_read_back(tb.len(), 8);
    let ka = a.address_type.index_spec();
    let kb = b.address_type.index_spec();
    assert(pow256(4) == 4294967296);
    lemma_le_bytes_read_back(ka as nat, 4);
    lemma_le_bytes_read_back(kb as nat, 4);
    assert(x.subrange(0, 8) =~= le_bytes(pa.len(), 8));
    assert(x.subrange(0, 8) =~= le_bytes(pb.len(), 8));
    assert(pa.len() == pb.len());
    let n = pa.len() as int;
    assert(x.subrange(8, 8 + n) =~= pa);
    assert(x.subrange(8, 8 + n) =~= pb);
    assert(x.subrange(8 + n, 16 + n) =~= le_bytes(ta.len(), 8));
    assert(x.subrange(8 + n, 16 + n) =~= le_bytes(tb.len(), 8));
    assert(ta.len() == tb.len());
    let m = ta.len() as int;
    assert(x.subrange(16 + n, 16 + n + m) =~= ta);
    assert(x.subrange(16 + n, 16 + n + m) =~= tb);
    encode_utf8_decode_utf8(a.address);
    encode_utf8_decode_utf8(b.address);
    assert(decode_utf8(ta) == decode_utf8(tb));
    assert(x.subrange(16 + n + m, 20 + n + m) =~= le_bytes(ka as nat, 4));
    assert(x.subrange(16 + n + m, 20 + n + m) =~= le_bytes(kb as nat, 4));
    assert(ka == kb);
    assert(a.address_type == b.address_type);
}

} // verus!
