//! The XOR metric of the Kademlia key space, and the choice of the peer that
//! is closest to a key.
use vstd::prelude::*;
use crate::bytes::{copy_bytes, views};

verus! {

/// The 32 bytes under which the DHT places a key or a peer identity.
pub uninterp spec fn kad_digest(preimage: Seq<u8>) -> Seq<u8>;

/// Relies on `libp2p::kad::KBucketKey::new`, which runs the preimage through
/// SHA-256 to place it in the Kademlia key space, and on `hashed_bytes`, which
/// hands out those 32 bytes. A peer identity is placed by its byte form.
#[verifier::external_body]
fn key_digest(preimage: &Vec<u8>) -> (r: Vec<u8>)
    ensures
        r@ == kad_digest(preimage@),
        r@.len() == 32,
{
    libp2p::kad::KBucketKey::new(preimage.clone()).hashed_bytes().to_vec()
}

/// `256` to the power `n`.
pub open spec fn pow256(n: nat) -> nat
    decreases n,
{
    if n == 0 {
        1
    } else {
        256 * pow256((n - 1) as nat)
    }
}

/// The bytes read as one unsigned big-endian integer.
pub open spec fn be_value(s: Seq<u8>) -> nat
    decreases s.len(),
{
    if s.len() == 0 {
        0
    } else {
        (s[0] as nat) * pow256((s.len() - 1) as nat) + be_value(s.drop_first())
    }
}

/// The byte-wise XOR of two digests.
pub open spec fn xor_bytes(a: Seq<u8>, b: Seq<u8>) -> Seq<u8> {
    Seq::new(a.len(), |i: int| a[i] ^ b[i])
}

/// The Kademlia distance of two digests: their XOR read as an integer.
pub open spec fn distance(a: Seq<u8>, b: Seq<u8>) -> nat {
    be_value(xor_bytes(a, b))
}

/// The distance between a peer identity and a key, both placed in the key space.
pub open spec fn peer_distance(peer: Seq<u8>, key: Seq<u8>) -> nat {
    distance(kad_digest(peer), kad_digest(key))
}

/// The peer that answers a closest-peer query: the first candidate that the
/// DHT returned, unless the local peer is strictly closer to the key than it,
/// and the local peer when there is no candidate.
pub open spec fn closest_peer_spec(local: Seq<u8>, candidates: Seq<Seq<u8>>, key: Seq<u8>) -> Seq<u8> {
    if candidates.len() == 0 {
        local
    } else if peer_distance(candidates[0], key) > peer_distance(local, key) {
        local
    } else {
        candidates[0]
    }
}

proof fn lemma_be_value_bound(s: Seq<u8>)
    ensures
        be_value(s) < pow256(s.len()),
    decreases s.len(),
{
    if s.len() > 0 {
        let p = pow256((s.len() - 1) as nat);
        lemma_be_value_bound(s.drop_first());
        let h = s[0] as nat;
        assert(h <= 255);
        assert(h * p <= 255 * p) by (nonlinear_arith)
            requires
                h <= 255,
        ;
    }
}

/// Where two byte strings of one length first differ, the larger byte makes
/// the larger integer.
proof fn lemma_be_value_first_difference(x: Seq<u8>, y: Seq<u8>, i: int)
    requires
        x.len() == y.len(),
        0 <= i < x.len(),
        forall|j: int| 0 <= j < i ==> x[j] == y[j],
        x[i] > y[i],
    ensures
        be_value(x) > be_value(y),
    decreases i,
{
    let p = pow256((x.len() - 1) as nat);
    if i == 0 {
        lemma_be_value_bound(y.drop_first());
        let hx = x[0] as nat;
        let hy = y[0] as nat;
        assert(hx * p >= (hy + 1) * p) by (nonlinear_arith)
            requires
                hx >= hy + 1,
        ;
        assert((hy + 1) * p == hy * p + p) by (nonlinear_arith);
    } else {
        assert forall|j: int| 0 <= j < i - 1 implies x.drop_first()[j] == y.drop_first()[j] by {
            assert(x[j + 1] == y[j + 1]);
        }
        lemma_be_value_first_difference(x.drop_first(), y.drop_first(), i - 1);
        assert(x[0] == y[0]);
    }
}

/// Whether the first digest lies strictly farther from the target than the
/// second, under the XOR metric.
pub fn is_farther(a: &Vec<u8>, b: &Vec<u8>, target: &Vec<u8>) -> (r: bool)
    requires
        a@.len() == target@.len(),
        b@.len() == target@.len(),
    ensures
        r == (distance(a@, target@) > distance(b@, target@)),
{
    let n = target.len();
    let ghost xa = xor_bytes(a@, target@);
    let ghost xb = xor_bytes(b@, target@);
    let mut i: usize = 0;
    while i < n
        invariant
            n == target@.len(),
            a@.len() == n,
            b@.len() == n,
            xa == xor_bytes(a@, target@),
            xb == xor_bytes(b@, target@),
            0 <= i <= n,
            forall|j: int| 0 <= j < i ==> xa[j] == xb[j],
        decreases n - i,
    {
        let da: u8 = a[i] ^ target[i];
        let db: u8 = b[i] ^ target[i];
        if da > db {
            proof {
                lemma_be_value_first_difference(xa, xb, i as int);
            }
            return true;
        }
        if da < db {
            proof {
                lemma_be_value_first_difference(xb, xa, i as int);
            }
            return false;
        }
        i = i + 1;
    }
    assert(xa =~= xb);
    false
}

/// Chooses between the local peer and the first candidate of a closest-peer
/// query from their digests: `true` when the candidate lies strictly farther
/// from the key than the local peer, so that the local peer answers.
pub fn local_is_closer(local_digest: &Vec<u8>, candidate_digest: &Vec<u8>, key_digest: &Vec<u8>) -> (r: bool)
    requires
        local_digest@.len() == 32,
        candidate_digest@.len() == 32,
        key_digest@.len() == 32,
    ensures
        r == (distance(candidate_digest@, key_digest@) > distance(local_digest@, key_digest@)),
{
    is_farther(candidate_digest, local_digest, key_digest)
}

/// The peer closest to `key` among the local peer and the first of the
/// candidates that a closest-peer query returned. Never fails: with no
/// candidate the local peer is the answer.
pub fn closest_peer(local: &Vec<u8>, candidates: &Vec<Vec<u8>>, key: &Vec<u8>) -> (r: Vec<u8>)
    ensures
        r@ == closest_peer_spec(local@, views(candidates@), key@),
{
    if candidates.len() == 0 {
        return copy_bytes(local);
    }
    let local_digest = key_digest(local);
    let candidate_digest = key_digest(&candidates[0]);
    let target = key_digest(key);
    
    if local_is_closer(&local_digest, &candidate_digest, &target) {
        copy_bytes(local)
    } else {
        copy_bytes(&candidates[0])
    }
}

/// With no candidate, the local peer is the closest peer.
pub proof fn lemma_no_candidate_gives_local(local: Seq<u8>, key: Seq<u8>)
    ensures
        closest_peer_spec(local, Seq::empty(), key) == local,
{
}

/// With the candidates in order of distance to the key, closest first, the
/// answer is the local peer when it is strictly closer to the key than every
/// candidate, and otherwise the candidate nearest to the key.
pub proof fn lemma_closest_peer_is_nearest(local: Seq<u8>, candidates: Seq<Seq<u8>>, key: Seq<u8>)
    requires
        forall|i: int, j: int| 0 <= i < j < candidates.len() ==> peer_distance(#[trigger] candidates[i], key)
            <= peer_distance(#[trigger] candidates[j], key),
    ensures
        (forall|i: int| 0 <= i < candidates.len() ==> peer_distance(local, key) < peer_distance(#[trigger] candidates[i], key))
            ==> closest_peer_spec(local, candidates, key) == local,
        (exists|i: int| 0 <= i < candidates.len() && peer_distance(#[trigger] candidates[i], key) <= peer_distance(local, key))
            ==> closest_peer_spec(local, candidates, key) == candidates[0] && forall|i: int| 0 <= i < candidates.len()
                ==> peer_distance(candidates[0], key) <= peer_distance(#[trigger] candidates[i], key),
{
    if candidates.len() > 0 {
        if exists|i: int| 0 <= i < candidates.len() && peer_distance(#[trigger] candidates[i], key) <= peer_distance(local, key) {
            let i = choose|i: int| 0 <= i < candidates.len() && peer_distance(#[trigger] candidates[i], key) <= peer_distance(local, key);
            if i > 0 {
                assert(peer_distance(candidates[0], key) <= peer_distance(candidates[i], key));
            }
            assert forall|j: int| 0 <= j < candidates.len() implies peer_distance(candidates[0], key)
                <= peer_distance(#[trigger] candidates[j], key) by {
                if j > 0 {
                    assert(peer_distance(candidates[0], key) <= peer_distance(candidates[j], key));
                }
            }
        }
        if forall|i: int| 0 <= i < candidates.len() ==> peer_distance(local, key) < peer_distance(#[trigger] candidates[i], key) {
            assert(peer_distance(local, key) < peer_distance(candidates[0], key));
        }
    }
}

} // verus!
