use libp2p::kad::KBucketKey;
use openbazaar::distance::{closest_peer, is_farther, local_is_closer};

fn digest(b: &[u8]) -> Vec<u8> {
    KBucketKey::new(b.to_vec()).hashed_bytes().to_vec()
}

#[test]
fn farther_compares_xor_as_big_endian() {
    let target = vec![0u8; 32];
    let mut a = vec![0u8; 32];
    a[0] = 1;
    let mut b = vec![0u8; 32];
    b[31] = 255;
    assert!(is_farther(&a, &b, &target));
    assert!(!is_farther(&b, &a, &target));
    assert!(!is_farther(&a, &a, &target));
    let mut t2 = vec![0u8; 32];
    t2[0] = 1;
    assert!(is_farther(&b, &a, &t2));
}

#[test]
fn local_is_closer_only_when_strictly_closer() {
    let key = vec![0u8; 32];
    let mut near = vec![0u8; 32];
    near[5] = 1;
    let mut far = vec![0u8; 32];
    far[4] = 1;
    assert!(local_is_closer(&near, &far, &key));
    assert!(!local_is_closer(&far, &near, &key));
    assert!(!local_is_closer(&near, &near, &key));
}

#[test]
fn no_candidate_answers_local() {
    let local = b"local-peer".to_vec();
    assert_eq!(closest_peer(&local, &vec![], &b"key".to_vec()), local);
}

#[test]
fn closest_peer_matches_kademlia_metric() {
    let key = b"some content".to_vec();
    let local = b"local-peer".to_vec();
    let local_key = KBucketKey::new(local.clone());
    let target = KBucketKey::new(key.clone());
    for i in 0u8..40 {
        let cand = vec![i, 7, i];
        let cand_key = KBucketKey::new(cand.clone());
        let expected = if cand_key.distance(&target) > local_key.distance(&target) { local.clone() } else { cand.clone() };
        assert_eq!(closest_peer(&local, &vec![cand.clone(), local.clone()], &key), expected);
        assert_eq!(
            is_farther(&digest(&cand), &digest(&local), &digest(&key)),
            cand_key.distance(&target) > local_key.distance(&target)
        );
    }
}

#[test]
fn closest_peer_uses_first_candidate() {
    let key = b"k".to_vec();
    let local = b"me".to_vec();
    let a = b"a".to_vec();
    let r = closest_peer(&local, &vec![a.clone(), b"b".to_vec()], &key);
    assert!(r == a || r == local);
}

#[test]
fn sorted_candidates_give_nearest_or_local() {
    let key = b"listing".to_vec();
    let target = KBucketKey::new(key.clone());
    let mut candidates: Vec<Vec<u8>> = (0u8..30).map(|i| vec![i, i, 1]).collect();
    candidates.sort_by_key(|c| KBucketKey::new(c.clone()).distance(&target));
    for l in 0u8..30 {
        let local = vec![l, 2, 2];
        let local_d = KBucketKey::new(local.clone()).distance(&target);
        let nearest_d = KBucketKey::new(candidates[0].clone()).distance(&target);
        let r = closest_peer(&local, &candidates, &key);
        if local_d < nearest_d {
            assert_eq!(r, local);
        } else {
            assert_eq!(r, candidates[0]);
        }
    }
}
