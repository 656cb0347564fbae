use openbazaar::message::{OBData, SaveMessageRequest};
use openbazaar::profile::{Profile, ProfileData};

#[test]
fn content_hash_is_sha3_256() {
    let req = SaveMessageRequest { address: vec![1], content: b"abc".to_vec() };
    let h = req.hash_content();
    let hex: String = h.iter().map(|b| format!("{:02x}", b)).collect();
    assert_eq!(hex, "3a985da74fe225b2045c172d6bd390bd855f086e3e9d525b46bfe24511431532");
    let empty = SaveMessageRequest { address: vec![], content: vec![] }.hash_content();
    assert_eq!(empty.len(), 32);
    assert_ne!(empty, h);
}

#[test]
fn counter_adds_and_refuses_overflow() {
    let mut c = OBData::new();
    assert_eq!(c.add(3), Some(3));
    assert_eq!(c.add(3), Some(6));
    assert_eq!(c.add(usize::MAX), None);
    assert_eq!(c.count(), 6);
}

#[test]
fn profile_fields_carry_over() {
    let p = Profile::new("id1".to_string(), "Ann".to_string(), "ann@example.com".to_string());
    let d = p.clone().to_data();
    assert_eq!(d, ProfileData { id: "id1".to_string(), name: "Ann".to_string(), email: "ann@example.com".to_string() });
    assert_eq!(Profile::from_data(d), p);
}
