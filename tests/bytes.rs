use openbazaar::bytes::{bytes_equal, contains_bytes, copy_bytes, insert_bytes, remove_bytes};

#[test]
fn byte_string_equality() {
    assert!(bytes_equal(&vec![1, 2, 3], &vec![1, 2, 3]));
    assert!(!bytes_equal(&vec![1, 2, 3], &vec![1, 2, 4]));
    assert!(!bytes_equal(&vec![1, 2], &vec![1, 2, 3]));
    assert!(bytes_equal(&vec![], &vec![]));
    assert_eq!(copy_bytes(&vec![7, 8]), vec![7, 8]);
}

#[test]
fn byte_string_sets() {
    let mut list: Vec<Vec<u8>> = vec![];
    insert_bytes(&mut list, vec![1]);
    insert_bytes(&mut list, vec![2]);
    insert_bytes(&mut list, vec![1]);
    assert_eq!(list, vec![vec![1], vec![2]]);
    assert!(contains_bytes(&list, &vec![2]));
    assert!(!contains_bytes(&list, &vec![3]));
    let mut with_copies = vec![vec![1], vec![2], vec![1]];
    remove_bytes(&mut with_copies, &vec![1]);
    assert_eq!(with_copies, vec![vec![2]]);
    remove_bytes(&mut list, &vec![9]);
    assert_eq!(list, vec![vec![1], vec![2]]);
}
