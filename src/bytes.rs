//! Byte strings as identities and keys, and lists of them used as sets.
use vstd::prelude::*;

verus! {

/// The values of a list of byte strings.
pub open spec fn views(s: Seq<Vec<u8>>) -> Seq<Seq<u8>> {
    s.map_values(|v: Vec<u8>| v@)
}

/// Whether two byte strings are equal.
pub fn bytes_equal(a: &Vec<u8>, b: &Vec<u8>) -> (r: bool)
    ensures
        r == (a@ == b@),
{
    if a.len() != b.len() {
        return false;
    }
    let mut i: usize = 0;
    while i < a.len()
        invariant
            a@.len() == b@.len(),
            0 <= i <= a@.len(),
            forall|j: int| 0 <= j < i ==> a@[j] == b@[j],
        decreases a@.len() - i,
    {
        if a[i] != b[i] {
            return false;
        }
        i = i + 1;
    }
    assert(a@ =~= b@);
    true
}

/// A copy of a byte string.
pub fn copy_bytes(b: &Vec<u8>) -> (r: Vec<u8>)
    ensures
        r@ == b@,
{
    let r = b.clone();
    assert(r@ =~= b@);
    r
}

/// Whether `item` is in the list.
pub fn contains_bytes(list: &Vec<Vec<u8>>, item: &Vec<u8>) -> (r: bool)
    ensures
        r == views(list@).contains(item@),
{
    let mut i: usize = 0;
    while i < list.len()
        invariant
            0 <= i <= list@.len(),
            forall|j: int| 0 <= j < i ==> list@[j]@ != item@,
        decreases list@.len() - i,
    {
        if bytes_equal(&list[i], item) {
            assert(views(list@)[i as int] == item@);
            return true;
        }
        i = i + 1;
    }
    assert forall|j: int| 0 <= j < views(list@).len() implies views(list@)[j] != item@ by {
        assert(views(list@)[j] == list@[j]@);
    }
    false
}

/// Adds `item` to the list unless it is there already.
pub fn insert_bytes(list: &mut Vec<Vec<u8>>, item: Vec<u8>)
    ensures
        views(final(list)@).to_set() == views(old(list)@).to_set().insert(item@),
        views(old(list)@).no_duplicates() ==> views(final(list)@).no_duplicates(),
{
    if !contains_bytes(list, &item) {
        let ghost before = views(list@);
        list.push(item);
        assert(views(list@) =~= before.push(item@));
        proof {
            before.lemma_push_to_set_commute(item@);
        }
    } else {
        assert(views(list@).to_set() =~= views(list@).to_set().insert(item@));
    }
}

/// Takes every copy of `item` out of the list.
pub fn remove_bytes(list: &mut Vec<Vec<u8>>, item: &Vec<u8>)
    ensures
        views(final(list)@).to_set() == views(old(list)@).to_set().remove(item@),
        views(old(list)@).no_duplicates() ==> views(final(list)@).no_duplicates(),
{
    let ghost before = views(list@);
    let mut kept: Vec<Vec<u8>> = Vec::new();
    let mut i: usize = 0;
    while i < list.len()
        invariant
            before == views(list@),
            0 <= i <= list@.len(),
            forall|x: Seq<u8>| views(kept@).contains(x) <==> (x != item@ && exists|j: int|
                0 <= j < i && before[j] == x),
            before.no_duplicates() ==> views(kept@).no_duplicates(),
            forall|a: int, b: int| 0 <= a < kept@.len() && i <= b < before.len() && before.no_duplicates()
                ==> views(kept@)[a] != before[b],
        decreases list@.len() - i,
    {
        let ghost old_kept = views(kept@);
        if !bytes_equal(&list[i], item) {
            kept.push(copy_bytes(&list[i]));
            assert(views(kept@) =~= old_kept.push(before[i as int]));
        }
        assert forall|x: Seq<u8>| views(kept@).contains(x) <==> (x != item@ && exists|j: int|
            0 <= j < i + 1 && before[j] == x) by {
            if views(kept@).contains(x) {
                if !old_kept.contains(x) {
                    assert(x == before[i as int]);
                }
            }
            if x != item@ && exists|j: int| 0 <= j < i + 1 && before[j] == x {
                let j = choose|j: int| 0 <= j < i + 1 && before[j] == x;
                if j < i {
                    assert(old_kept.contains(x));
                    let k = choose|k: int| 0 <= k < old_kept.len() && old_kept[k] == x;
                    assert(views(kept@)[k] == x);
                } else {
                    assert(views(kept@)[views(kept@).len() - 1] == x);
                }
            }
        }
        i = i + 1;
    }
    assert(views(kept@).to_set() =~= before.to_set().remove(item@));
    *list = kept;
}

} // verus!
