//! The registry of callers that wait on the transport: for each kind of
//! asynchronous operation, which reply token answers which operation.
use vstd::prelude::*;
use std::collections::HashMap;
use crate::bytes::{bytes_equal, copy_bytes};

verus! {

broadcast use vstd::std_specs::hash::group_hash_axioms;

/// Waiting callers keyed by the correlation id of the DHT query that will
/// answer them.
pub struct PendingTable {
    map: HashMap<u64, u64>,
}

impl View for PendingTable {
    type V = Map<u64, u64>;

    closed spec fn view(&self) -> Map<u64, u64> {
        self.map@
    }
}

impl PendingTable {
    pub fn new() -> (r: PendingTable)
        ensures
            r@ == Map::<u64, u64>::empty(),
    {
        PendingTable { map: HashMap::new() }
    }

    /// Records that `reply` waits on query `query`.
    pub fn register(&mut self, query: u64, reply: u64)
        ensures
            final(self)@ == old(self)@.insert(query, reply),
    {
        self.map.insert(query, reply);
    }

    /// Whether a caller waits on `query`.
    pub fn contains(&self, query: u64) -> (r: bool)
        ensures
            r == self@.contains_key(query),
    {
        self.map.contains_key(&query)
    }

    /// Takes the caller that waits on `query` out of the table.
    pub fn resolve(&mut self, query: u64) -> (r: Option<u64>)
        ensures
            r == (if old(self)@.contains_key(query) {
                Some(old(self)@[query])
            } else {
                None::<u64>
            }),
            final(self)@ == old(self)@.remove(query),
    {
        self.map.remove(&query)
    }
}

/// A caller waiting for the providers of a key.
pub struct ProviderWait {
    pub reply: u64,
    pub key: Vec<u8>,
}

/// Callers waiting for providers, keyed by the correlation id of their query.
pub struct ProviderTable {
    map: HashMap<u64, ProviderWait>,
}

impl View for ProviderTable {
    type V = Map<u64, (u64, Seq<u8>)>;

    closed spec fn view(&self) -> Map<u64, (u64, Seq<u8>)> {
        self.map@.map_values(|w: ProviderWait| (w.reply, w.key@))
    }
}

impl ProviderTable {
    pub fn new() -> (r: ProviderTable)
        ensures
            r@ == Map::<u64, (u64, Seq<u8>)>::empty(),
    {
        let r = ProviderTable { map: HashMap::new() };
        assert(r@ =~= Map::<u64, (u64, Seq<u8>)>::empty());
        r
    }

    /// Records that `reply` waits on query `query` for the providers of `key`.
    pub fn register(&mut self, query: u64, reply: u64, key: Vec<u8>)
        ensures
            final(self)@ == old(self)@.insert(query, (reply, key@)),
    {
        let ghost k = key@;
        self.map.insert(query, ProviderWait { reply, key });
        assert(self@ =~= old(self)@.insert(query, (reply, k)));
    }

    /// Whether a caller waits on `query`.
    pub fn contains(&self, query: u64) -> (r: bool)
        ensures
            r == self@.contains_key(query),
    {
        self.map.contains_key(&query)
    }

    /// Takes the caller that waits on `query` out of the table.
    pub fn resolve(&mut self, query: u64) -> (r: Option<ProviderWait>)
        ensures
            old(self)@.contains_key(query) <==> r is Some,
            r matches Some(w) ==> (w.reply, w.key@) == old(self)@[query],
            final(self)@ == old(self)@.remove(query),
    {
        let r = self.map.remove(&query);
        assert(self@ =~= old(self)@.remove(query));
        r
    }
}

/// A caller waiting for a connection to a peer.
pub struct DialWait {
    pub peer: Vec<u8>,
    pub reply: u64,
}

/// The callers waiting for connections, in the order they asked.
pub struct DialWaiters {
    list: Vec<DialWait>,
}

pub open spec fn dial_view(w: DialWait) -> (Seq<u8>, u64) {
    (w.peer@, w.reply)
}

impl View for DialWaiters {
    type V = Seq<(Seq<u8>, u64)>;

    closed spec fn view(&self) -> Seq<(Seq<u8>, u64)> {
        self.list@.map_values(|w: DialWait| dial_view(w))
    }
}

/// The reply tokens of the waiters for `peer`, in order.
pub open spec fn replies_for(s: Seq<(Seq<u8>, u64)>, peer: Seq<u8>) -> Seq<u64>
    decreases s.len(),
{
    if s.len() == 0 {
        Seq::empty()
    } else {
        let rest = replies_for(s.drop_last(), peer);
        if s.last().0 == peer {
            rest.push(s.last().1)
        } else {
            rest
        }
    }
}

/// The waiters that are not for `peer`, in order.
pub open spec fn others_than(s: Seq<(Seq<u8>, u64)>, peer: Seq<u8>) -> Seq<(Seq<u8>, u64)> {
    s.filter(|w: (Seq<u8>, u64)| w.0 != peer)
}

/// No reply token stands in two waiters.
pub open spec fn tokens_distinct(s: Seq<(Seq<u8>, u64)>) -> bool {
    forall|i: int, j: int| 0 <= i < j < s.len() ==> #[trigger] s[i].1 != #[trigger] s[j].1
}

/// Whether some waiter is for `peer`.
pub open spec fn waits_for(s: Seq<(Seq<u8>, u64)>, peer: Seq<u8>) -> bool {
    exists|i: int| 0 <= i < s.len() && #[trigger] s[i].0 == peer
}

pub proof fn lemma_replies_for_members(s: Seq<(Seq<u8>, u64)>, peer: Seq<u8>, t: u64)
    ensures
        replies_for(s, peer).contains(t) <==> s.contains((peer, t)),
    decreases s.len(),
{
    if s.len() > 0 {
        let d = s.drop_last();
        let l = s.last();
        lemma_replies_for_members(d, peer, t);
        assert(s =~= d.push(l));
        assert(s.contains((peer, t)) <==> d.contains((peer, t)) || l == (peer, t)) by {
            if s.contains((peer, t)) {
                let i = choose|i: int| 0 <= i < s.len() && s[i] == (peer, t);
                if i < s.len() - 1 {
                    assert(d[i] == (peer, t));
                }
            }
            if d.contains((peer, t)) {
                let i = choose|i: int| 0 <= i < d.len() && d[i] == (peer, t);
                assert(s[i] == (peer, t));
            }
            if l == (peer, t) {
                assert(s[s.len() - 1] == (peer, t));
            }
        }
        if l.0 == peer {
            let r = replies_for(d, peer);
            assert(replies_for(s, peer) == r.push(l.1));
            assert(r.push(l.1).contains(t) <==> r.contains(t) || l.1 == t) by {
                if r.push(l.1).contains(t) {
                    let i = choose|i: int| 0 <= i < r.push(l.1).len() && r.push(l.1)[i] == t;
                    if i < r.len() {
                        assert(r[i] == t);
                    }
                }
                if r.contains(t) {
                    let i = choose|i: int| 0 <= i < r.len() && r[i] == t;
                    assert(r.push(l.1)[i] == t);
                }
                if l.1 == t {
                    assert(r.push(l.1)[r.len() as int] == t);
                }
            }
        }
    }
}

impl DialWaiters {
    pub fn new() -> (r: DialWaiters)
        ensures
            r@ == Seq::<(Seq<u8>, u64)>::empty(),
    {
        let r = DialWaiters { list: Vec::new() };
        assert(r@ =~= Seq::<(Seq<u8>, u64)>::empty());
        r
    }

    /// Whether a caller already waits for a connection to `peer`.
    pub fn has_peer(&self, peer: &Vec<u8>) -> (r: bool)
        ensures
            r == waits_for(self@, peer@),
    {
        let mut i: usize = 0;
        while i < self.list.len()
            invariant
                0 <= i <= self.list@.len(),
                forall|j: int| 0 <= j < i ==> self.list@[j].peer@ != peer@,
            decreases self.list@.len() - i,
        {
            if bytes_equal(&self.list[i].peer, peer) {
                assert(self@[i as int].0 == peer@);
                return true;
            }
            i = i + 1;
        }
        assert forall|j: int| 0 <= j < self@.len() implies #[trigger] self@[j].0 != peer@ by {
            assert(self@[j] == dial_view(self.list@[j]));
        }
        false
    }

    /// Adds a caller waiting for `peer`.
    pub fn add(&mut self, peer: Vec<u8>, reply: u64)
        ensures
            final(self)@ == old(self)@.push((peer@, reply)),
    {
        let ghost p = peer@;
        self.list.push(DialWait { peer, reply });
        assert(self@ =~= old(self)@.push((p, reply)));
    }

    /// Takes every caller waiting for `peer` out, and returns their reply
    /// tokens in the order they asked.
    pub fn take_peer(&mut self, peer: &Vec<u8>) -> (r: Vec<u64>)
        ensures
            r@ == replies_for(old(self)@, peer@),
            final(self)@ == others_than(old(self)@, peer@),
            tokens_distinct(old(self)@) ==> r@.no_duplicates() && tokens_distinct(final(self)@),
    {
        let ghost before = self@;
        let mut taken: Vec<u64> = Vec::new();
        let mut kept: Vec<DialWait> = Vec::new();
        let mut i: usize = 0;
        while i < self.list.len()
            invariant
                before == self@,
                0 <= i <= self.list@.len(),
                taken@ == replies_for(before.subrange(0, i as int), peer@),
                kept@.map_values(|w: DialWait| dial_view(w)) == others_than(before.subrange(0, i as int), peer@),
                forall|k: int| 0 <= k < kept@.len() ==> exists|j: int| 0 <= j < i && #[trigger] kept@[k].reply == #[trigger] before[j].1,
                forall|k: int| 0 <= k < taken@.len() ==> exists|j: int| 0 <= j < i && #[trigger] taken@[k] == #[trigger] before[j].1,
                tokens_distinct(before) ==> taken@.no_duplicates(),
                tokens_distinct(before) ==> tokens_distinct(kept@.map_values(|w: DialWait| dial_view(w))),
            decreases self.list@.len() - i,
        {
            let ghost prefix = before.subrange(0, i as int);
            let ghost next = before.subrange(0, i + 1);
            assert(next.drop_last() =~= prefix);
            assert(next.last() == dial_view(self.list@[i as int]));
            let ghost old_kept = kept@.map_values(|w: DialWait| dial_view(w));
            proof {
                prefix.lemma_filter_push(next.last(), |w: (Seq<u8>, u64)| w.0 != peer@);
            }
            assert(others_than(next, peer@) == if next.last().0 != peer@ {
                others_than(prefix, peer@).push(next.last())
            } else {
                others_than(prefix, peer@)
            }) by {
                reveal(Seq::filter);
                assert(next.drop_last() =~= prefix);
            }
            let ghost old_taken = taken@;
            let ghost old_kept_list = kept@;
            assert(before[i as int].1 == self.list@[i as int].reply);
            if bytes_equal(&self.list[i].peer, peer) {
                taken.push(self.list[i].reply);
                assert forall|k: int| 0 <= k < taken@.len() implies exists|j: int| 0 <= j < i + 1 && #[trigger] taken@[k] == #[trigger] before[j].1 by {
                    if k < old_taken.len() {
                        assert(taken@[k] == old_taken[k]);
                    } else {
                        assert(taken@[k] == before[i as int].1);
                    }
                }
                proof {
                    if tokens_distinct(before) {
                        assert forall|a: int, b: int| 0 <= a < b < taken@.len() implies taken@[a] != taken@[b] by {
                            if b == old_taken.len() {
                                assert(taken@[a] == old_taken[a]);
                                let j = choose|j: int| 0 <= j < i && #[trigger] old_taken[a] == #[trigger] before[j].1;
                            } else {
                                assert(taken@[a] == old_taken[a]);
                                assert(taken@[b] == old_taken[b]);
                            }
                        }
                    }
                }
            } else {
                kept.push(DialWait { peer: copy_bytes(&self.list[i].peer), reply: self.list[i].reply });
                assert(kept@.map_values(|w: DialWait| dial_view(w)) =~= old_kept.push(next.last()));
                assert forall|k: int| 0 <= k < kept@.len() implies exists|j: int| 0 <= j < i + 1 && #[trigger] kept@[k].reply == #[trigger] before[j].1 by {
                    if k < old_kept_list.len() {
                        assert(kept@[k] == old_kept_list[k]);
                    } else {
                        assert(kept@[k].reply == before[i as int].1);
                    }
                }
                proof {
                    if tokens_distinct(before) {
                        let kv = kept@.map_values(|w: DialWait| dial_view(w));
                        assert forall|a: int, b: int| 0 <= a < b < kv.len() implies #[trigger] kv[a].1 != #[trigger] kv[b].1 by {
                            assert(kv[a].1 == kept@[a].reply);
                            assert(kv[b].1 == kept@[b].reply);
                            if b == old_kept_list.len() {
                                assert(kept@[a] == old_kept_list[a]);
                                let j = choose|j: int| 0 <= j < i && #[trigger] old_kept_list[a].reply == #[trigger] before[j].1;
                            } else {
                                assert(kept@[a] == old_kept_list[a]);
                                assert(kept@[b] == old_kept_list[b]);
                                assert(old_kept[a].1 == old_kept_list[a].reply);
                                assert(old_kept[b].1 == old_kept_list[b].reply);
                            }
                        }
                    }
                }
            }
            i = i + 1;
        }
        assert(before.subrange(0, self.list@.len() as int) =~= before);
        self.list = kept;
        taken
    }
}

} // verus!
