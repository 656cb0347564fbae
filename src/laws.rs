//! Properties of the actor that span several steps.
use vstd::prelude::*;
use crate::actor::{Call, CallResult, Command, Event, EventLoop, Reply, Step, Wait, provider_set, token_step};
use crate::bytes::views;
use crate::node::{NodeAddressType, NodeDataView};
use crate::record::{holds_record, node_record};

verus! {

proof fn lemma_tokens_below_next(ws: Seq<Map<u64, Wait>>, ns: Seq<u64>, answered: Seq<Set<u64>>, k: int)
    requires
        ws.len() == answered.len() + 1,
        ns.len() == answered.len() + 1,
        forall|u: u64| #[trigger] ws[0].contains_key(u) ==> u < ns[0],
        forall|m: int| 0 <= m < answered.len() ==> token_step(ws[m], ns[m], ws[m + 1], ns[m + 1], #[trigger] answered[m]),
        0 <= k < ws.len(),
    ensures
        forall|u: u64| #[trigger] ws[k].contains_key(u) ==> u < ns[k],
    decreases k,
{
    if k > 0 {
        lemma_tokens_below_next(ws, ns, answered, k - 1);
        assert(token_step(ws[k - 1], ns[k - 1], ws[k], ns[k], answered[k - 1]));
    }
}

proof fn lemma_answered_stays_out(ws: Seq<Map<u64, Wait>>, ns: Seq<u64>, answered: Seq<Set<u64>>, i: int, k: int, t: u64)
    requires
        ws.len() == answered.len() + 1,
        ns.len() == answered.len() + 1,
        forall|m: int| 0 <= m < answered.len() ==> token_step(ws[m], ns[m], ws[m + 1], ns[m + 1], #[trigger] answered[m]),
        0 <= i < k < ws.len(),
        answered[i].contains(t),
        t < ns[i],
    ensures
        !ws[k].contains_key(t),
        t < ns[k],
    decreases k,
{
    assert(token_step(ws[k - 1], ns[k - 1], ws[k], ns[k], answered[k - 1]));
    if k > i + 1 {
        lemma_answered_stays_out(ws, ns, answered, i, k - 1, t);
    } else {
        if answered[i].is_empty() {
            assert(answered[i].contains(t));
        }
    }
}

/// Along any run of the actor, no reply token is answered twice: a token
/// that one step answers is answered by no later step. With the fresh
/// tokens that commands hand out and the answers that events give only to
/// waiting callers, every caller is answered at most once, and a caller
/// stays waiting until the event that ends its own operation answers it.
pub proof fn lemma_each_reply_once(ws: Seq<Map<u64, Wait>>, ns: Seq<u64>, answered: Seq<Set<u64>>, i: int, j: int, t: u64)
    requires
        ws.len() == answered.len() + 1,
        ns.len() == answered.len() + 1,
        forall|u: u64| #[trigger] ws[0].contains_key(u) ==> u < ns[0],
        forall|m: int| 0 <= m < answered.len() ==> token_step(ws[m], ns[m], ws[m + 1], ns[m + 1], #[trigger] answered[m]),
        0 <= i < j < answered.len(),
        answered[i].contains(t),
    ensures
        !answered[j].contains(t),
{
    assert(token_step(ws[i], ns[i], ws[i + 1], ns[i + 1], answered[i]));
    lemma_tokens_below_next(ws, ns, answered, i);
    assert(ws[i].contains_key(t));
    lemma_answered_stays_out(ws, ns, answered, i, j, t);
    assert(token_step(ws[j], ns[j], ws[j + 1], ns[j + 1], answered[j]));
}

/// The address record that the local peer publishes reads back as the
/// record it published: a lookup under the published key that finds the
/// stored value answers with the local peer's identity, the address and the
/// kind, and the key is the local peer's identity.
pub proof fn lemma_published_address_resolves(
    publisher: EventLoop,
    kind: NodeAddressType,
    address: String,
    put: Call,
    resolver: EventLoop,
    post: EventLoop,
    query: u64,
    value: Vec<u8>,
    step: Step,
)
    requires
        publisher.plan_spec((Command::PutClearAddress { kind, address }), put),
        put matches Call::PutRecord { value: v, .. } && value@ == v@,
        resolver.record_queries().contains_key(query),
        resolver.event_spec(&post, (Event::RecordFound { query, value }), step),
    ensures
        put matches Call::PutRecord { key, .. } && key@ == publisher.local(),
        step.deliveries@.len() == 1,
        step.deliveries@[0].reply matches Reply::ClearAddress(x) && x matches Ok(d)
            && d@ == (NodeDataView { peer_id: publisher.local(), address: address@, address_type: kind }),
{
    let n = NodeDataView { peer_id: publisher.local(), address: address@, address_type: kind };
    assert(value@ =~= node_record(n) + Seq::<u8>::empty());
    assert(holds_record(value@, n));
    assert(step.deliveries@.len() == 1);
    let x = step.deliveries@[0].reply->ClearAddress_0;
    let ev = Event::RecordFound { query, value };
    assert(resolver.event_spec(&post, ev, step));
    assert(ev->RecordFound_value@ == value@);
    assert(forall|m: NodeDataView| #[trigger] holds_record(ev->RecordFound_value@, m) ==> (x matches Ok(d) && d@ == m));
    assert(x matches Ok(d) && d@ == n);
}

/// Once the DHT acknowledges that the local peer provides a key, the next
/// answer to a providers query for that key holds the local peer.
pub proof fn lemma_providing_then_providers(
    s0: EventLoop,
    q0: u64,
    key: Vec<u8>,
    step0: Step,
    s1: EventLoop,
    query: u64,
    found: Vec<Vec<u8>>,
    asked: Vec<u8>,
    step1: Step,
    s2: EventLoop,
)
    requires
        s0.event_spec(&s1, (Event::ProvidingStarted { query: q0, key }), step0),
        asked@ == key@,
        s1.provider_queries().contains_key(query),
        s1.event_spec(&s2, (Event::ProvidersFound { query, key: asked, providers: found }), step1),
    ensures
        step1.deliveries@.len() == 1,
        step1.deliveries@[0].reply matches Reply::Providers(v) && views(v@).contains(s1.local()),
{
    let v = step1.deliveries@[0].reply->Providers_0;
    assert(provider_set(views(found@).to_set(), s1.local(), s1.providing(), key@).contains(s1.local()));
    assert(views(v@).to_set().contains(s1.local()));
}

/// Once the local peer stops providing a key, an answer to a providers query
/// for that key holds the local peer only where the DHT itself named it.
pub proof fn lemma_stop_providing_then_providers(
    s0: EventLoop,
    key: Vec<u8>,
    completion_post: EventLoop,
    query: u64,
    found: Vec<Vec<u8>>,
    asked: Vec<u8>,
    step: Step,
    s2: EventLoop,
)
    requires
        s0.command_tables(&completion_post, (Command::StopProviding { key }), CallResult::Done, 0, false),
        asked@ == key@,
        completion_post.provider_queries().contains_key(query),
        completion_post.event_spec(&s2, (Event::ProvidersFound { query, key: asked, providers: found }), step),
    ensures
        step.deliveries@.len() == 1,
        step.deliveries@[0].reply matches Reply::Providers(v)
            && (views(v@).contains(completion_post.local()) <==> views(found@).contains(completion_post.local())),
{
    let v = step.deliveries@[0].reply->Providers_0;
    let local = completion_post.local();
    assert(!completion_post.providing().contains(key@));
    assert(views(v@).to_set() == views(found@).to_set());
    assert(views(v@).contains(local) <==> views(v@).to_set().contains(local));
    assert(views(found@).contains(local) <==> views(found@).to_set().contains(local));
}

} // verus!
