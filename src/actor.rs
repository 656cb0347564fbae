//! The network actor: the single owner of the overlay state.
//!
//! Callers' requests arrive as [`Command`]s and the transport's
//! notifications as [`Event`]s. For a command the actor first says which
//! transport call to make ([`EventLoop::plan`]); the host makes it and hands
//! the transport's answer back ([`EventLoop::handle_command`]), and the
//! actor either answers the caller at once or keeps the caller's reply token
//! until the event that ends the operation ([`EventLoop::handle_event`]).
//! Every reply token is answered at most once, and only with the result of
//! the operation that its caller asked for.
use vstd::prelude::*;
use vstd::string::*;
use crate::bytes::{bytes_equal, contains_bytes, copy_bytes, insert_bytes, remove_bytes, views};
use crate::distance::{closest_peer, closest_peer_spec};
use crate::node::{NodeAddressType, NodeData, NodeDataView, empty_node_data};
use crate::pending::{
    DialWaiters, PendingTable, ProviderTable, ProviderWait, lemma_replies_for_members, others_than, replies_for,
    waits_for,
};
use crate::record::{LookupError, decode_node_data, encode_node_data, holds_record, record_bytes};

verus! {

/// A request of a caller.
pub enum Command {
    /// Listen for connections on a local endpoint.
    StartListening { addr: String },
    /// Connect to a peer at an endpoint.
    Dial { peer: Vec<u8>, addr: String },
    /// Announce that the local peer provides the content under a key.
    StartProviding { key: Vec<u8> },
    /// Stop announcing the content under a key.
    StopProviding { key: Vec<u8> },
    /// Find the peers that provide the content under a key.
    GetProviders { key: Vec<u8> },
    /// Find the peer closest to a key.
    GetClosestPeer { key: Vec<u8> },
    /// Resolve the address record of a peer.
    GetClearAddress { peer: Vec<u8> },
    /// Publish the local peer's own address record.
    PutClearAddress { kind: NodeAddressType, address: String },
    /// List the endpoints the local peer listens on.
    GetListenAddress,
}

/// A call that the host makes on the transport.
pub enum Call {
    /// Start listening on the endpoint.
    Listen { addr: String },
    /// Add the endpoint to what the DHT knows of the peer, then dial it.
    Dial { peer: Vec<u8>, addr: String },
    /// Nothing: a dial to the peer is under way already, and a second one
    /// changes nothing.
    AlreadyDialing,
    /// Start announcing the key as provided.
    StartProviding { key: Vec<u8> },
    /// Stop announcing the key.
    StopProviding { key: Vec<u8> },
    /// Start a query for the providers of the key.
    GetProviders { key: Vec<u8> },
    /// Start a query for the peers closest to the key.
    GetClosestPeers { key: Vec<u8> },
    /// Start a lookup of the value stored under the key.
    GetRecord { key: Vec<u8> },
    /// Store the value under the key.
    PutRecord { key: Vec<u8>, value: Vec<u8> },
    /// List the local listen endpoints.
    ListListeners,
    /// Add the endpoint to what the DHT knows of the peer.
    AddAddress { peer: Vec<u8>, addr: String },
    /// Dial back the endpoint made of `prefix` and TCP port `port`.
    DialBack { prefix: String, port: u16 },
}

/// What the transport answered to a call.
pub enum CallResult {
    /// The call was carried out.
    Done,
    /// A DHT query began under this correlation id.
    Started(u64),
    /// The transport refused the call, for the reason given.
    Failed(String),
    /// The local listen endpoints.
    Listeners(Vec<String>),
}

/// The answer to a caller.
pub enum Reply {
    Listening(Result<(), String>),
    Dialed(Result<(), String>),
    Providing(Result<(), String>),
    StoppedProviding,
    /// The providers of a key, each once.
    Providers(Vec<Vec<u8>>),
    ClosestPeer(Vec<u8>),
    ClearAddress(Result<NodeData, LookupError>),
    AddressPublished(Result<(), String>),
    /// The listen endpoints, each followed by the local peer's identity.
    ListenAddresses(Vec<String>),
}

/// What became of a command.
pub enum Completion {
    /// The caller is answered now.
    Answer(Reply),
    /// The caller waits; the reply will carry this token.
    Await(u64),
    /// No reply token is left to hand out; the caller gets no answer.
    Refused,
}

/// A reply to the caller holding `reply_to`.
pub struct Delivery {
    pub reply_to: u64,
    pub reply: Reply,
}

/// What an event leads to: replies to waiting callers, and at most one
/// transport call.
pub struct Step {
    pub deliveries: Vec<Delivery>,
    pub call: Option<Call>,
}

/// A notification of the transport.
pub enum Event {
    /// A value lookup found a value.
    RecordFound { query: u64, value: Vec<u8> },
    /// A value lookup ended without finding a value.
    RecordNotFound { query: u64 },
    /// A value lookup failed, for the reason given.
    RecordFailed { query: u64, reason: String },
    /// A providers query found providers of the key.
    ProvidersFound { query: u64, key: Vec<u8>, providers: Vec<Vec<u8>> },
    /// A providers query ended with no further provider.
    ProvidersFinished { query: u64 },
    /// A closest-peers query ended with these peers, closest first.
    ClosestPeersFound { query: u64, key: Vec<u8>, peers: Vec<Vec<u8>> },
    /// The DHT acknowledged that the local peer provides the key.
    ProvidingStarted { query: u64, key: Vec<u8> },
    /// Announcing a key failed, for the reason given.
    ProvidingFailed { query: u64, reason: String },
    /// A connection to the peer is up; `dialer` tells whether the local peer dialed.
    ConnectionEstablished { peer: Vec<u8>, address: String, dialer: bool },
    /// A peer connected; its dial-back endpoint is `send_back_prefix`
    /// followed by TCP port `tcp_port`, when its last part is a TCP port.
    IncomingConnection { send_back_prefix: String, tcp_port: Option<u16> },
    /// A dial failed, for the reason given.
    OutgoingConnectionError { peer_id: Option<Vec<u8>>, reason: String },
    /// Anything else; it changes nothing.
    Other,
}

/// What a waiting caller waits on.
pub enum Wait {
    Dial(Seq<u8>),
    Providing(u64),
    Providers(u64),
    Closest(u64),
    Record(u64),
}

/// Whether a reply is of the kind that a waiting caller expects.
pub open spec fn answers(w: Wait, reply: Reply) -> bool {
    match w {
        Wait::Dial(_) => reply is Dialed,
        Wait::Providing(_) => reply is Providing,
        Wait::Providers(_) => reply is Providers,
        Wait::Closest(_) => reply is ClosestPeer,
        Wait::Record(_) => reply is ClearAddress,
    }
}

/// The reply tokens that some delivery answers.
pub open spec fn reply_tokens(ds: Seq<Delivery>) -> Set<u64> {
    ds.map_values(|d: Delivery| d.reply_to).to_set()
}

/// One step of the actor as the reply tokens see it, with `answered` the
/// tokens that the step answers: nothing changes; or a command leaves its
/// caller waiting under the next token, which was not waiting yet; or an
/// event answers tokens that were waiting and takes them out.
/// [`EventLoop::handle_command`] and [`EventLoop::handle_event`] each take
/// such a step.
pub open spec fn token_step(w0: Map<u64, Wait>, n0: u64, w1: Map<u64, Wait>, n1: u64, answered: Set<u64>) -> bool {
    ||| answered.is_empty() && w1 == w0 && n1 == n0
    ||| answered.is_empty() && !w0.contains_key(n0) && n1 == n0 + 1 && exists|x: Wait| w1 == w0.insert(n0, x)
    ||| answered.subset_of(w0.dom()) && w1 == w0.remove_keys(answered) && n1 == n0
}

/// A peer and an endpoint at which it was seen.
pub struct PeerAddress {
    pub peer: Vec<u8>,
    pub address: String,
}

/// The state of the network actor.
pub struct EventLoop {
    local_peer: Vec<u8>,
    local_peer_text: String,
    next_reply: u64,
    dials: DialWaiters,
    start_providing: PendingTable,
    get_providers: ProviderTable,
    get_closest_peer: PendingTable,
    get_clear_address: PendingTable,
    providing: Vec<Vec<u8>>,
    known_peers: Vec<PeerAddress>,
    waiting: Ghost<Map<u64, Wait>>,
}

/// The reason given to a dial of a peer that is being dialed already.
pub open spec fn dial_under_way_spec() -> Seq<char> {
    "a dial to this peer is already under way"@
}

/// The reason given to a dial of a peer that is being dialed already.
pub fn dial_under_way() -> (r: String)
    ensures
        r@ == dial_under_way_spec(),
{
    let r = String::from_str("a dial to this peer is already under way");
    proof {
        reveal_strlit("a dial to this peer is already under way");
    }
    r
}

/// An endpoint followed by a peer identity.
pub open spec fn annotated(addr: Seq<char>, peer_text: Seq<char>) -> Seq<char> {
    addr + "/p2p/"@ + peer_text
}

/// The set of peers that a providers query answers: the providers found,
/// and the local peer when it provides the key itself.
pub open spec fn provider_set(found: Set<Seq<u8>>, local: Seq<u8>, providing: Set<Seq<u8>>, key: Seq<u8>) -> Set<Seq<u8>> {
    if providing.contains(key) {
        found.insert(local)
    } else {
        found
    }
}

pub open spec fn peer_address_view(p: PeerAddress) -> (Seq<u8>, Seq<char>) {
    (p.peer@, p.address@)
}

impl EventLoop {
    /// The local peer's identity.
    pub closed spec fn local(&self) -> Seq<u8> {
        self.local_peer@
    }

    /// The local peer's identity in text form.
    pub closed spec fn local_text(&self) -> Seq<char> {
        self.local_peer_text@
    }

    /// The next reply token to hand out.
    pub closed spec fn next_token(&self) -> u64 {
        self.next_reply
    }

    /// The callers waiting for connections, in order: peer and reply token.
    pub closed spec fn dial_waiters(&self) -> Seq<(Seq<u8>, u64)> {
        self.dials@
    }

    /// Callers waiting for start-providing acknowledgements, by query id.
    pub closed spec fn providing_queries(&self) -> Map<u64, u64> {
        self.start_providing@
    }

    /// Callers waiting for providers, by query id, with the key asked for.
    pub closed spec fn provider_queries(&self) -> Map<u64, (u64, Seq<u8>)> {
        self.get_providers@
    }

    /// Callers waiting for a closest peer, by query id.
    pub closed spec fn closest_queries(&self) -> Map<u64, u64> {
        self.get_closest_peer@
    }

    /// Callers waiting for an address record, by query id.
    pub closed spec fn record_queries(&self) -> Map<u64, u64> {
        self.get_clear_address@
    }

    /// The keys the local peer provides.
    pub closed spec fn providing(&self) -> Set<Seq<u8>> {
        views(self.providing@).to_set()
    }

    /// The peers seen, each with the endpoints it was seen at.
    pub closed spec fn known_peers(&self) -> Set<(Seq<u8>, Seq<char>)> {
        self.known_peers@.map_values(|p: PeerAddress| peer_address_view(p)).to_set()
    }

    /// Every reply token that is owed an answer, with what it waits on.
    pub closed spec fn waiting(&self) -> Map<u64, Wait> {
        self.waiting@
    }

    /// Whether a correlation id is in use by a waiting query.
    pub open spec fn query_in_use(&self, q: u64) -> bool {
        self.providing_queries().contains_key(q) || self.provider_queries().contains_key(q)
            || self.closest_queries().contains_key(q) || self.record_queries().contains_key(q)
    }

    /// The tables and the waiting callers describe each other, and every
    /// reply token handed out so far lies below the next one.
    pub closed spec fn wf(&self) -> bool {
        let w = self.waiting@;
        let d = self.dials@;
        &&& forall|t: u64| #[trigger] w.contains_key(t) ==> t < self.next_reply
        &&& forall|i: int| 0 <= i < d.len() ==> w.contains_key(#[trigger] d[i].1) && w[d[i].1] == Wait::Dial(d[i].0)
        &&& forall|i: int, j: int| 0 <= i < j < d.len() ==> #[trigger] d[i].1 != #[trigger] d[j].1
        &&& forall|q: u64| #[trigger] self.start_providing@.contains_key(q) ==> w.contains_key(self.start_providing@[q])
            && w[self.start_providing@[q]] == Wait::Providing(q)
        &&& forall|q: u64| #[trigger] self.get_providers@.contains_key(q) ==> w.contains_key(self.get_providers@[q].0)
            && w[self.get_providers@[q].0] == Wait::Providers(q)
        &&& forall|q: u64| #[trigger] self.get_closest_peer@.contains_key(q) ==> w.contains_key(self.get_closest_peer@[q])
            && w[self.get_closest_peer@[q]] == Wait::Closest(q)
        &&& forall|q: u64| #[trigger] self.get_clear_address@.contains_key(q) ==> w.contains_key(self.get_clear_address@[q])
            && w[self.get_clear_address@[q]] == Wait::Record(q)
        &&& forall|t: u64| #[trigger] w.contains_key(t) ==> match w[t] {
            Wait::Dial(p) => d.contains((p, t)),
            Wait::Providing(q) => self.start_providing@.contains_key(q) && self.start_providing@[q] == t,
            Wait::Providers(q) => self.get_providers@.contains_key(q) && self.get_providers@[q].0 == t,
            Wait::Closest(q) => self.get_closest_peer@.contains_key(q) && self.get_closest_peer@[q] == t,
            Wait::Record(q) => self.get_clear_address@.contains_key(q) && self.get_clear_address@[q] == t,
        }
    }

    /// Every reply token that waits lies below the next one to hand out.
    pub proof fn lemma_waiting_below_next(&self)
        requires
            self.wf(),
        ensures
            forall|t: u64| #[trigger] self.waiting().contains_key(t) ==> t < self.next_token(),
    {
    }

    /// A fresh actor for the local peer, given in byte and in text form.
    pub fn new(local_peer: Vec<u8>, local_peer_text: String) -> (r: EventLoop)
        ensures
            r.wf(),
            r.local() == local_peer@,
            r.local_text() == local_peer_text@,
            r.waiting() == Map::<u64, Wait>::empty(),
            r.next_token() == 0,
            r.dial_waiters() == Seq::<(Seq<u8>, u64)>::empty(),
            r.providing_queries() == Map::<u64, u64>::empty(),
            r.provider_queries() == Map::<u64, (u64, Seq<u8>)>::empty(),
            r.closest_queries() == Map::<u64, u64>::empty(),
            r.record_queries() == Map::<u64, u64>::empty(),
            r.providing() == Set::<Seq<u8>>::empty(),
            r.known_peers() == Set::<(Seq<u8>, Seq<char>)>::empty(),
    {
        let r = EventLoop {
            local_peer,
            local_peer_text,
            next_reply: 0,
            dials: DialWaiters::new(),
            start_providing: PendingTable::new(),
            get_providers: ProviderTable::new(),
            get_closest_peer: PendingTable::new(),
            get_clear_address: PendingTable::new(),
            providing: Vec::new(),
            known_peers: Vec::new(),
            waiting: Ghost(Map::empty()),
        };
        assert(r.providing() =~= Set::<Seq<u8>>::empty());
        assert(r.known_peers() =~= Set::<(Seq<u8>, Seq<char>)>::empty());
        r
    }

    /// The local peer's identity.
    pub fn local_peer(&self) -> (r: &Vec<u8>)
        ensures
            r@ == self.local(),
    {
        &self.local_peer
    }

    /// The transport call that a command asks for.
    pub open spec fn plan_spec(&self, cmd: Command, r: Call) -> bool {
        match cmd {
            Command::StartListening { addr } => r matches Call::Listen { addr: a } && a@ == addr@,
            Command::Dial { peer, addr } => if waits_for(self.dial_waiters(), peer@) {
                r is AlreadyDialing
            } else {
                r matches Call::Dial { peer: p, addr: a } && p@ == peer@ && a@ == addr@
            },
            Command::StartProviding { key } => r matches Call::StartProviding { key: k } && k@ == key@,
            Command::StopProviding { key } => r matches Call::StopProviding { key: k } && k@ == key@,
            Command::GetProviders { key } => r matches Call::GetProviders { key: k } && k@ == key@,
            Command::GetClosestPeer { key } => r matches Call::GetClosestPeers { key: k } && k@ == key@,
            Command::GetClearAddress { peer } => r matches Call::GetRecord { key: k } && k@ == peer@,
            Command::PutClearAddress { kind, address } => r matches Call::PutRecord { key: k, value: v }
                && k@ == self.local() && v@ == record_bytes(self.local(), address@, kind.index_spec()),
            Command::GetListenAddress => r is ListListeners,
        }
    }

    /// Which transport call a command asks for. A dial to a peer that is
    /// being dialed already asks for none: the caller waits on that dial.
    /// The local peer's address record is stored under its own identity.
    pub fn plan(&self, cmd: &Command) -> (r: Call)
        ensures
            self.plan_spec(*cmd, r),
    {
        match cmd {
            Command::StartListening { addr } => Call::Listen { addr: addr.clone() },
            Command::Dial { peer, addr } => {
                if self.dials.has_peer(peer) {
                    Call::AlreadyDialing
                } else {
                    Call::Dial { peer: copy_bytes(peer), addr: addr.clone() }
                }
            },
            Command::StartProviding { key } => Call::StartProviding { key: copy_bytes(key) },
            Command::StopProviding { key } => Call::StopProviding { key: copy_bytes(key) },
            Command::GetProviders { key } => Call::GetProviders { key: copy_bytes(key) },
            Command::GetClosestPeer { key } => Call::GetClosestPeers { key: copy_bytes(key) },
            Command::GetClearAddress { peer } => Call::GetRecord { key: copy_bytes(peer) },
            Command::PutClearAddress { kind, address } => {
                let record = NodeData {
                    peer_id: copy_bytes(&self.local_peer),
                    address: address.clone(),
                    address_type: *kind,
                };
                let value = encode_node_data(&record);
                Call::PutRecord { key: copy_bytes(&self.local_peer), value }
            },
            Command::GetListenAddress => Call::ListListeners,
        }
    }

    /// Whether the transport's answer has the form that the command's call
    /// gives, and a new query's correlation id is not in use.
    pub open spec fn accepts_spec(&self, cmd: Command, result: CallResult) -> bool {
        match cmd {
            Command::StartListening { .. } => result is Done || result is Failed,
            Command::Dial { .. } => result is Done || result is Failed,
            Command::StopProviding { .. } => result is Done,
            Command::GetListenAddress => result is Listeners,
            Command::PutClearAddress { .. } => result is Done || result is Started || result is Failed,
            Command::StartProviding { .. } => (result is Started || result is Failed)
                && (result matches CallResult::Started(q) ==> !self.query_in_use(q)),
            _ => result matches CallResult::Started(q) && !self.query_in_use(q),
        }
    }

    /// Whether a correlation id is in use by a waiting query.
    pub fn query_pending(&self, q: u64) -> (r: bool)
        ensures
            r == self.query_in_use(q),
    {
        self.start_providing.contains(q) || self.get_providers.contains(q)
            || self.get_closest_peer.contains(q) || self.get_clear_address.contains(q)
    }

    /// Whether [`EventLoop::handle_command`] takes this answer for this command.
    pub fn accepts(&self, cmd: &Command, result: &CallResult) -> (r: bool)
        ensures
            r == self.accepts_spec(*cmd, *result),
    {
        match cmd {
            Command::StartListening { .. } | Command::Dial { .. } => {
                matches!(result, CallResult::Done | CallResult::Failed(_))
            },
            Command::StopProviding { .. } => matches!(result, CallResult::Done),
            Command::GetListenAddress => matches!(result, CallResult::Listeners(_)),
            Command::PutClearAddress { .. } => !matches!(result, CallResult::Listeners(_)),
            Command::StartProviding { .. } => match result {
                CallResult::Started(q) => !self.query_pending(*q),
                CallResult::Failed(_) => true,
                _ => false,
            },
            _ => match result {
                CallResult::Started(q) => !self.query_pending(*q),
                _ => false,
            },
        }
    }

    /// Whether a command leaves its caller waiting, given the transport's answer.
    pub open spec fn defers(&self, cmd: Command, result: CallResult) -> bool {
        match cmd {
            Command::Dial { peer, .. } => !waits_for(self.dial_waiters(), peer@) && !(result is Failed),
            Command::StartProviding { .. } => result is Started,
            Command::GetProviders { .. } => result is Started,
            Command::GetClosestPeer { .. } => result is Started,
            Command::GetClearAddress { .. } => result is Started,
            _ => false,
        }
    }

    /// What the caller of a deferred command waits on.
    pub open spec fn wait_of(cmd: Command, result: CallResult) -> Wait {
        let q = match result {
            CallResult::Started(q) => q,
            _ => 0,
        };
        match cmd {
            Command::Dial { peer, .. } => Wait::Dial(peer@),
            Command::StartProviding { .. } => Wait::Providing(q),
            Command::GetProviders { .. } => Wait::Providers(q),
            Command::GetClosestPeer { .. } => Wait::Closest(q),
            _ => Wait::Record(q),
        }
    }

    /// The reason carried by a failed call.
    pub open spec fn failure(result: CallResult) -> Seq<char> {
        match result {
            CallResult::Failed(e) => e@,
            _ => Seq::empty(),
        }
    }

    /// A unit outcome: success unless the call failed, with its reason.
    pub open spec fn unit_outcome(x: Result<(), String>, result: CallResult) -> bool {
        if result is Failed {
            x matches Err(e) && e@ == Self::failure(result)
        } else {
            x is Ok
        }
    }

    /// What a command that its caller does not wait on answers.
    pub open spec fn answer_spec(&self, cmd: Command, result: CallResult, reply: Reply) -> bool {
        match cmd {
            Command::StartListening { .. } => reply matches Reply::Listening(x) && Self::unit_outcome(x, result),
            Command::Dial { peer, .. } => reply matches Reply::Dialed(x) && if waits_for(self.dial_waiters(), peer@) {
                x matches Err(e) && e@ == dial_under_way_spec()
            } else {
                Self::unit_outcome(x, result)
            },
            Command::StartProviding { .. } => reply matches Reply::Providing(x) && Self::unit_outcome(x, result),
            Command::StopProviding { .. } => reply is StoppedProviding,
            Command::PutClearAddress { .. } => reply matches Reply::AddressPublished(x) && Self::unit_outcome(x, result),
            Command::GetListenAddress => reply matches Reply::ListenAddresses(w) && result matches CallResult::Listeners(v)
                && w@.len() == v@.len() && forall|i: int| 0 <= i < v@.len() ==> #[trigger] w@[i]@ == annotated(v@[i]@, self.local_text()),
            _ => false,
        }
    }

    /// The parts of the state that events and commands never change.
    pub open spec fn same_peer(&self, other: &EventLoop) -> bool {
        &&& self.local() == other.local()
        &&& self.local_text() == other.local_text()
    }

    /// How a command, with the transport's answer, changes the tables; a
    /// caller that waits (`deferred`) is entered under reply token `t`.
    pub open spec fn command_tables(&self, post: &EventLoop, cmd: Command, result: CallResult, t: u64, deferred: bool) -> bool {
        let q = match result {
            CallResult::Started(q) => q,
            _ => 0,
        };
        &&& post.dial_waiters() == (if deferred && cmd is Dial {
            self.dial_waiters().push((cmd->Dial_peer@, t))
        } else {
            self.dial_waiters()
        })
        &&& post.providing_queries() == (if deferred && cmd is StartProviding {
            self.providing_queries().insert(q, t)
        } else {
            self.providing_queries()
        })
        &&& post.provider_queries() == (if deferred && cmd is GetProviders {
            self.provider_queries().insert(q, (t, cmd->GetProviders_key@))
        } else {
            self.provider_queries()
        })
        &&& post.closest_queries() == (if deferred && cmd is GetClosestPeer {
            self.closest_queries().insert(q, t)
        } else {
            self.closest_queries()
        })
        &&& post.record_queries() == (if deferred && cmd is GetClearAddress {
            self.record_queries().insert(q, t)
        } else {
            self.record_queries()
        })
        &&& post.providing() == (if cmd is StopProviding {
            self.providing().remove(cmd->StopProviding_key@)
        } else {
            self.providing()
        })
        &&& post.known_peers() == self.known_peers()
    }

    /// Hands out the next reply token; `None` once they are used up.
    fn issue(&mut self) -> (r: Option<u64>)
        requires
            old(self).wf(),
        ensures
            old(self).next_reply < u64::MAX ==> r == Some(old(self).next_reply) && final(self).next_reply == old(self).next_reply + 1,
            old(self).next_reply == u64::MAX ==> r is None && final(self).next_reply == old(self).next_reply,
            final(self).wf(),
            final(self).local_peer == old(self).local_peer,
            final(self).local_peer_text == old(self).local_peer_text,
            final(self).dials == old(self).dials,
            final(self).start_providing == old(self).start_providing,
            final(self).get_providers == old(self).get_providers,
            final(self).get_closest_peer == old(self).get_closest_peer,
            final(self).get_clear_address == old(self).get_clear_address,
            final(self).providing == old(self).providing,
            final(self).known_peers == old(self).known_peers,
            final(self).waiting == old(self).waiting,
    {
        if self.next_reply == u64::MAX {
            None
        } else {
            let t = self.next_reply;
            self.next_reply = t + 1;
            Some(t)
        }
    }

    /// Applies a command, given what the transport answered to the call that
    /// [`EventLoop::plan`] asked for.
    ///
    /// A command whose operation ends with a later event (a dial that went
    /// out, a DHT query that started) leaves its caller waiting under a fresh
    /// reply token; the others are answered at once. A dial to a peer that is
    /// being dialed already changes nothing and is answered at once with a
    /// failure that says so.
    /// Stopping to provide a key takes it out of the provided keys at once.
    pub fn handle_command(&mut self, cmd: Command, result: CallResult) -> (r: Completion)
        requires
            old(self).wf(),
            old(self).accepts_spec(cmd, result),
        ensures
            final(self).wf(),
            final(self).same_peer(old(self)),
            r is Refused <==> old(self).defers(cmd, result) && old(self).next_token() == u64::MAX,
            r is Await <==> old(self).defers(cmd, result) && old(self).next_token() < u64::MAX,
            r matches Completion::Await(t) ==> t == old(self).next_token() && !old(self).waiting().contains_key(t)
                && final(self).waiting() == old(self).waiting().insert(t, Self::wait_of(cmd, result))
                && old(self).command_tables(final(self), cmd, result, t, true),
            !(r is Await) ==> final(self).waiting() == old(self).waiting(),
            !(r is Await) ==> old(self).command_tables(final(self), cmd, result, 0, false),
            r matches Completion::Answer(reply) ==> old(self).answer_spec(cmd, result, reply),
            final(self).next_token() == (if r is Await { old(self).next_token() + 1 } else { old(self).next_token() as int }),
            token_step(old(self).waiting(), old(self).next_token(), final(self).waiting(), final(self).next_token(), Set::empty()),
    {
        let ghost pre = *self;
        let joining: bool = match &cmd {
            Command::Dial { peer, .. } => self.dials.has_peer(peer),
            _ => false,
        };
        let deferred: bool = match &cmd {
            Command::Dial { .. } => !joining && !matches!(result, CallResult::Failed(_)),
            Command::StartProviding { .. } | Command::GetProviders { .. } | Command::GetClosestPeer { .. }
            | Command::GetClearAddress { .. } => matches!(result, CallResult::Started(_)),
            _ => false,
        };
        if deferred {
            let t = match self.issue() {
                Some(t) => t,
                None => {
                    return Completion::Refused;
                },
            };
            let q: u64 = match result {
                CallResult::Started(q) => q,
                _ => 0,
            };
            match cmd {
                Command::Dial { peer, .. } => {
                    let ghost p = peer@;
                    self.dials.add(peer, t);
                    proof {
                        self.waiting@ = self.waiting@.insert(t, Wait::Dial(p));
                    }
                },
                Command::StartProviding { .. } => {
                    self.start_providing.register(q, t);
                    proof {
                        self.waiting@ = self.waiting@.insert(t, Wait::Providing(q));
                    }
                },
                Command::GetProviders { key } => {
                    self.get_providers.register(q, t, key);
                    proof {
                        self.waiting@ = self.waiting@.insert(t, Wait::Providers(q));
                    }
                },
                Command::GetClosestPeer { .. } => {
                    self.get_closest_peer.register(q, t);
                    proof {
                        self.waiting@ = self.waiting@.insert(t, Wait::Closest(q));
                    }
                },
                _ => {
                    self.get_clear_address.register(q, t);
                    proof {
                        self.waiting@ = self.waiting@.insert(t, Wait::Record(q));
                    }
                },
            }
            proof {
                assert(self.wf()) by {
                    let w = self.waiting@;
                    assert forall|i: int| 0 <= i < self.dials@.len() implies w.contains_key(#[trigger] self.dials@[i].1)
                        && w[self.dials@[i].1] == Wait::Dial(self.dials@[i].0) by {
                        if i < pre.dials@.len() {
                            assert(self.dials@[i] == pre.dials@[i]);
                        }
                    }
                    assert forall|tt: u64| #[trigger] w.contains_key(tt) implies match w[tt] {
                        Wait::Dial(p) => self.dials@.contains((p, tt)),
                        Wait::Providing(q) => self.start_providing@.contains_key(q) && self.start_providing@[q] == tt,
                        Wait::Providers(q) => self.get_providers@.contains_key(q) && self.get_providers@[q].0 == tt,
                        Wait::Closest(q) => self.get_closest_peer@.contains_key(q) && self.get_closest_peer@[q] == tt,
                        Wait::Record(q) => self.get_clear_address@.contains_key(q) && self.get_clear_address@[q] == tt,
                    } by {
                        if tt != t {
                            assert(pre.waiting@.contains_key(tt));
                            match w[tt] {
                                Wait::Dial(p) => {
                                    let k = choose|k: int| 0 <= k < pre.dials@.len() && pre.dials@[k] == (p, tt);
                                    assert(self.dials@[k] == (p, tt));
                                },
                                _ => {},
                            }
                        } else {
                            match w[tt] {
                                Wait::Dial(p) => {
                                    assert(self.dials@[self.dials@.len() - 1] == (p, tt));
                                },
                                _ => {},
                            }
                        }
                    }
                }
            }
            Completion::Await(t)
        } else {
            let reply = match cmd {
                Command::StartListening { .. } => Reply::Listening(Self::unit_of(result)),
                Command::Dial { .. } => {
                    if joining {
                        Reply::Dialed(Err(dial_under_way()))
                    } else {
                        Reply::Dialed(Self::unit_of(result))
                    }
                },
                Command::StartProviding { .. } => Reply::Providing(Self::unit_of(result)),
                Command::StopProviding { key } => {
                    remove_bytes(&mut self.providing, &key);
                    Reply::StoppedProviding
                },
                Command::PutClearAddress { .. } => Reply::AddressPublished(Self::unit_of(result)),
                Command::GetListenAddress => {
                    let listeners = match result {
                        CallResult::Listeners(v) => v,
                        _ => vstd::pervasive::unreached(),
                    };
                    Reply::ListenAddresses(self.annotate(&listeners))
                },
                _ => vstd::pervasive::unreached(),
            };
            Completion::Answer(reply)
        }
    }

    fn unit_of(result: CallResult) -> (x: Result<(), String>)
        ensures
            Self::unit_outcome(x, result),
    {
        match result {
            CallResult::Failed(e) => Err(e),
            _ => Ok(()),
        }
    }

    /// Each endpoint followed by the local peer's identity.
    pub fn annotate(&self, listeners: &Vec<String>) -> (r: Vec<String>)
        ensures
            r@.len() == listeners@.len(),
            forall|i: int| 0 <= i < listeners@.len() ==> #[trigger] r@[i]@ == annotated(listeners@[i]@, self.local_text()),
    {
        let mut r: Vec<String> = Vec::new();
        let mut i: usize = 0;
        while i < listeners.len()
            invariant
                0 <= i <= listeners@.len(),
                r@.len() == i,
                forall|j: int| 0 <= j < i ==> #[trigger] r@[j]@ == annotated(listeners@[j]@, self.local_text()),
            decreases listeners@.len() - i,
        {
            let mut a = listeners[i].clone();
            a.append("/p2p/");
            a.append(self.local_peer_text.as_str());
            proof {
                reveal_strlit("/p2p/");
            }
            r.push(a);
            i = i + 1;
        }
        r
    }

    /// The parts of the state that an event leaves alone: each flag that is
    /// set names a part that is the same in `post`.
    pub open spec fn keeps(
        &self,
        post: &EventLoop,
        dials: bool,
        providing_q: bool,
        provider_q: bool,
        closest_q: bool,
        record_q: bool,
        provided: bool,
        known: bool,
    ) -> bool {
        &&& dials ==> post.dial_waiters() == self.dial_waiters()
        &&& providing_q ==> post.providing_queries() == self.providing_queries()
        &&& provider_q ==> post.provider_queries() == self.provider_queries()
        &&& closest_q ==> post.closest_queries() == self.closest_queries()
        &&& record_q ==> post.record_queries() == self.record_queries()
        &&& provided ==> post.providing() == self.providing()
        &&& known ==> post.known_peers() == self.known_peers()
    }

    /// The answer to one caller waiting in a table keyed by query id: when
    /// `query` is in `table`, its entry goes and its caller alone is
    /// answered; otherwise nothing is answered and the table stays.
    pub open spec fn answers_one(table: Map<u64, u64>, post_table: Map<u64, u64>, query: u64, ds: Seq<Delivery>) -> bool {
        if table.contains_key(query) {
            &&& post_table == table.remove(query)
            &&& ds.len() == 1
            &&& ds[0].reply_to == table[query]
        } else {
            &&& post_table == table
            &&& ds.len() == 0
        }
    }

    /// Every caller waiting for a connection to `peer` is answered and taken
    /// out, in the order they asked: with success when `ok`, and otherwise
    /// with failure for `reason`.
    pub open spec fn answers_dials(&self, post: &EventLoop, peer: Seq<u8>, ds: Seq<Delivery>, ok: bool, reason: Seq<char>) -> bool {
        let tokens = replies_for(self.dial_waiters(), peer);
        &&& post.dial_waiters() == others_than(self.dial_waiters(), peer)
        &&& ds.len() == tokens.len()
        &&& forall|i: int| 0 <= i < ds.len() ==> #[trigger] ds[i].reply_to == tokens[i] && (ds[i].reply matches Reply::Dialed(x)
            && (if ok { x is Ok } else { x matches Err(e) && e@ == reason }))
    }

    /// What an event does to the state, which callers it answers and with
    /// what, and which transport call it asks for.
    pub open spec fn event_spec(&self, post: &EventLoop, event: Event, step: Step) -> bool {
        let ds = step.deliveries@;
        match event {
            Event::RecordFound { query, value } => {
                &&& step.call is None
                &&& self.keeps(post, true, true, true, true, false, true, true)
                &&& Self::answers_one(self.record_queries(), post.record_queries(), query, ds)
                &&& ds.len() == 1 ==> (ds[0].reply matches Reply::ClearAddress(x)
                    && (forall|n: NodeDataView| #[trigger] holds_record(value@, n) ==> (x matches Ok(d) && d@ == n))
                    && (x matches Ok(d) ==> holds_record(value@, d@)))
            },
            Event::RecordNotFound { query } => {
                &&& step.call is None
                &&& self.keeps(post, true, true, true, true, false, true, true)
                &&& Self::answers_one(self.record_queries(), post.record_queries(), query, ds)
                &&& ds.len() == 1 ==> (ds[0].reply matches Reply::ClearAddress(x) && x matches Ok(d) && d@ == empty_node_data())
            },
            Event::RecordFailed { query, reason } => {
                &&& step.call is None
                &&& self.keeps(post, true, true, true, true, false, true, true)
                &&& Self::answers_one(self.record_queries(), post.record_queries(), query, ds)
                &&& ds.len() == 1 ==> (ds[0].reply matches Reply::ClearAddress(x) && x matches Err(e)
                    && e matches LookupError::Failed(m) && m@ == reason@)
            },
            Event::ProvidersFound { query, key, providers } => {
                &&& step.call is None
                &&& self.keeps(post, true, true, false, true, true, true, true)
                &&& if self.provider_queries().contains_key(query) {
                    &&& post.provider_queries() == self.provider_queries().remove(query)
                    &&& ds.len() == 1
                    &&& ds[0].reply_to == self.provider_queries()[query].0
                    &&& ds[0].reply matches Reply::Providers(v) && views(v@).no_duplicates()
                        && views(v@).to_set() == provider_set(views(providers@).to_set(), self.local(), self.providing(), key@)
                } else {
                    post.provider_queries() == self.provider_queries() && ds.len() == 0
                }
            },
            Event::ProvidersFinished { query } => {
                &&& step.call is None
                &&& self.keeps(post, true, true, false, true, true, true, true)
                &&& if self.provider_queries().contains_key(query) {
                    &&& post.provider_queries() == self.provider_queries().remove(query)
                    &&& ds.len() == 1
                    &&& ds[0].reply_to == self.provider_queries()[query].0
                    &&& ds[0].reply matches Reply::Providers(v) && views(v@).no_duplicates()
                        && views(v@).to_set() == provider_set(Set::empty(), self.local(), self.providing(), self.provider_queries()[query].1)
                } else {
                    post.provider_queries() == self.provider_queries() && ds.len() == 0
                }
            },
            Event::ClosestPeersFound { query, key, peers } => {
                &&& step.call is None
                &&& self.keeps(post, true, true, true, false, true, true, true)
                &&& Self::answers_one(self.closest_queries(), post.closest_queries(), query, ds)
                &&& ds.len() == 1 ==> (ds[0].reply matches Reply::ClosestPeer(p)
                    && p@ == closest_peer_spec(self.local(), views(peers@), key@))
            },
            Event::ProvidingStarted { query, key } => {
                &&& step.call is None
                &&& self.keeps(post, true, false, true, true, true, false, true)
                &&& post.providing() == self.providing().insert(key@)
                &&& Self::answers_one(self.providing_queries(), post.providing_queries(), query, ds)
                &&& ds.len() == 1 ==> (ds[0].reply matches Reply::Providing(x) && x is Ok)
            },
            Event::ProvidingFailed { query, reason } => {
                &&& step.call is None
                &&& self.keeps(post, true, false, true, true, true, true, true)
                &&& Self::answers_one(self.providing_queries(), post.providing_queries(), query, ds)
                &&& ds.len() == 1 ==> (ds[0].reply matches Reply::Providing(x) && x matches Err(e) && e@ == reason@)
            },
            Event::ConnectionEstablished { peer, address, dialer } => {
                &&& step.call matches Some(Call::AddAddress { peer: p, addr: a }) && p@ == peer@ && a@ == address@
                &&& self.keeps(post, false, true, true, true, true, true, false)
                &&& post.known_peers() == self.known_peers().insert((peer@, address@))
                &&& if dialer {
                    self.answers_dials(post, peer@, ds, true, Seq::empty())
                } else {
                    post.dial_waiters() == self.dial_waiters() && ds.len() == 0
                }
            },
            Event::IncomingConnection { send_back_prefix, tcp_port } => {
                &&& self.keeps(post, true, true, true, true, true, true, true)
                &&& ds.len() == 0
                &&& if tcp_port is Some && tcp_port->0 > 0 {
                    step.call matches Some(Call::DialBack { prefix, port }) && prefix@ == send_back_prefix@
                        && port == tcp_port->0 - 1
                } else {
                    step.call is None
                }
            },
            Event::OutgoingConnectionError { peer_id, reason } => {
                &&& step.call is None
                &&& self.keeps(post, false, true, true, true, true, true, true)
                &&& match peer_id {
                    Some(p) => self.answers_dials(post, p@, ds, false, reason@),
                    None => post.dial_waiters() == self.dial_waiters() && ds.len() == 0,
                }
            },
            Event::Other => {
                &&& step.call is None
                &&& self.keeps(post, true, true, true, true, true, true, true)
                &&& ds.len() == 0
            },
        }
    }

    /// Takes the caller waiting on a value lookup out.
    fn take_record_query(&mut self, query: u64) -> (r: Option<u64>)
        requires
            old(self).wf(),
        ensures
            final(self).wf(),
            r == (if old(self).record_queries().contains_key(query) { Some(old(self).record_queries()[query]) } else { None::<u64> }),
            final(self).record_queries() == old(self).record_queries().remove(query),
            r is None ==> final(self).record_queries() == old(self).record_queries(),
            r matches Some(t) ==> final(self).waiting() == old(self).waiting().remove(t) && old(self).waiting().contains_key(t)
                && old(self).waiting()[t] == Wait::Record(query),
            r is None ==> final(self).waiting() == old(self).waiting(),
            old(self).same_peer(final(self)),
            final(self).next_token() == old(self).next_token(),
            old(self).keeps(final(self), true, true, true, true, false, true, true),
    {
        let r = self.get_clear_address.resolve(query);
        proof {
            if r is None {
                assert(old(self).get_clear_address@.remove(query) =~= old(self).get_clear_address@);
            }
        }
        if let Some(t) = r {
            proof {
                self.waiting@ = self.waiting@.remove(t);
            }
        }
        r
    }

    /// Takes the caller waiting on a closest-peers query out.
    fn take_closest_query(&mut self, query: u64) -> (r: Option<u64>)
        requires
            old(self).wf(),
        ensures
            final(self).wf(),
            r == (if old(self).closest_queries().contains_key(query) { Some(old(self).closest_queries()[query]) } else { None::<u64> }),
            final(self).closest_queries() == old(self).closest_queries().remove(query),
            r is None ==> final(self).closest_queries() == old(self).closest_queries(),
            r matches Some(t) ==> final(self).waiting() == old(self).waiting().remove(t) && old(self).waiting().contains_key(t)
                && old(self).waiting()[t] == Wait::Closest(query),
            r is None ==> final(self).waiting() == old(self).waiting(),
            old(self).same_peer(final(self)),
            final(self).next_token() == old(self).next_token(),
            old(self).keeps(final(self), true, true, true, false, true, true, true),
    {
        let r = self.get_closest_peer.resolve(query);
        proof {
            if r is None {
                assert(old(self).get_closest_peer@.remove(query) =~= old(self).get_closest_peer@);
            }
        }
        if let Some(t) = r {
            proof {
                self.waiting@ = self.waiting@.remove(t);
            }
        }
        r
    }

    /// Takes the caller waiting on a start-providing acknowledgement out.
    fn take_providing_query(&mut self, query: u64) -> (r: Option<u64>)
        requires
            old(self).wf(),
        ensures
            final(self).wf(),
            r == (if old(self).providing_queries().contains_key(query) { Some(old(self).providing_queries()[query]) } else { None::<u64> }),
            final(self).providing_queries() == old(self).providing_queries().remove(query),
            r is None ==> final(self).providing_queries() == old(self).providing_queries(),
            r matches Some(t) ==> final(self).waiting() == old(self).waiting().remove(t) && old(self).waiting().contains_key(t)
                && old(self).waiting()[t] == Wait::Providing(query),
            r is None ==> final(self).waiting() == old(self).waiting(),
            old(self).same_peer(final(self)),
            final(self).next_token() == old(self).next_token(),
            old(self).keeps(final(self), true, false, true, true, true, true, true),
    {
        let r = self.start_providing.resolve(query);
        proof {
            if r is None {
                assert(old(self).start_providing@.remove(query) =~= old(self).start_providing@);
            }
        }
        if let Some(t) = r {
            proof {
                self.waiting@ = self.waiting@.remove(t);
            }
        }
        r
    }

    /// Takes the caller waiting on a providers query out.
    fn take_provider_query(&mut self, query: u64) -> (r: Option<ProviderWait>)
        requires
            old(self).wf(),
        ensures
            final(self).wf(),
            old(self).provider_queries().contains_key(query) <==> r is Some,
            r matches Some(w) ==> (w.reply, w.key@) == old(self).provider_queries()[query],
            final(self).provider_queries() == old(self).provider_queries().remove(query),
            r is None ==> final(self).provider_queries() == old(self).provider_queries(),
            r matches Some(w) ==> final(self).waiting() == old(self).waiting().remove(w.reply) && old(self).waiting().contains_key(w.reply)
                && old(self).waiting()[w.reply] == Wait::Providers(query),
            r is None ==> final(self).waiting() == old(self).waiting(),
            old(self).same_peer(final(self)),
            final(self).next_token() == old(self).next_token(),
            old(self).keeps(final(self), true, true, false, true, true, true, true),
    {
        let r = self.get_providers.resolve(query);
        proof {
            if r is None {
                assert(old(self).get_providers@.remove(query) =~= old(self).get_providers@);
            }
        }
        if let Some(w) = &r {
            proof {
                self.waiting@ = self.waiting@.remove(w.reply);
            }
        }
        r
    }

    /// Takes every caller waiting for a connection to `peer` out.
    fn take_dials(&mut self, peer: &Vec<u8>) -> (r: Vec<u64>)
        requires
            old(self).wf(),
        ensures
            final(self).wf(),
            r@ == replies_for(old(self).dial_waiters(), peer@),
            r@.no_duplicates(),
            final(self).dial_waiters() == others_than(old(self).dial_waiters(), peer@),
            final(self).waiting() == old(self).waiting().remove_keys(r@.to_set()),
            forall|i: int| 0 <= i < r@.len() ==> old(self).waiting().contains_key(#[trigger] r@[i])
                && old(self).waiting()[r@[i]] == Wait::Dial(peer@),
            old(self).same_peer(final(self)),
            final(self).next_token() == old(self).next_token(),
            old(self).keeps(final(self), false, true, true, true, true, true, true),
    {
        let ghost d = self.dials@;
        let ghost w = self.waiting@;
        let ghost pred = |x: (Seq<u8>, u64)| x.0 != peer@;
        let r = self.dials.take_peer(peer);
        proof {
            let removed = r@.to_set();
            self.waiting@ = w.remove_keys(removed);
            assert forall|i: int| 0 <= i < r@.len() implies w.contains_key(#[trigger] r@[i]) && w[r@[i]] == Wait::Dial(peer@) by {
                assert(r@.contains(r@[i]));
                lemma_replies_for_members(d, peer@, r@[i]);
                let k = choose|k: int| 0 <= k < d.len() && d[k] == (peer@, r@[i]);
                assert(w[d[k].1] == Wait::Dial(d[k].0));
            }
            let nd = self.dials@;
            assert forall|i: int| 0 <= i < nd.len() implies self.waiting@.contains_key(#[trigger] nd[i].1)
                && self.waiting@[nd[i].1] == Wait::Dial(nd[i].0) by {
                d.lemma_filter_pred(pred, i);
                d.lemma_filter_contains_rev(pred, nd[i]);
                let k = choose|k: int| 0 <= k < d.len() && d[k] == nd[i];
                assert(w[d[k].1] == Wait::Dial(d[k].0));
                if removed.contains(nd[i].1) {
                    let j = choose|j: int| 0 <= j < r@.len() && r@[j] == nd[i].1;
                    assert(w[r@[j]] == Wait::Dial(peer@));
                }
            }
            assert forall|t: u64| #[trigger] self.waiting@.contains_key(t) implies match self.waiting@[t] {
                Wait::Dial(p) => nd.contains((p, t)),
                Wait::Providing(q) => self.start_providing@.contains_key(q) && self.start_providing@[q] == t,
                Wait::Providers(q) => self.get_providers@.contains_key(q) && self.get_providers@[q].0 == t,
                Wait::Closest(q) => self.get_closest_peer@.contains_key(q) && self.get_closest_peer@[q] == t,
                Wait::Record(q) => self.get_clear_address@.contains_key(q) && self.get_clear_address@[q] == t,
            } by {
                match self.waiting@[t] {
                    Wait::Dial(p) => {
                        let k = choose|k: int| 0 <= k < d.len() && d[k] == (p, t);
                        if p == peer@ {
                            lemma_replies_for_members(d, peer@, t);
                            let j = choose|j: int| 0 <= j < r@.len() && r@[j] == t;
                            assert(removed.contains(t));
                        }
                        d.lemma_filter_contains(pred, k);
                    },
                    _ => {},
                }
            }
        }
        r
    }

    /// The providers found, each once, with the local peer added when it
    /// provides the key itself.
    pub fn provider_reply(&self, found: &Vec<Vec<u8>>, key: &Vec<u8>) -> (r: Vec<Vec<u8>>)
        ensures
            views(r@).no_duplicates(),
            views(r@).to_set() == provider_set(views(found@).to_set(), self.local(), self.providing(), key@),
    {
        let mut r: Vec<Vec<u8>> = Vec::new();
        let mut i: usize = 0;
        assert(views(r@).to_set() =~= Set::<Seq<u8>>::empty());
        while i < found.len()
            invariant
                0 <= i <= found@.len(),
                views(r@).no_duplicates(),
                views(r@).to_set() == views(found@.subrange(0, i as int)).to_set(),
            decreases found@.len() - i,
        {
            insert_bytes(&mut r, copy_bytes(&found[i]));
            proof {
                let prev = views(found@.subrange(0, i as int));
                assert(views(found@.subrange(0, i + 1)) =~= prev.push(found@[i as int]@));
                prev.lemma_push_to_set_commute(found@[i as int]@);
            }
            i = i + 1;
        }
        assert(found@.subrange(0, found@.len() as int) =~= found@);
        if self.is_providing(key) {
            insert_bytes(&mut r, copy_bytes(&self.local_peer));
        }
        r
    }

    /// Whether `peer` was seen at `address`.
    pub fn knows_peer(&self, peer: &Vec<u8>, address: &String) -> (r: bool)
        ensures
            r == self.known_peers().contains((peer@, address@)),
    {
        let ghost v = self.known_peers@.map_values(|p: PeerAddress| peer_address_view(p));
        let mut i: usize = 0;
        while i < self.known_peers.len()
            invariant
                0 <= i <= self.known_peers@.len(),
                v == self.known_peers@.map_values(|p: PeerAddress| peer_address_view(p)),
                forall|j: int| 0 <= j < i ==> v[j] != (peer@, address@),
            decreases self.known_peers@.len() - i,
        {
            if bytes_equal(&self.known_peers[i].peer, peer) && self.known_peers[i].address == *address {
                assert(v[i as int] == (peer@, address@));
                return true;
            }
            i = i + 1;
        }
        false
    }

    /// Records that `peer` was seen at `address`.
    fn note_peer(&mut self, peer: &Vec<u8>, address: &String)
        ensures
            final(self).known_peers() == old(self).known_peers().insert((peer@, address@)),
            final(self).local_peer == old(self).local_peer,
            final(self).local_peer_text == old(self).local_peer_text,
            final(self).next_reply == old(self).next_reply,
            final(self).dials == old(self).dials,
            final(self).start_providing == old(self).start_providing,
            final(self).get_providers == old(self).get_providers,
            final(self).get_closest_peer == old(self).get_closest_peer,
            final(self).get_clear_address == old(self).get_clear_address,
            final(self).providing == old(self).providing,
            final(self).waiting == old(self).waiting,
    {
        if self.knows_peer(peer, address) {
            assert(self.known_peers() =~= self.known_peers().insert((peer@, address@)));
        } else {
            let ghost before = self.known_peers@.map_values(|p: PeerAddress| peer_address_view(p));
            self.known_peers.push(PeerAddress { peer: copy_bytes(peer), address: address.clone() });
            proof {
                assert(self.known_peers@.map_values(|p: PeerAddress| peer_address_view(p)) =~= before.push((peer@, address@)));
                before.lemma_push_to_set_commute((peer@, address@));
            }
        }
    }

    /// The replies to the callers of a dial: success, or failure with `reason`.
    fn dial_replies(tokens: &Vec<u64>, ok: bool, reason: &String) -> (r: Vec<Delivery>)
        ensures
            r@.len() == tokens@.len(),
            forall|i: int| 0 <= i < r@.len() ==> #[trigger] r@[i].reply_to == tokens@[i] && (r@[i].reply matches Reply::Dialed(x)
                && (if ok { x is Ok } else { x matches Err(e) && e@ == reason@ })),
    {
        let mut r: Vec<Delivery> = Vec::new();
        let mut i: usize = 0;
        while i < tokens.len()
            invariant
                0 <= i <= tokens@.len(),
                r@.len() == i,
                forall|k: int| 0 <= k < i ==> Self::dial_reply_for(#[trigger] r@[k], tokens@[k], ok, reason@),
            decreases tokens@.len() - i,
        {
            let outcome = if ok {
                Ok(())
            } else {
                Err(reason.clone())
            };
            r.push(Delivery { reply_to: tokens[i], reply: Reply::Dialed(outcome) });
            i = i + 1;
        }
        assert forall|k: int| 0 <= k < r@.len() implies #[trigger] r@[k].reply_to == tokens@[k] && (r@[k].reply matches Reply::Dialed(x)
            && (if ok { x is Ok } else { x matches Err(e) && e@ == reason@ })) by {
            assert(Self::dial_reply_for(r@[k], tokens@[k], ok, reason@));
        }
        r
    }

    /// `d` answers the dial of reply token `t`: with success, or with failure for `reason`.
    pub open spec fn dial_reply_for(d: Delivery, t: u64, ok: bool, reason: Seq<char>) -> bool {
        &&& d.reply_to == t
        &&& d.reply matches Reply::Dialed(x) && (if ok { x is Ok } else { x matches Err(e) && e@ == reason })
    }

    /// Applies a transport event: answers the callers whose operation it
    /// ends, updates what the actor knows, and says which transport call, if
    /// any, follows.
    ///
    /// A value that was found is read as an address record; a lookup that
    /// found nothing answers with the empty record. A providers answer holds
    /// the local peer when it provides the key. A closest-peer answer is
    /// [`closest_peer`] of the local peer and the peers found. A new
    /// connection adds the peer to the known peers and, when the local peer
    /// dialed, answers the callers waiting on the dial. An incoming
    /// connection whose dial-back endpoint ends in TCP port `p > 0` asks to
    /// dial back port `p - 1`. Events of other kinds change nothing.
    #[verifier::rlimit(50)]
    pub fn handle_event(&mut self, event: Event) -> (r: Step)
        requires
            old(self).wf(),
        ensures
            final(self).wf(),
            final(self).same_peer(old(self)),
            final(self).next_token() == old(self).next_token(),
            old(self).event_spec(final(self), event, r),
            forall|i: int, j: int| 0 <= i < j < r.deliveries@.len() ==> #[trigger] r.deliveries@[i].reply_to
                != #[trigger] r.deliveries@[j].reply_to,
            forall|i: int| 0 <= i < r.deliveries@.len() ==> old(self).waiting().contains_key(#[trigger] r.deliveries@[i].reply_to)
                && answers(old(self).waiting()[r.deliveries@[i].reply_to], r.deliveries@[i].reply),
            final(self).waiting() == old(self).waiting().remove_keys(reply_tokens(r.deliveries@)),
            token_step(old(self).waiting(), old(self).next_token(), final(self).waiting(), final(self).next_token(), reply_tokens(r.deliveries@)),
    {
        let ghost w = self.waiting@;
        let mut deliveries: Vec<Delivery> = Vec::new();
        let mut call: Option<Call> = None;
        match event {
            Event::RecordFound { query, value } => {
                if let Some(t) = self.take_record_query(query) {
                    deliveries = vec![Delivery { reply_to: t, reply: Reply::ClearAddress(decode_node_data(&value)) }];
                }
            },
            Event::RecordNotFound { query } => {
                if let Some(t) = self.take_record_query(query) {
                    deliveries = vec![Delivery { reply_to: t, reply: Reply::ClearAddress(Ok(NodeData::empty())) }];
                }
            },
            Event::RecordFailed { query, reason } => {
                if let Some(t) = self.take_record_query(query) {
                    deliveries = vec![Delivery { reply_to: t, reply: Reply::ClearAddress(Err(LookupError::Failed(reason))) }];
                }
            },
            Event::ProvidersFound { query, key, providers } => {
                if let Some(pw) = self.take_provider_query(query) {
                    let v = self.provider_reply(&providers, &key);
                    deliveries = vec![Delivery { reply_to: pw.reply, reply: Reply::Providers(v) }];
                }
            },
            Event::ProvidersFinished { query } => {
                if let Some(pw) = self.take_provider_query(query) {
                    let none: Vec<Vec<u8>> = Vec::new();
                    assert(views(none@).to_set() =~= Set::<Seq<u8>>::empty());
                    let v = self.provider_reply(&none, &pw.key);
                    deliveries = vec![Delivery { reply_to: pw.reply, reply: Reply::Providers(v) }];
                }
            },
            Event::ClosestPeersFound { query, key, peers } => {
                if let Some(t) = self.take_closest_query(query) {
                    let p = closest_peer(&self.local_peer, &peers, &key);
                    deliveries = vec![Delivery { reply_to: t, reply: Reply::ClosestPeer(p) }];
                }
            },
            Event::ProvidingStarted { query, key } => {
                insert_bytes(&mut self.providing, key);
                if let Some(t) = self.take_providing_query(query) {
                    deliveries = vec![Delivery { reply_to: t, reply: Reply::Providing(Ok(())) }];
                }
            },
            Event::ProvidingFailed { query, reason } => {
                if let Some(t) = self.take_providing_query(query) {
                    deliveries = vec![Delivery { reply_to: t, reply: Reply::Providing(Err(reason)) }];
                }
            },
            Event::ConnectionEstablished { peer, address, dialer } => {
                self.note_peer(&peer, &address);
                if dialer {
                    let tokens = self.take_dials(&peer);
                    deliveries = Self::dial_replies(&tokens, true, &String::new());
                    proof {
                        assert(reply_tokens(deliveries@) =~= tokens@.to_set()) by {
                            assert(deliveries@.map_values(|d: Delivery| d.reply_to) =~= tokens@);
                        }
                    }
                }
                call = Some(Call::AddAddress { peer, addr: address });
            },
            Event::IncomingConnection { send_back_prefix, tcp_port } => {
                if let Some(p) = tcp_port {
                    if p > 0 {
                        call = Some(Call::DialBack { prefix: send_back_prefix, port: p - 1 });
                    }
                }
            },
            Event::OutgoingConnectionError { peer_id, reason } => {
                if let Some(peer) = peer_id {
                    let tokens = self.take_dials(&peer);
                    deliveries = Self::dial_replies(&tokens, false, &reason);
                    proof {
                        assert(reply_tokens(deliveries@) =~= tokens@.to_set()) by {
                            assert(deliveries@.map_values(|d: Delivery| d.reply_to) =~= tokens@);
                        }
                    }
                }
            },
            Event::Other => {},
        }
        proof {
            if deliveries@.len() == 0 {
                assert(reply_tokens(deliveries@) =~= Set::<u64>::empty());
                assert(w.remove_keys(Set::<u64>::empty()) =~= w);
            }
            if deliveries@.len() == 1 {
                let t = deliveries@[0].reply_to;
                assert(deliveries@.map_values(|d: Delivery| d.reply_to) =~= seq![t]);
                assert forall|x: u64| seq![t].to_set().contains(x) <==> x == t by {
                    if x == t {
                        assert(seq![t][0] == t);
                    }
                }
                assert(reply_tokens(deliveries@) =~= set![t]);
                assert(w.remove_keys(set![t]) =~= w.remove(t));
            }
        }
        Step { deliveries, call }
    }

    /// Whether the local peer provides the key.
    pub fn is_providing(&self, key: &Vec<u8>) -> (r: bool)
        ensures
            r == self.providing().contains(key@),
    {
        contains_bytes(&self.providing, key)
    }
}

} // verus!
