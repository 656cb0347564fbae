use openbazaar::actor::{Call, CallResult, Command, Completion, Event, EventLoop, Reply, Step};
use openbazaar::node::{NodeAddressType, NodeData};
use openbazaar::record::{encode_node_data, LookupError};

fn peer(n: u8) -> Vec<u8> {
    vec![0, 36, 8, 1, 18, 32, n, n, n]
}

fn node(n: u8) -> EventLoop {
    EventLoop::new(peer(n), format!("peer{}", n))
}

fn awaited(c: Completion) -> u64 {
    match c {
        Completion::Await(t) => t,
        _ => panic!("the caller should wait"),
    }
}

fn answered(c: Completion) -> Reply {
    match c {
        Completion::Answer(r) => r,
        _ => panic!("the caller should be answered"),
    }
}

fn single(step: Step) -> (u64, Reply) {
    assert_eq!(step.deliveries.len(), 1);
    let d = step.deliveries.into_iter().next().unwrap();
    (d.reply_to, d.reply)
}

#[test]
fn dial_then_connection_answers_dialer_and_records_peer() {
    let mut a = node(1);
    let mut b = node(2);
    let cmd = Command::Dial { peer: peer(2), addr: "/ip4/127.0.0.1/tcp/4001".to_string() };
    match a.plan(&cmd) {
        Call::Dial { peer: p, addr } => {
            assert_eq!(p, peer(2));
            assert_eq!(addr, "/ip4/127.0.0.1/tcp/4001");
        }
        _ => panic!("a dial is planned"),
    }
    assert!(a.accepts(&cmd, &CallResult::Done));
    let t = awaited(a.handle_command(cmd, CallResult::Done));
    let step = a.handle_event(Event::ConnectionEstablished {
        peer: peer(2),
        address: "/ip4/127.0.0.1/tcp/4001".to_string(),
        dialer: true,
    });
    match &step.call {
        Some(Call::AddAddress { peer: p, addr }) => {
            assert_eq!(*p, peer(2));
            assert_eq!(addr, "/ip4/127.0.0.1/tcp/4001");
        }
        _ => panic!("the address is added"),
    }
    let (to, reply) = single(step);
    assert_eq!(to, t);
    assert!(matches!(reply, Reply::Dialed(Ok(()))));
    assert!(a.knows_peer(&peer(2), &"/ip4/127.0.0.1/tcp/4001".to_string()));

    let step = b.handle_event(Event::ConnectionEstablished {
        peer: peer(1),
        address: "/ip4/127.0.0.1/tcp/5000".to_string(),
        dialer: false,
    });
    assert!(step.deliveries.is_empty());
    assert!(b.knows_peer(&peer(1), &"/ip4/127.0.0.1/tcp/5000".to_string()));
    assert!(!b.knows_peer(&peer(3), &"/ip4/127.0.0.1/tcp/5000".to_string()));
}

#[test]
fn second_dial_changes_nothing() {
    let mut a = node(1);
    let cmd = Command::Dial { peer: peer(2), addr: "/ip4/10.0.0.2/tcp/1".to_string() };
    let t1 = awaited(a.handle_command(cmd, CallResult::Done));
    let again = Command::Dial { peer: peer(2), addr: "/ip4/10.0.0.2/tcp/1".to_string() };
    assert!(matches!(a.plan(&again), Call::AlreadyDialing));
    match answered(a.handle_command(again, CallResult::Done)) {
        Reply::Dialed(Err(e)) => assert_eq!(e, "a dial to this peer is already under way"),
        _ => panic!("the second dial is answered at once"),
    }
    let step = a.handle_event(Event::OutgoingConnectionError { peer_id: Some(peer(2)), reason: "refused".to_string() });
    let (to, reply) = single(step);
    assert_eq!(to, t1);
    match reply {
        Reply::Dialed(Err(e)) => assert_eq!(e, "refused"),
        _ => panic!("a failed dial"),
    }
    let later = a.handle_event(Event::ConnectionEstablished {
        peer: peer(2),
        address: "/ip4/10.0.0.2/tcp/1".to_string(),
        dialer: true,
    });
    assert!(later.deliveries.is_empty());
}

#[test]
fn refused_dial_is_answered_at_once() {
    let mut a = node(1);
    let cmd = Command::Dial { peer: peer(2), addr: "/ip4/10.0.0.2/tcp/1".to_string() };
    match answered(a.handle_command(cmd, CallResult::Failed("no route".to_string()))) {
        Reply::Dialed(Err(e)) => assert_eq!(e, "no route"),
        _ => panic!("a failed dial"),
    }
}

#[test]
fn listening_then_listen_addresses_carry_identity() {
    let mut a = node(1);
    let cmd = Command::StartListening { addr: "/ip4/0.0.0.0/tcp/0".to_string() };
    match a.plan(&cmd) {
        Call::Listen { addr } => assert_eq!(addr, "/ip4/0.0.0.0/tcp/0"),
        _ => panic!("listen is planned"),
    }
    assert!(matches!(answered(a.handle_command(cmd, CallResult::Done)), Reply::Listening(Ok(()))));
    let cmd = Command::GetListenAddress;
    assert!(matches!(a.plan(&cmd), Call::ListListeners));
    let listeners = vec!["/ip4/127.0.0.1/tcp/41000".to_string()];
    match answered(a.handle_command(cmd, CallResult::Listeners(listeners))) {
        Reply::ListenAddresses(v) => {
            assert!(!v.is_empty());
            assert_eq!(v, vec!["/ip4/127.0.0.1/tcp/41000/p2p/peer1".to_string()]);
        }
        _ => panic!("listen addresses"),
    }
}

#[test]
fn listen_failure_is_reported() {
    let mut a = node(1);
    let cmd = Command::StartListening { addr: "/ip4/0.0.0.0/tcp/0".to_string() };
    match answered(a.handle_command(cmd, CallResult::Failed("in use".to_string()))) {
        Reply::Listening(Err(e)) => assert_eq!(e, "in use"),
        _ => panic!("a failed listen"),
    }
}

#[test]
fn missing_address_record_gives_empty_record() {
    let mut a = node(1);
    let cmd = Command::GetClearAddress { peer: peer(9) };
    match a.plan(&cmd) {
        Call::GetRecord { key } => assert_eq!(key, peer(9)),
        _ => panic!("a record lookup"),
    }
    let t = awaited(a.handle_command(cmd, CallResult::Started(5)));
    let (to, reply) = single(a.handle_event(Event::RecordNotFound { query: 5 }));
    assert_eq!(to, t);
    match reply {
        Reply::ClearAddress(Ok(d)) => {
            assert!(d.is_empty());
            assert_eq!(d.address_type, NodeAddressType::Clear);
        }
        _ => panic!("an empty record"),
    }
}

#[test]
fn published_address_resolves_to_itself() {
    let a = node(1);
    let mut b = node(2);
    let put = Command::PutClearAddress { kind: NodeAddressType::Ipv4, address: "10.1.2.3:8010".to_string() };
    let (key, value) = match a.plan(&put) {
        Call::PutRecord { key, value } => (key, value),
        _ => panic!("a record is stored"),
    };
    assert_eq!(key, peer(1));
    let t = awaited(b.handle_command(Command::GetClearAddress { peer: peer(1) }, CallResult::Started(11)));
    let (to, reply) = single(b.handle_event(Event::RecordFound { query: 11, value }));
    assert_eq!(to, t);
    match reply {
        Reply::ClearAddress(Ok(d)) => assert_eq!(
            d,
            NodeData { peer_id: peer(1), address: "10.1.2.3:8010".to_string(), address_type: NodeAddressType::Ipv4 }
        ),
        _ => panic!("the published record"),
    }
}

#[test]
fn corrupt_record_is_a_lookup_failure() {
    let mut b = node(2);
    awaited(b.handle_command(Command::GetClearAddress { peer: peer(1) }, CallResult::Started(3)));
    let (_, reply) = single(b.handle_event(Event::RecordFound { query: 3, value: vec![1, 2, 3] }));
    assert!(matches!(reply, Reply::ClearAddress(Err(LookupError::Malformed(_)))));
}

#[test]
fn failed_lookup_is_reported() {
    let mut b = node(2);
    awaited(b.handle_command(Command::GetClearAddress { peer: peer(1) }, CallResult::Started(3)));
    let (_, reply) = single(b.handle_event(Event::RecordFailed { query: 3, reason: "timeout".to_string() }));
    match reply {
        Reply::ClearAddress(Err(LookupError::Failed(m))) => assert_eq!(m, "timeout"),
        _ => panic!("a failed lookup"),
    }
}

#[test]
fn provided_key_lists_local_peer() {
    let mut a = node(1);
    let key = b"share".to_vec();
    let t = awaited(a.handle_command(Command::StartProviding { key: key.clone() }, CallResult::Started(1)));
    let (to, reply) = single(a.handle_event(Event::ProvidingStarted { query: 1, key: key.clone() }));
    assert_eq!(to, t);
    assert!(matches!(reply, Reply::Providing(Ok(()))));
    assert!(a.is_providing(&key));
    awaited(a.handle_command(Command::GetProviders { key: key.clone() }, CallResult::Started(2)));
    let (_, reply) = single(a.handle_event(Event::ProvidersFound {
        query: 2,
        key: key.clone(),
        providers: vec![peer(4), peer(4), peer(5)],
    }));
    match reply {
        Reply::Providers(mut v) => {
            v.sort();
            assert_eq!(v, vec![peer(1), peer(4), peer(5)]);
        }
        _ => panic!("providers"),
    }
}

#[test]
fn stopped_key_no_longer_lists_local_peer() {
    let mut a = node(1);
    let key = b"share".to_vec();
    awaited(a.handle_command(Command::StartProviding { key: key.clone() }, CallResult::Started(1)));
    single(a.handle_event(Event::ProvidingStarted { query: 1, key: key.clone() }));
    let stop = Command::StopProviding { key: key.clone() };
    assert!(matches!(a.plan(&stop), Call::StopProviding { .. }));
    assert!(matches!(answered(a.handle_command(stop, CallResult::Done)), Reply::StoppedProviding));
    assert!(!a.is_providing(&key));
    awaited(a.handle_command(Command::GetProviders { key: key.clone() }, CallResult::Started(2)));
    let (_, reply) = single(a.handle_event(Event::ProvidersFinished { query: 2 }));
    match reply {
        Reply::Providers(v) => assert!(v.is_empty()),
        _ => panic!("providers"),
    }
}

#[test]
fn finished_providers_query_lists_local_provider() {
    let mut a = node(1);
    let key = b"k".to_vec();
    awaited(a.handle_command(Command::StartProviding { key: key.clone() }, CallResult::Started(1)));
    single(a.handle_event(Event::ProvidingStarted { query: 1, key: key.clone() }));
    awaited(a.handle_command(Command::GetProviders { key: key.clone() }, CallResult::Started(2)));
    let (_, reply) = single(a.handle_event(Event::ProvidersFinished { query: 2 }));
    match reply {
        Reply::Providers(v) => assert_eq!(v, vec![peer(1)]),
        _ => panic!("providers"),
    }
    let late = a.handle_event(Event::ProvidersFinished { query: 2 });
    assert!(late.deliveries.is_empty());
}

#[test]
fn providing_failure_is_reported() {
    let mut a = node(1);
    awaited(a.handle_command(Command::StartProviding { key: vec![1] }, CallResult::Started(8)));
    let (_, reply) = single(a.handle_event(Event::ProvidingFailed { query: 8, reason: "timeout".to_string() }));
    match reply {
        Reply::Providing(Err(e)) => assert_eq!(e, "timeout"),
        _ => panic!("a failure"),
    }
    assert!(!a.is_providing(&vec![1]));
}

#[test]
fn closest_peer_query_without_candidates_answers_local() {
    let mut a = node(1);
    let t = awaited(a.handle_command(Command::GetClosestPeer { key: b"content".to_vec() }, CallResult::Started(4)));
    let (to, reply) = single(a.handle_event(Event::ClosestPeersFound { query: 4, key: b"content".to_vec(), peers: vec![] }));
    assert_eq!(to, t);
    match reply {
        Reply::ClosestPeer(p) => assert_eq!(p, peer(1)),
        _ => panic!("a closest peer"),
    }
}

#[test]
fn replies_go_to_their_own_callers() {
    let mut a = node(1);
    let t1 = awaited(a.handle_command(Command::GetClosestPeer { key: vec![1] }, CallResult::Started(10)));
    let t2 = awaited(a.handle_command(Command::GetClearAddress { peer: peer(2) }, CallResult::Started(11)));
    let t3 = awaited(a.handle_command(Command::GetProviders { key: vec![3] }, CallResult::Started(12)));
    assert!(t1 != t2 && t2 != t3 && t1 != t3);
    let (to, reply) = single(a.handle_event(Event::ProvidersFound { query: 12, key: vec![3], providers: vec![] }));
    assert_eq!(to, t3);
    assert!(matches!(reply, Reply::Providers(_)));
    let (to, reply) = single(a.handle_event(Event::RecordNotFound { query: 11 }));
    assert_eq!(to, t2);
    assert!(matches!(reply, Reply::ClearAddress(Ok(_))));
    let (to, reply) = single(a.handle_event(Event::ClosestPeersFound { query: 10, key: vec![1], peers: vec![] }));
    assert_eq!(to, t1);
    assert!(matches!(reply, Reply::ClosestPeer(_)));
    assert!(a.handle_event(Event::RecordNotFound { query: 11 }).deliveries.is_empty());
    assert!(a.handle_event(Event::ClosestPeersFound { query: 10, key: vec![1], peers: vec![] }).deliveries.is_empty());
}

#[test]
fn answers_are_checked_against_commands() {
    let mut a = node(1);
    assert!(!a.accepts(&Command::GetProviders { key: vec![1] }, &CallResult::Done));
    assert!(a.accepts(&Command::GetProviders { key: vec![1] }, &CallResult::Started(1)));
    awaited(a.handle_command(Command::GetProviders { key: vec![1] }, CallResult::Started(1)));
    assert!(a.query_pending(1));
    assert!(!a.accepts(&Command::GetClosestPeer { key: vec![1] }, &CallResult::Started(1)));
    assert!(!a.accepts(&Command::GetListenAddress, &CallResult::Done));
}

#[test]
fn incoming_connection_dials_back_lower_port() {
    let mut a = node(1);
    let step = a.handle_event(Event::IncomingConnection {
        send_back_prefix: "/ip4/10.0.0.7".to_string(),
        tcp_port: Some(4002),
    });
    match step.call {
        Some(Call::DialBack { prefix, port }) => {
            assert_eq!(prefix, "/ip4/10.0.0.7");
            assert_eq!(port, 4001);
        }
        _ => panic!("a dial back"),
    }
    let step = a.handle_event(Event::IncomingConnection { send_back_prefix: "/ip4/10.0.0.7".to_string(), tcp_port: Some(0) });
    assert!(step.call.is_none());
    let step = a.handle_event(Event::IncomingConnection { send_back_prefix: "/ip4/10.0.0.7".to_string(), tcp_port: None });
    assert!(step.call.is_none());
}

#[test]
fn put_clear_address_stores_encoded_record() {
    let mut a = node(1);
    let put = Command::PutClearAddress { kind: NodeAddressType::Onion, address: "abc.onion".to_string() };
    let expected = encode_node_data(&NodeData {
        peer_id: peer(1),
        address: "abc.onion".to_string(),
        address_type: NodeAddressType::Onion,
    });
    match a.plan(&put) {
        Call::PutRecord { key, value } => {
            assert_eq!(key, peer(1));
            assert_eq!(value, expected);
        }
        _ => panic!("a record is stored"),
    }
    assert!(matches!(answered(a.handle_command(put, CallResult::Started(1))), Reply::AddressPublished(Ok(()))));
    let put = Command::PutClearAddress { kind: NodeAddressType::Onion, address: "abc.onion".to_string() };
    match answered(a.handle_command(put, CallResult::Failed("store full".to_string()))) {
        Reply::AddressPublished(Err(e)) => assert_eq!(e, "store full"),
        _ => panic!("a failure"),
    }
}

#[test]
fn other_events_change_nothing() {
    let mut a = node(1);
    let step = a.handle_event(Event::Other);
    assert!(step.deliveries.is_empty());
    assert!(step.call.is_none());
    assert_eq!(a.local_peer(), &peer(1));
}
