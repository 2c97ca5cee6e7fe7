use tokio::sync::mpsc::{channel, Sender};
use websocket::auth::User;
use websocket::server::Registry;
use websocket::update_log::{compute_diff, next_clock};
use websocket::websocket::client::{Client, Frame, SessionStep};
use websocket::websocket::syncer::{Action, PendingStore, Syncer};
use websocket::websocket::{strip_tag, with_tag, Message, MESSAGE_UPDATE};
use yrs::updates::decoder::Decode;
use yrs::updates::encoder::Encode;
use yrs::{Doc, GetString, ReadTxn, StateVector, Text, Transact, Update};

fn join(syncer: &mut Syncer, inbox: &Sender<Message>) -> Client {
    let (tx, _rx) = channel(128);
    let mut client = Client::new(User { id: 1 }, tx, inbox.clone());
    assert!(matches!(syncer.process_message(client.connect_message().unwrap()), Action::Nothing));
    client
}

fn forward(client: &Client, bytes: Vec<u8>) -> Message {
    match client.read_message(Frame::Binary(bytes)) {
        SessionStep::Forward(m) => m,
        _ => panic!("expected the frame to be forwarded"),
    }
}

fn prepare(syncer: &Syncer, update: Vec<u8>) -> Option<PendingStore> {
    let update_sv = yrs::encode_state_vector_from_update_v1(&update).ok();
    syncer.prepare_store(update, update_sv)
}

fn merged_diff(log: &[Vec<u8>], state_vector: &[u8]) -> Option<Vec<u8>> {
    let rows: Vec<&[u8]> = log.iter().map(|u| u.as_slice()).collect();
    let merged = yrs::merge_updates_v1(&rows).ok()?;
    yrs::diff_updates_v1(&merged, state_vector).ok()
}

#[test]
fn broadcast_keeps_the_frame() {
    let (inbox, _rx) = channel(128);
    let mut syncer = Syncer::new(1, 0, None).unwrap();
    let a = join(&mut syncer, &inbox);
    let b = join(&mut syncer, &inbox);
    match syncer.process_message(forward(&a, vec![1, 2, 3, 0])) {
        Action::DeliverAndStore(d, update) => {
            assert_eq!(d.len(), 1);
            assert_eq!(d[0].client, b.id());
            assert_eq!(d[0].frame, vec![1, 2, 3, 0]);
            assert_eq!(update, vec![1, 2, 3]);
            assert!(prepare(&syncer, update).is_none());
        }
        _ => panic!("expected a relay"),
    }
}

#[test]
fn update_log_clocks_and_state_vector() {
    let (inbox, _rx) = channel(128);
    let mut syncer = Syncer::new(1, 0, None).unwrap();
    let a = join(&mut syncer, &inbox);
    let doc = Doc::new();
    let text = doc.get_or_insert_text("t");
    let mut log: Vec<(i64, Vec<u8>)> = Vec::new();
    let mut sent: Vec<Vec<u8>> = Vec::new();
    for word in ["a", "b", "c"] {
        let before = doc.transact().state_vector();
        text.push(&mut doc.transact_mut(), word);
        let u = doc.transact().encode_diff_v1(&before);
        sent.push(u.clone());
        match syncer.process_message(forward(&a, with_tag(u, MESSAGE_UPDATE))) {
            Action::DeliverAndStore(d, update) => {
                assert!(d.is_empty());
                let pending = prepare(&syncer, update).unwrap();
                let current = log.last().map(|r| r.0).unwrap_or(-1);
                let clock = next_clock(current).unwrap();
                let row_state_vector = pending.encoded_state_vector();
                log.push((clock, pending.update.clone()));
                syncer.store_finished(pending, true);
                assert_eq!(
                    StateVector::decode_v1(&row_state_vector).unwrap(),
                    doc.transact().state_vector()
                );
            }
            _ => panic!("expected a store"),
        }
    }
    assert_eq!(log.iter().map(|r| r.0).collect::<Vec<_>>(), vec![0, 1, 2]);
    assert_eq!(log.iter().map(|r| r.1.clone()).collect::<Vec<_>>(), sent);

    let values: Vec<Vec<u8>> = log.iter().map(|r| r.1.clone()).collect();
    let rows: Vec<&[u8]> = values.iter().map(|v| v.as_slice()).collect();
    let merged = yrs::merge_updates_v1(&rows).unwrap();
    let probe = join(&mut syncer, &inbox);
    let empty = with_tag(StateVector::default().encode_v1(), 1);
    let request = match syncer.process_message(forward(&probe, empty)) {
        Action::LoadUpdates(r) => r,
        _ => panic!("expected a request for the log"),
    };
    let diff = compute_diff(&values, merged_diff(&values, &request.state_vector));
    let answer = syncer.answer_diff(&request, diff);
    let step1 = strip_tag(answer[1].frame.clone());
    assert_eq!(
        StateVector::decode_v1(&step1).unwrap(),
        Update::decode_v1(&merged).unwrap().state_vector()
    );
}

#[test]
fn diff_of_empty_log_is_empty() {
    assert_eq!(compute_diff(&Vec::new(), None), Some(Vec::new()));
    assert_eq!(compute_diff(&Vec::new(), Some(vec![4])), Some(Vec::new()));
}

#[test]
fn diff_skips_what_the_peer_has() {
    let doc = Doc::new();
    let text = doc.get_or_insert_text("t");
    text.push(&mut doc.transact_mut(), "ab");
    let first = doc.transact().encode_diff_v1(&StateVector::default());
    let mid = doc.transact().state_vector();
    text.push(&mut doc.transact_mut(), "cd");
    let second = doc.transact().encode_diff_v1(&mid);

    let peer = Doc::new();
    let peer_text = peer.get_or_insert_text("t");
    peer.transact_mut().apply_update(Update::decode_v1(&first).unwrap());
    let peer_sv = peer.transact().state_vector().encode_v1();
    let log = vec![first.clone(), second];
    let diff = compute_diff(&log, merged_diff(&log, &peer_sv)).unwrap();
    assert!(!diff.is_empty());
    peer.transact_mut().apply_update(Update::decode_v1(&diff).unwrap());
    assert_eq!(peer_text.get_string(&peer.transact()), "abcd");
    let one = vec![first];
    assert_eq!(compute_diff(&one, merged_diff(&one, &[9, 9])), None);
}

#[test]
fn last_disconnect_terminates_and_reconnect_revives() {
    let (inbox, _rx) = channel(128);
    let mut syncer = Syncer::new(1, 0, None).unwrap();
    let a = join(&mut syncer, &inbox);
    let b = join(&mut syncer, &inbox);
    assert!(matches!(syncer.process_message(a.disconnect_message()), Action::Nothing));
    assert!(!syncer.can_stop());
    assert!(matches!(syncer.process_message(b.disconnect_message()), Action::Terminate));
    assert!(syncer.can_stop());
    let c = join(&mut syncer, &inbox);
    assert!(!syncer.can_stop());
    assert!(syncer.sink(c.id()).is_some());
    assert!(syncer.sink(a.id()).is_none());
}

#[test]
fn connect_again_replaces_the_queue() {
    let mut syncer = Syncer::new(1, 0, None).unwrap();
    let (first, _r1) = channel::<Vec<u8>>(1);
    let (second, _r2) = channel::<Vec<u8>>(1);
    let (other, _r3) = channel::<Vec<u8>>(1);
    syncer.process_message(Message::Connect(5, first.clone()));
    syncer.process_message(Message::Connect(6, other.clone()));
    assert!(syncer.sink(5).unwrap().same_channel(&first));
    syncer.process_message(Message::Connect(5, second.clone()));
    assert!(syncer.sink(5).unwrap().same_channel(&second));
    assert!(syncer.sink(6).unwrap().same_channel(&other));
    syncer.process_message(Message::Disconnect(5));
    assert!(syncer.sink(5).is_none());
    assert!(syncer.sink(6).unwrap().same_channel(&other));
}

#[test]
fn deregister_only_without_clients_and_own_entry() {
    let mut registry = Registry::new();
    let (stamp, rx) = registry.get_or_create(1);
    assert!(rx.is_some());
    let inbox = registry.inbox(1).unwrap().clone();
    let mut syncer = Syncer::new(1, stamp, None).unwrap();
    let a = join(&mut syncer, &inbox);
    assert!(!syncer.deregister(&mut registry));
    assert!(registry.contains(1));
    assert!(matches!(syncer.process_message(a.disconnect_message()), Action::Terminate));
    let stale = Syncer::new(1, stamp + 1, None).unwrap();
    assert!(!stale.deregister(&mut registry));
    assert!(registry.contains(1));
    assert!(syncer.deregister(&mut registry));
    assert!(!registry.contains(1));
}

#[test]
fn each_client_gets_the_others_updates_in_order() {
    let (inbox, _rx) = channel(128);
    let mut syncer = Syncer::new(1, 0, None).unwrap();
    let a = join(&mut syncer, &inbox);
    let b = join(&mut syncer, &inbox);
    let c = join(&mut syncer, &inbox);
    let mut to_a: Vec<Vec<u8>> = Vec::new();
    let mut to_b: Vec<Vec<u8>> = Vec::new();
    for (sender, frame) in [(&a, vec![7, 0]), (&b, vec![8, 0]), (&c, vec![9, 0])] {
        if let Action::DeliverAndStore(d, _) = syncer.process_message(forward(sender, frame)) {
            for x in d {
                if x.client == a.id() {
                    to_a.push(x.frame);
                } else if x.client == b.id() {
                    to_b.push(x.frame);
                }
            }
        } else {
            panic!("expected a relay");
        }
    }
    assert_eq!(to_a, vec![vec![8, 0], vec![9, 0]]);
    assert_eq!(to_b, vec![vec![7, 0], vec![9, 0]]);
}

#[test]
fn get_awareness_alone_does_nothing() {
    let (inbox, _rx) = channel(128);
    let mut syncer = Syncer::new(1, 0, None).unwrap();
    let a = join(&mut syncer, &inbox);
    assert!(matches!(syncer.process_message(forward(&a, vec![3])), Action::Nothing));
    assert!(syncer.awareness_candidates(a.id()).is_empty());
}

#[test]
fn get_diff_from_unknown_client_is_ignored() {
    let mut syncer = Syncer::new(1, 0, None).unwrap();
    assert!(matches!(syncer.process_message(Message::GetDiff(77, vec![0, 1])), Action::Nothing));
}

#[test]
fn frames_that_are_dropped_or_stop() {
    let (inbox, _rx) = channel(128);
    let (tx, _out) = channel(128);
    let mut client = Client::new(User { id: 1 }, tx.clone(), inbox);
    assert!(client.read_binary_message(Vec::new()).is_none());
    assert!(client.read_binary_message(vec![1, 2, 9]).is_none());
    assert!(matches!(client.read_binary_message(vec![5, 1]), Some(Message::GetDiff(_, ref f)) if f == &vec![5, 1]));
    assert!(matches!(client.read_binary_message(vec![5, 2]), Some(Message::Update(_, _))));
    assert!(matches!(client.read_binary_message(vec![5, 3]), Some(Message::UpdateAwareness(_, _))));
    assert!(matches!(client.read_binary_message(vec![3]), Some(Message::GetAwareness(id)) if id == client.id()));
    assert!(matches!(client.read_message(Frame::Close), SessionStep::Stop));
    assert!(matches!(client.read_message(Frame::Text(String::from("hi"))), SessionStep::Skip));
    assert!(matches!(client.disconnect_message(), Message::Disconnect(id) if id == client.id()));
    match client.connect_message() {
        Some(Message::Connect(id, sink)) => {
            assert_eq!(id, client.id());
            assert!(sink.same_channel(&tx));
        }
        _ => panic!("expected a connect"),
    }
    assert!(client.connect_message().is_none());
}

#[test]
fn syncer_seeds_its_state_vector() {
    let doc = Doc::new();
    doc.get_or_insert_text("t").push(&mut doc.transact_mut(), "x");
    let sv = doc.transact().state_vector();
    let mut syncer = Syncer::new(3, 0, Some(sv.encode_v1())).unwrap();
    assert_eq!(syncer.document_id(), 3);
    let (inbox, _rx) = channel(128);
    let a = join(&mut syncer, &inbox);
    let request = match syncer.process_message(forward(&a, vec![0, 1])) {
        Action::LoadUpdates(r) => r,
        _ => panic!("expected a request for the log"),
    };
    let answer = syncer.answer_diff(&request, compute_diff(&Vec::new(), None));
    assert_eq!(answer[0].frame, vec![2]);
    assert_eq!(StateVector::decode_v1(&strip_tag(answer[1].frame.clone())).unwrap(), sv);
    assert!(syncer.answer_diff(&request, None).is_empty());
    assert!(Syncer::new(3, 0, Some(vec![5])).is_none());
}

#[test]
fn next_clock_follows_the_largest() {
    assert_eq!(next_clock(-1), Some(0));
    assert_eq!(next_clock(41), Some(42));
    assert_eq!(next_clock(i64::MAX), None);
}

#[test]
fn registry_creates_once_and_removes_its_own() {
    let mut registry = Registry::new();
    let (stamp, rx) = registry.get_or_create(8);
    assert!(rx.is_some());
    let first = registry.inbox(8).unwrap().clone();
    let (stamp2, rx2) = registry.get_or_create(8);
    assert!(rx2.is_none());
    assert_eq!(stamp, stamp2);
    assert!(first.same_channel(registry.inbox(8).unwrap()));
    assert!(!registry.remove_if_same(8, stamp + 1));
    assert!(registry.contains(8));
    assert!(registry.remove_if_same(8, stamp));
    assert!(!registry.contains(8));
    assert!(registry.inbox(8).is_none());
    let (stamp3, rx3) = registry.get_or_create(8);
    assert!(rx3.is_some());
    assert_ne!(stamp3, stamp);
}

#[test]
fn failed_store_keeps_the_state_vector() {
    let (inbox, _rx) = channel(128);
    let mut syncer = Syncer::new(1, 0, None).unwrap();
    let a = join(&mut syncer, &inbox);
    let doc = Doc::new();
    doc.get_or_insert_text("t").push(&mut doc.transact_mut(), "z");
    let u = doc.transact().encode_diff_v1(&StateVector::default());
    match syncer.process_message(forward(&a, with_tag(u, MESSAGE_UPDATE))) {
        Action::DeliverAndStore(_, update) => {
            let pending = prepare(&syncer, update).unwrap();
            syncer.store_finished(pending, false);
        }
        _ => panic!("expected a store"),
    }
    let request = match syncer.process_message(forward(&a, vec![0, 1])) {
        Action::LoadUpdates(r) => r,
        _ => panic!("expected a request for the log"),
    };
    let answer = syncer.answer_diff(&request, Some(Vec::new()));
    assert_eq!(
        StateVector::decode_v1(&strip_tag(answer[1].frame.clone())).unwrap(),
        StateVector::default()
    );
}
