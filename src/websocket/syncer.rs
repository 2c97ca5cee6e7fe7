//! The per-document syncer: the one owner of a document's live clients and
//! of its canonical state vector.
//!
//! Events arrive one at a time; [`Syncer::process_message`] turns each into
//! the next state and an [`Action`] that the actor's task carries out
//! (sending frames, running the store transaction, loading the update log).

use vstd::prelude::*;
use crate::crdt::{
    decode_state_vector, decoded_state_vector, empty_state_vector, encode_state_vector,
    merge_clocks, merge_state_vector, sv_entries,
};
use crate::server::Registry;
use crate::websocket::client::inbound_event;
use crate::websocket::{
    frame_payload, frame_tag, framed, strip_tag, with_tag, Message, MESSAGE_GET_AWARENESS,
    MESSAGE_SYNC_STEP_1, MESSAGE_SYNC_STEP_2, MESSAGE_UPDATE,
};
use rand::seq::IteratorRandom;

verus! {

/// The clients other than `sender`, in order.
pub open spec fn peers_of(ids: Seq<u128>, sender: u128) -> Seq<u128>
    decreases ids.len(),
{
    if ids.len() == 0 {
        ids
    } else if ids.last() == sender {
        peers_of(ids.drop_last(), sender)
    } else {
        peers_of(ids.drop_last(), sender).push(ids.last())
    }
}

/// The client list after `id` connects: a known id keeps its place (its sink
/// is replaced), a new one goes last.
pub open spec fn connect_ids(ids: Seq<u128>, id: u128) -> Seq<u128> {
    if ids.contains(id) {
        ids
    } else {
        ids.push(id)
    }
}

/// The frames a broadcast sends: `frame` to each client but the sender.
pub open spec fn broadcast(ids: Seq<u128>, sender: u128, frame: Seq<u8>) -> Seq<(u128, Seq<u8>)> {
    peers_of(ids, sender).map_values(|c: u128| (c, frame))
}

proof fn lemma_peers_of_absent(ids: Seq<u128>, x: u128)
    requires
        !ids.contains(x),
    ensures
        peers_of(ids, x) == ids,
    decreases ids.len(),
{
    if ids.len() > 0 {
        assert(!ids.drop_last().contains(x)) by {
            if ids.drop_last().contains(x) {
                let j = choose|j: int| 0 <= j < ids.drop_last().len() && ids.drop_last()[j] == x;
                assert(ids[j] == x);
            }
        }
        lemma_peers_of_absent(ids.drop_last(), x);
        assert(ids.drop_last().push(ids.last()) =~= ids);
    }
}

proof fn lemma_peers_of_remove(ids: Seq<u128>, i: int)
    requires
        ids.no_duplicates(),
        0 <= i < ids.len(),
    ensures
        peers_of(ids, ids[i]) == ids.remove(i),
    decreases ids.len(),
{
    let x = ids[i];
    let rest = ids.drop_last();
    if i == ids.len() - 1 {
        assert(!rest.contains(x)) by {
            if rest.contains(x) {
                let j = choose|j: int| 0 <= j < rest.len() && rest[j] == x;
                assert(ids[j] == ids[i]);
            }
        }
        lemma_peers_of_absent(rest, x);
        assert(ids.remove(i) =~= rest);
    } else {
        assert(rest[i] == x);
        assert(rest.no_duplicates());
        lemma_peers_of_remove(rest, i);
        assert(ids.last() != x);
        assert(rest.remove(i).push(ids.last()) =~= ids.remove(i));
    }
}

/// Relies on `IteratorRandom::choose` with `rand::thread_rng`: one of the
/// candidates, `None` only when there are none.
#[verifier::external_body]
fn choose_client(candidates: &Vec<u128>) -> (r: Option<u128>)
    ensures
        r is None <==> candidates@.len() == 0,
        r is Some ==> candidates@.contains(r->Some_0),
{
    candidates.iter().copied().choose(&mut rand::thread_rng())
}

/// The answer to a request for awareness, once a peer has been picked: the
/// one-byte frame to that peer, or nothing when there is none.
pub fn awareness_request(target: Option<u128>) -> (a: Action)
    ensures
        target is None ==> a is Nothing,
        target is Some ==> a is Deliver && action_deliveries(a) == seq![(target->Some_0, seq![MESSAGE_GET_AWARENESS])],
{
    match target {
        Some(c) => {
            let frame = vec![MESSAGE_GET_AWARENESS];
            assert(frame@ =~= seq![MESSAGE_GET_AWARENESS]);
            let d = vec![Delivery { client: c, frame }];
            assert(delivery_views(d@) =~= seq![(c, seq![MESSAGE_GET_AWARENESS])]);
            Action::Deliver(d)
        },
        None => Action::Nothing,
    }
}

/// The queue that the last entry for `id` holds.
pub open spec fn sink_in<S>(clients: Seq<(u128, S)>, id: u128) -> S
    decreases clients.len(),
{
    if clients.len() == 0 {
        arbitrary()
    } else if clients.last().0 == id {
        clients.last().1
    } else {
        sink_in(clients.drop_last(), id)
    }
}

proof fn lemma_sink_in_at<S>(clients: Seq<(u128, S)>, k: int)
    requires
        0 <= k < clients.len(),
        forall|a: int, b: int| 0 <= a < clients.len() && 0 <= b < clients.len() && a != b
            ==> clients[a].0 != clients[b].0,
    ensures
        sink_in(clients, clients[k].0) == clients[k].1,
    decreases clients.len(),
{
    if k < clients.len() - 1 {
        assert(clients.last().0 != clients[k].0);
        let rest = clients.drop_last();
        assert(rest[k] == clients[k]);
        assert forall|a: int, b: int| 0 <= a < rest.len() && 0 <= b < rest.len() && a != b
            implies rest[a].0 != rest[b].0 by {
            assert(rest[a] == clients[a]);
            assert(rest[b] == clients[b]);
        }
        lemma_sink_in_at(rest, k);
    }
}

/// A frame for one client's outbound queue.
pub struct Delivery {
    pub client: u128,
    pub frame: Vec<u8>,
}

impl View for Delivery {
    type V = (u128, Seq<u8>);

    open spec fn view(&self) -> (u128, Seq<u8>) {
        (self.client, self.frame@)
    }
}

/// The (client, frame) pairs of a list of deliveries.
pub open spec fn delivery_views(d: Seq<Delivery>) -> Seq<(u128, Seq<u8>)> {
    d.map_values(|x: Delivery| x@)
}

/// An update waiting for the store transaction, with the state vector the
/// document will have once it is committed.
pub struct PendingStore {
    /// The CRDT update, tag stripped: the log row's value.
    pub update: Vec<u8>,
    /// The update's state vector merged into the syncer's.
    pub state_vector: yrs::StateVector,
}

impl PendingStore {
    pub open spec fn clocks(&self) -> Map<u64, u32> {
        sv_entries(self.state_vector)
    }

    /// The bytes written to the document row's `state_vector` column.
    pub fn encoded_state_vector(&self) -> (r: Vec<u8>)
        ensures
            decoded_state_vector(r@) == Some(self.clocks()),
    {
        encode_state_vector(&self.state_vector)
    }
}

/// A client's request for what it lacks: its state vector, tag stripped.
pub struct DiffRequest {
    pub requester: u128,
    pub state_vector: Vec<u8>,
}

/// What the actor's task does after an event.
pub enum Action {
    Nothing,
    /// Send each frame to its client.
    Deliver(Vec<Delivery>),
    /// Send each frame, then store the update (tag stripped): compute its
    /// state vector, prepare the store with [`Syncer::prepare_store`], run
    /// the store transaction and end it with [`Syncer::store_finished`].
    DeliverAndStore(Vec<Delivery>, Vec<u8>),
    /// Load the document's update log, diff it against the requester's
    /// state vector, and answer with [`Syncer::answer_diff`].
    LoadUpdates(DiffRequest),
    /// The last client left: under the registry lock, hand any events still
    /// queued to the syncer, then call [`Syncer::deregister`].
    Terminate,
}

/// The frames an action sends (none for an action that sends nothing).
pub open spec fn action_deliveries(a: Action) -> Seq<(u128, Seq<u8>)> {
    match a {
        Action::Deliver(d) => delivery_views(d@),
        Action::DeliverAndStore(d, _) => delivery_views(d@),
        _ => Seq::empty(),
    }
}

pub struct Syncer {
    clients: Vec<(u128, tokio::sync::mpsc::Sender<Vec<u8>>)>,
    document_id: u128,
    stamp: u64,
    state_vector: yrs::StateVector,
}

impl Syncer {
    /// The connected clients with their outbound queues, in order of
    /// connection.
    pub closed spec fn clients_view(&self) -> Seq<(u128, tokio::sync::mpsc::Sender<Vec<u8>>)> {
        self.clients@
    }

    /// The connected clients, in order of connection.
    pub open spec fn client_ids(&self) -> Seq<u128> {
        self.clients_view().map_values(|c: (u128, tokio::sync::mpsc::Sender<Vec<u8>>)| c.0)
    }

    /// The outbound queue of a connected client.
    pub open spec fn sink_of(&self, id: u128) -> tokio::sync::mpsc::Sender<Vec<u8>> {
        sink_in(self.clients_view(), id)
    }

    /// The canonical state vector.
    pub closed spec fn clocks(&self) -> Map<u64, u32> {
        sv_entries(self.state_vector)
    }

    pub closed spec fn document(&self) -> u128 {
        self.document_id
    }

    /// The stamp of the registry entry that holds this syncer's inbox.
    pub closed spec fn stamp(&self) -> u64 {
        self.stamp
    }

    /// Each client is connected once.
    pub open spec fn wf(&self) -> bool {
        self.client_ids().no_duplicates()
    }

    proof fn lemma_sink_at(&self, k: int)
        requires
            self.wf(),
            0 <= k < self.clients_view().len(),
        ensures
            self.sink_of(self.clients_view()[k].0) == self.clients_view()[k].1,
    {
        assert forall|a: int, b: int| 0 <= a < self.clients_view().len() && 0 <= b < self.clients_view().len() && a != b
            implies self.clients_view()[a].0 != self.clients_view()[b].0 by {
            assert(self.client_ids()[a] == self.clients_view()[a].0);
            assert(self.client_ids()[b] == self.clients_view()[b].0);
        }
        lemma_sink_in_at(self.clients_view(), k);
    }

    /// A syncer with no clients for the document whose registry entry has
    /// `stamp`, its state vector decoded from the document row (empty where
    /// the row has none); `None` where the stored bytes do not decode.
    pub fn new(document_id: u128, stamp: u64, state_vector: Option<Vec<u8>>) -> (r: Option<Syncer>)
        ensures
            r is None <==> (state_vector is Some && decoded_state_vector(state_vector->Some_0@) is None),
            r is Some ==> r->Some_0.wf() && r->Some_0.client_ids().len() == 0,
            r is Some ==> r->Some_0.document() == document_id && r->Some_0.stamp() == stamp,
            r is Some && state_vector is None ==> r->Some_0.clocks().dom() == Set::<u64>::empty(),
            r is Some && state_vector is Some ==> Some(r->Some_0.clocks()) == decoded_state_vector(state_vector->Some_0@),
    {
        let sv = match state_vector {
            Some(bytes) => match decode_state_vector(bytes.as_slice()) {
                Ok(sv) => sv,
                Err(_) => {
                    return None;
                },
            },
            None => empty_state_vector(),
        };
        let s = Syncer { clients: Vec::new(), document_id, stamp, state_vector: sv };
        proof {
            assert(s.client_ids() =~= Seq::<u128>::empty());
        }
        Some(s)
    }

    pub fn document_id(&self) -> (r: u128)
        ensures
            r == self.document(),
    {
        self.document_id
    }

    /// The outbound queue of a connected client.
    pub fn sink(&self, id: u128) -> (r: Option<&tokio::sync::mpsc::Sender<Vec<u8>>>)
        requires
            self.wf(),
        ensures
            r is Some <==> self.client_ids().contains(id),
            r is Some ==> *r->Some_0 == self.sink_of(id),
    {
        match self.position(id) {
            Some(i) => {
                proof {
                    self.lemma_sink_at(i as int);
                }
                Some(&self.clients[i].1)
            },
            None => None,
        }
    }

    /// Whether no client is connected: the syncer may be deregistered.
    pub fn can_stop(&self) -> (r: bool)
        ensures
            r <==> self.client_ids().len() == 0,
    {
        self.clients.len() == 0
    }

    /// The end of termination, called under the registry lock once the
    /// queued events are handled: a syncer without clients whose inbox is
    /// still the document's registry entry removes that entry and may exit;
    /// one that a late `Connect` revived stays, and so does the entry.
    pub fn deregister(&self, registry: &mut Registry) -> (r: bool)
        ensures
            r <==> (self.client_ids().len() == 0 && old(registry).stamp_of(self.document()) == Some(self.stamp())),
            r ==> final(registry).entries() == old(registry).entries().remove(self.document()),
            !r ==> *final(registry) == *old(registry),
    {
        if self.clients.len() > 0 {
            return false;
        }
        registry.remove_if_same(self.document_id, self.stamp)
    }

    fn position(&self, id: u128) -> (r: Option<usize>)
        ensures
            r is None <==> !self.client_ids().contains(id),
            r is Some ==> r->Some_0 < self.clients@.len() && self.client_ids()[r->Some_0 as int] == id,
    {
        let mut i: usize = 0;
        while i < self.clients.len()
            invariant
                i <= self.clients@.len(),
                forall|j: int| 0 <= j < i ==> self.client_ids()[j] != id,
            decreases self.clients@.len() - i,
        {
            if self.clients[i].0 == id {
                assert(self.client_ids()[i as int] == id);
                return Some(i);
            }
            i = i + 1;
        }
        None
    }

    /// The frames that relay `frame` to every client but `sender`.
    pub fn forward_update(&self, sender: u128, frame: &Vec<u8>) -> (r: Vec<Delivery>)
        ensures
            delivery_views(r@) == broadcast(self.client_ids(), sender, frame@),
    {
        let mut out: Vec<Delivery> = Vec::new();
        let mut i: usize = 0;
        while i < self.clients.len()
            invariant
                i <= self.clients@.len(),
                delivery_views(out@) == broadcast(self.client_ids().take(i as int), sender, frame@),
            decreases self.clients@.len() - i,
        {
            let ghost before = out@;
            let id = self.clients[i].0;
            proof {
                let ids = self.client_ids();
                assert(ids.take(i + 1).drop_last() =~= ids.take(i as int));
                assert(ids.take(i + 1).last() == id);
            }
            if id != sender {
                out.push(Delivery { client: id, frame: frame.clone() });
                proof {
                    assert(delivery_views(out@) =~= delivery_views(before).push((id, frame@)));
                    assert(broadcast(self.client_ids().take(i + 1), sender, frame@)
                        =~= broadcast(self.client_ids().take(i as int), sender, frame@).push((id, frame@)));
                }
            }
            i = i + 1;
        }
        proof {
            assert(self.client_ids().take(self.clients@.len() as int) =~= self.client_ids());
        }
        out
    }

    /// Registers a client's outbound queue; a known id gets the new queue.
    fn connect(&mut self, id: u128, sink: tokio::sync::mpsc::Sender<Vec<u8>>)
        requires
            old(self).wf(),
        ensures
            final(self).wf(),
            final(self).client_ids() == connect_ids(old(self).client_ids(), id),
            final(self).sink_of(id) == sink,
            forall|c: u128| c != id && #[trigger] old(self).client_ids().contains(c)
                ==> final(self).sink_of(c) == old(self).sink_of(c),
            final(self).clocks() == old(self).clocks(),
            final(self).document() == old(self).document(),
            final(self).stamp() == old(self).stamp(),
    {
        let ghost before = *self;
        match self.position(id) {
            Some(i) => {
                self.clients.set(i, (id, sink));
                assert(self.client_ids() =~= before.client_ids());
                proof {
                    self.lemma_sink_at(i as int);
                    assert forall|c: u128| c != id && #[trigger] before.client_ids().contains(c)
                        implies self.sink_of(c) == before.sink_of(c) by {
                        let j = choose|j: int| 0 <= j < before.client_ids().len() && before.client_ids()[j] == c;
                        before.lemma_sink_at(j);
                        self.lemma_sink_at(j);
                    }
                }
            },
            None => {
                self.clients.push((id, sink));
                assert(self.client_ids() =~= before.client_ids().push(id));
                assert(self.client_ids().no_duplicates()) by {
                    let ids = self.client_ids();
                    assert forall|a: int, b: int| 0 <= a < ids.len() && 0 <= b < ids.len() && a != b
                        implies ids[a] != ids[b] by {
                        if a < ids.len() - 1 && b < ids.len() - 1 {
                            assert(before.client_ids()[a] == ids[a]);
                            assert(before.client_ids()[b] == ids[b]);
                        } else if a == ids.len() - 1 {
                            assert(before.client_ids()[b] == ids[b]);
                        } else {
                            assert(before.client_ids()[a] == ids[a]);
                        }
                    }
                }
                proof {
                    self.lemma_sink_at(before.clients_view().len() as int);
                    assert forall|c: u128| c != id && #[trigger] before.client_ids().contains(c)
                        implies self.sink_of(c) == before.sink_of(c) by {
                        let j = choose|j: int| 0 <= j < before.client_ids().len() && before.client_ids()[j] == c;
                        before.lemma_sink_at(j);
                        self.lemma_sink_at(j);
                    }
                }
            },
        }
    }

    /// Removes a client; an unknown id changes nothing.
    fn disconnect(&mut self, id: u128)
        requires
            old(self).wf(),
        ensures
            final(self).wf(),
            final(self).client_ids() == peers_of(old(self).client_ids(), id),
            forall|c: u128| #[trigger] final(self).client_ids().contains(c)
                ==> final(self).sink_of(c) == old(self).sink_of(c),
            final(self).clocks() == old(self).clocks(),
            final(self).document() == old(self).document(),
            final(self).stamp() == old(self).stamp(),
    {
        let ghost before = *self;
        match self.position(id) {
            Some(i) => {
                let ghost ids = before.client_ids();
                self.clients.remove(i);
                assert(self.client_ids() =~= ids.remove(i as int));
                proof {
                    lemma_peers_of_remove(ids, i as int);
                    assert(self.client_ids().no_duplicates()) by {
                        let n = self.client_ids();
                        assert forall|a: int, b: int| 0 <= a < n.len() && 0 <= b < n.len() && a != b
                            implies n[a] != n[b] by {
                            let oa = if a < i { a } else { a + 1 };
                            let ob = if b < i { b } else { b + 1 };
                            assert(n[a] == ids[oa]);
                            assert(n[b] == ids[ob]);
                        }
                    }
                    assert forall|c: u128| #[trigger] self.client_ids().contains(c)
                        implies self.sink_of(c) == before.sink_of(c) by {
                        let j = choose|j: int| 0 <= j < self.client_ids().len() && self.client_ids()[j] == c;
                        let oj = if j < i { j } else { j + 1 };
                        assert(self.clients_view()[j] == before.clients_view()[oj]);
                        self.lemma_sink_at(j);
                        before.lemma_sink_at(oj);
                    }
                }
            },
            None => {
                proof {
                    lemma_peers_of_absent(self.client_ids(), id);
                }
            },
        }
    }

    /// The clients a request for awareness may be passed to: all but the
    /// requester.
    pub fn awareness_candidates(&self, requester: u128) -> (r: Vec<u128>)
        ensures
            r@ == peers_of(self.client_ids(), requester),
    {
        let mut out: Vec<u128> = Vec::new();
        let mut i: usize = 0;
        while i < self.clients.len()
            invariant
                i <= self.clients@.len(),
                out@ == peers_of(self.client_ids().take(i as int), requester),
            decreases self.clients@.len() - i,
        {
            let id = self.clients[i].0;
            proof {
                let ids = self.client_ids();
                assert(ids.take(i + 1).drop_last() =~= ids.take(i as int));
                assert(ids.take(i + 1).last() == id);
            }
            if id != requester {
                out.push(id);
            }
            i = i + 1;
        }
        proof {
            assert(self.client_ids().take(self.clients@.len() as int) =~= self.client_ids());
        }
        out
    }

    /// The store of an update, once its state vector is computed
    /// (`None` where the update did not decode): the update with its state
    /// vector merged into the syncer's, or `None` where there is nothing to
    /// store.
    pub fn prepare_store(&self, update: Vec<u8>, update_state_vector: Option<Vec<u8>>) -> (r: Option<PendingStore>)
        ensures
            r is Some <==> (update_state_vector is Some
                && decoded_state_vector(update_state_vector->Some_0@) is Some),
            r is Some ==> r->Some_0.update@ == update@
                && r->Some_0.clocks() == merge_clocks(
                    decoded_state_vector(update_state_vector->Some_0@)->Some_0,
                    self.clocks(),
                ),
    {
        match update_state_vector {
            Some(bytes) => match decode_state_vector(bytes.as_slice()) {
                Ok(update_sv) => {
                    let mut state_vector = update_sv;
                    merge_state_vector(&mut state_vector, self.state_vector.clone());
                    Some(PendingStore { update, state_vector })
                },
                Err(_) => None,
            },
            None => None,
        }
    }

    /// The answer to a sync step 1, once the diff is computed (see
    /// `compute_diff`): the diff as a sync step 2, then this syncer's own
    /// state vector as a sync step 1. Nothing where there is no diff.
    pub fn answer_diff(&self, request: &DiffRequest, diff: Option<Vec<u8>>) -> (r: Vec<Delivery>)
        ensures
            diff is None ==> r@.len() == 0,
            diff is Some ==> {
                &&& r@.len() == 2
                &&& r@[0]@ == (request.requester, framed(diff->Some_0@, MESSAGE_SYNC_STEP_2))
                &&& r@[1].client == request.requester
                &&& r@[1].frame@.len() > 0
                &&& frame_tag(r@[1].frame@) == MESSAGE_SYNC_STEP_1
                &&& decoded_state_vector(frame_payload(r@[1].frame@)) == Some(self.clocks())
            },
    {
        match diff {
            Some(diff) => {
                let step2 = with_tag(diff, MESSAGE_SYNC_STEP_2);
                let sv = encode_state_vector(&self.state_vector);
                let step1 = with_tag(sv, MESSAGE_SYNC_STEP_1);
                assert(frame_payload(step1@) =~= sv@);
                let mut out: Vec<Delivery> = Vec::new();
                out.push(Delivery { client: request.requester, frame: step2 });
                out.push(Delivery { client: request.requester, frame: step1 });
                out
            },
            None => Vec::new(),
        }
    }

    /// Ends a store transaction: a committed one brings its state vector
    /// into the syncer's; a failed one (rolled back) changes nothing.
    pub fn store_finished(&mut self, pending: PendingStore, committed: bool)
        requires
            old(self).wf(),
        ensures
            final(self).wf(),
            committed ==> final(self).clocks() == merge_clocks(old(self).clocks(), pending.clocks()),
            !committed ==> final(self).clocks() == old(self).clocks(),
            final(self).clients_view() == old(self).clients_view(),
            final(self).document() == old(self).document(),
            final(self).stamp() == old(self).stamp(),
    {
        if committed {
            merge_state_vector(&mut self.state_vector, pending.state_vector);
        }
    }

    /// Handles one event of the inbox.
    ///
    /// - `Connect` registers the client's outbound queue; nothing is sent.
    /// - `Disconnect` removes it; when none is left the syncer asks to
    ///   terminate.
    /// - `Update` relays the frame as it is to every other client, then asks
    ///   for its payload to be stored.
    /// - `GetDiff` asks for the update log, to answer the requester.
    /// - `UpdateAwareness` relays the frame to every other client.
    /// - `GetAwareness` passes a one-byte request to one other client,
    ///   picked at random.
    pub fn process_message(&mut self, message: Message) -> (a: Action)
        requires
            old(self).wf(),
        ensures
            final(self).wf(),
            final(self).document() == old(self).document(),
            final(self).stamp() == old(self).stamp(),
            final(self).clocks() == old(self).clocks(),
            !(message is Connect || message is Disconnect) ==> final(self).clients_view() == old(self).clients_view(),
            message is Connect ==> a is Nothing
                && final(self).client_ids() == connect_ids(old(self).client_ids(), message->Connect_0)
                && final(self).sink_of(message->Connect_0) == message->Connect_1,
            message is Connect ==> forall|c: u128| c != message->Connect_0 && #[trigger] old(self).client_ids().contains(c)
                ==> final(self).sink_of(c) == old(self).sink_of(c),
            message is Disconnect ==> final(self).client_ids() == peers_of(old(self).client_ids(), message->Disconnect_0)
                && (a is Terminate <==> final(self).client_ids().len() == 0)
                && (a is Nothing <==> final(self).client_ids().len() > 0),
            message is Disconnect ==> forall|c: u128| #[trigger] final(self).client_ids().contains(c)
                ==> final(self).sink_of(c) == old(self).sink_of(c),
            message is Update ==> a is DeliverAndStore
                && action_deliveries(a) == broadcast(old(self).client_ids(), message->Update_0, message->Update_1@)
                && a->DeliverAndStore_1@ == frame_payload(message->Update_1@),
            message is GetDiff ==> (a is LoadUpdates <==> old(self).client_ids().contains(message->GetDiff_0))
                && (a is Nothing <==> !old(self).client_ids().contains(message->GetDiff_0)),
            message is GetDiff && a is LoadUpdates ==> a->LoadUpdates_0.requester == message->GetDiff_0
                && a->LoadUpdates_0.state_vector@ == frame_payload(message->GetDiff_1@),
            message is UpdateAwareness ==> a is Deliver
                && action_deliveries(a) == broadcast(old(self).client_ids(), message->UpdateAwareness_0, message->UpdateAwareness_1@),
            message is GetAwareness ==> (a is Nothing <==> peers_of(old(self).client_ids(), message->GetAwareness_0).len() == 0)
                && (a is Nothing || a is Deliver),
            message is GetAwareness && a is Deliver ==> action_deliveries(a).len() == 1
                && action_deliveries(a)[0].1 == seq![MESSAGE_GET_AWARENESS]
                && peers_of(old(self).client_ids(), message->GetAwareness_0).contains(action_deliveries(a)[0].0),
    {
        match message {
            Message::Connect(id, sink) => {
                self.connect(id, sink);
                Action::Nothing
            },
            Message::Disconnect(id) => {
                self.disconnect(id);
                if self.clients.len() == 0 {
                    Action::Terminate
                } else {
                    Action::Nothing
                }
            },
            Message::Update(id, frame) => {
                let deliveries = self.forward_update(id, &frame);
                Action::DeliverAndStore(deliveries, strip_tag(frame))
            },
            Message::GetDiff(id, frame) => {
                if self.position(id).is_some() {
                    Action::LoadUpdates(DiffRequest { requester: id, state_vector: strip_tag(frame) })
                } else {
                    Action::Nothing
                }
            },
            Message::UpdateAwareness(id, frame) => {
                Action::Deliver(self.forward_update(id, &frame))
            },
            Message::GetAwareness(id) => {
                let candidates = self.awareness_candidates(id);
                let target = choose_client(&candidates);
                awareness_request(target)
            },
        }
    }
}

/// The frames addressed to client `c` among one step's deliveries, in order.
pub open spec fn frames_to(d: Seq<(u128, Seq<u8>)>, c: u128) -> Seq<Seq<u8>>
    decreases d.len(),
{
    if d.len() == 0 {
        Seq::empty()
    } else if d.last().0 == c {
        frames_to(d.drop_last(), c).push(d.last().1)
    } else {
        frames_to(d.drop_last(), c)
    }
}

/// What client `c` is sent over a run of steps, in order.
pub open spec fn outbound(steps: Seq<Seq<(u128, Seq<u8>)>>, c: u128) -> Seq<Seq<u8>>
    decreases steps.len(),
{
    if steps.len() == 0 {
        Seq::empty()
    } else {
        outbound(steps.drop_last(), c) + frames_to(steps.last(), c)
    }
}

/// The frames of the processed updates that reach client `c`: each update is
/// (the clients connected then, its sender, its frame), and it reaches `c`
/// when `c` was connected and did not send it. This keeps the updates'
/// order and drops the others: a subsequence of them.
pub open spec fn relayed(updates: Seq<(Seq<u128>, u128, Seq<u8>)>, c: u128) -> Seq<Seq<u8>>
    decreases updates.len(),
{
    if updates.len() == 0 {
        Seq::empty()
    } else {
        let u = updates.last();
        if u.0.contains(c) && u.1 != c {
            relayed(updates.drop_last(), c).push(u.2)
        } else {
            relayed(updates.drop_last(), c)
        }
    }
}

proof fn lemma_frames_to_broadcast(ids: Seq<u128>, sender: u128, frame: Seq<u8>, c: u128)
    requires
        ids.no_duplicates(),
    ensures
        frames_to(broadcast(ids, sender, frame), c) == (if ids.contains(c) && sender != c {
            seq![frame]
        } else {
            Seq::<Seq<u8>>::empty()
        }),
    decreases ids.len(),
{
    if ids.len() == 0 {
        assert(broadcast(ids, sender, frame) =~= Seq::empty());
        assert(!ids.contains(c));
    } else {
        let rest = ids.drop_last();
        let x = ids.last();
        assert(rest.no_duplicates());
        lemma_frames_to_broadcast(rest, sender, frame, c);
        assert(ids =~= rest.push(x));
        assert(ids.contains(c) <==> (rest.contains(c) || x == c)) by {
            if ids.contains(c) {
                let j = choose|j: int| 0 <= j < ids.len() && ids[j] == c;
                if j < rest.len() {
                    assert(rest[j] == c);
                }
            }
            if rest.contains(c) {
                let j = choose|j: int| 0 <= j < rest.len() && rest[j] == c;
                assert(ids[j] == c);
            }
            if x == c {
                assert(ids[ids.len() - 1] == c);
            }
        }
        if x == c {
            assert(!rest.contains(c)) by {
                if rest.contains(c) {
                    let j = choose|j: int| 0 <= j < rest.len() && rest[j] == c;
                    assert(ids[j] == ids[ids.len() - 1]);
                }
            }
        }
        if x == sender {
            assert(broadcast(ids, sender, frame) == broadcast(rest, sender, frame));
        } else {
            assert(broadcast(ids, sender, frame) =~= broadcast(rest, sender, frame).push((x, frame)));
            assert(broadcast(ids, sender, frame).drop_last() =~= broadcast(rest, sender, frame));
        }
    }
}

/// What a client is sent by broadcasts is exactly the frames of the
/// processed updates that it did not send itself and that came while it was
/// connected, in the order the syncer processed them: a subsequence of the
/// processed updates. Each step is the broadcast of one update, as
/// `process_message` makes it.
pub proof fn law_outbound_is_relayed_updates(
    updates: Seq<(Seq<u128>, u128, Seq<u8>)>,
    steps: Seq<Seq<(u128, Seq<u8>)>>,
    c: u128,
)
    requires
        steps.len() == updates.len(),
        forall|i: int| 0 <= i < updates.len() ==> (#[trigger] updates[i]).0.no_duplicates(),
        forall|i: int| 0 <= i < updates.len() ==> #[trigger] steps[i] == broadcast(updates[i].0, updates[i].1, updates[i].2),
    ensures
        outbound(steps, c) == relayed(updates, c),
    decreases updates.len(),
{
    if updates.len() > 0 {
        let n = updates.len() - 1;
        assert forall|i: int| 0 <= i < n implies (#[trigger] updates.drop_last()[i]).0.no_duplicates() by {
            assert(updates.drop_last()[i] == updates[i]);
        }
        assert forall|i: int| 0 <= i < n implies #[trigger] steps.drop_last()[i] == broadcast(
            updates.drop_last()[i].0,
            updates.drop_last()[i].1,
            updates.drop_last()[i].2,
        ) by {
            assert(steps.drop_last()[i] == steps[i]);
            assert(updates.drop_last()[i] == updates[i]);
        }
        law_outbound_is_relayed_updates(updates.drop_last(), steps.drop_last(), c);
        let u = updates[n];
        assert(steps.last() == broadcast(u.0, u.1, u.2));
        lemma_frames_to_broadcast(u.0, u.1, u.2, c);
        if u.0.contains(c) && u.1 != c {
            assert(outbound(steps, c) =~= relayed(updates.drop_last(), c).push(u.2));
        } else {
            assert(outbound(steps, c) =~= relayed(updates.drop_last(), c));
        }
    }
}

/// A client that connects while the syncer is asking to terminate keeps it
/// alive: after the `Connect`, the client list is not empty, so
/// [`Syncer::can_stop`] is false and the syncer stays registered.
pub proof fn law_connect_keeps_syncer(ids: Seq<u128>, joining: u128)
    ensures
        connect_ids(ids, joining).len() > 0,
        connect_ids(ids, joining).contains(joining),
{
    if !ids.contains(joining) {
        assert(ids.push(joining)[ids.len() as int] == joining);
    }
}

/// An update frame from one of two connected clients becomes an `Update`
/// event, and its broadcast sends the frame, unchanged, to the other client
/// only.
pub proof fn law_update_reaches_only_peer(ids: Seq<u128>, a: u128, b: u128, frame: Vec<u8>)
    requires
        ids.no_duplicates(),
        ids.len() == 2,
        ids.contains(a),
        ids.contains(b),
        a != b,
        frame@.len() > 0,
        frame_tag(frame@) == MESSAGE_UPDATE,
    ensures
        inbound_event(a, frame) == Some(Message::Update(a, frame)),
        broadcast(ids, a, frame@) == seq![(b, frame@)],
{
    assert(ids =~= seq![ids[0], ids[1]]);
    assert(ids.drop_last() =~= seq![ids[0]]);
    assert(ids.drop_last().drop_last() =~= Seq::<u128>::empty());
    let first = ids.drop_last();
    assert(peers_of(first.drop_last(), a) =~= Seq::<u128>::empty());
    if ids[0] == a {
        assert(ids[1] == b);
        assert(peers_of(first, a) =~= Seq::<u128>::empty());
        assert(peers_of(ids, a) =~= seq![b]);
    } else {
        assert(ids[0] == b);
        assert(ids[1] == a);
        assert(peers_of(first, a) =~= seq![b]);
        assert(peers_of(ids, a) =~= seq![b]);
    }
    assert(broadcast(ids, a, frame@) =~= seq![(b, frame@)]);
}

} // verus!
