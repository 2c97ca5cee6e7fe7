//! A client session: one socket, bound to one document's syncer.
//!
//! The session's task reads frames off the socket and hands each to
//! [`Client::read_message`], which says what to forward to the syncer.

use vstd::prelude::*;
use crate::auth::User;
use crate::websocket::{
    frame_tag, Message, MESSAGE_AWARENESS_UPDATE, MESSAGE_SYNC_STEP_1, MESSAGE_SYNC_STEP_2,
    MESSAGE_UPDATE,
};

verus! {

/// A frame read from the socket.
pub enum Frame {
    Binary(Vec<u8>),
    Text(String),
    Ping(Vec<u8>),
    Pong(Vec<u8>),
    Close,
}

/// What the session does with a frame.
pub enum SessionStep {
    /// Hand the event to the syncer.
    Forward(Message),
    /// Nothing to do; read on.
    Skip,
    /// The socket is closing: disconnect and end the session.
    Stop,
}

/// The syncer event that a binary frame from client `id` becomes, if any:
/// the frame keeps its tag, and a frame that is the awareness tag alone is
/// a request for awareness.
pub open spec fn inbound_event(id: u128, bytes: Vec<u8>) -> Option<Message> {
    if bytes@.len() == 0 {
        None
    } else if frame_tag(bytes@) == MESSAGE_UPDATE || frame_tag(bytes@) == MESSAGE_SYNC_STEP_2 {
        Some(Message::Update(id, bytes))
    } else if frame_tag(bytes@) == MESSAGE_SYNC_STEP_1 {
        Some(Message::GetDiff(id, bytes))
    } else if frame_tag(bytes@) == MESSAGE_AWARENESS_UPDATE && bytes@.len() == 1 {
        Some(Message::GetAwareness(id))
    } else if frame_tag(bytes@) == MESSAGE_AWARENESS_UPDATE {
        Some(Message::UpdateAwareness(id, bytes))
    } else {
        None
    }
}

/// Relies on `Uuid::new_v4` and `Uuid::as_u128`: a random identifier.
#[verifier::external_body]
fn fresh_client_id() -> (r: u128) {
    uuid::Uuid::new_v4().as_u128()
}

pub struct Client {
    id: u128,
    /// The outbound queue's sending end, until it goes to the syncer.
    client_tx: Option<tokio::sync::mpsc::Sender<Vec<u8>>>,
    syncer_tx: tokio::sync::mpsc::Sender<Message>,
    user: User,
}

impl Client {
    pub closed spec fn spec_id(&self) -> u128 {
        self.id
    }

    pub closed spec fn spec_user(&self) -> User {
        self.user
    }

    /// The sending end of the session's outbound queue, while the session
    /// still holds it.
    pub closed spec fn spec_client_tx(&self) -> Option<tokio::sync::mpsc::Sender<Vec<u8>>> {
        self.client_tx
    }

    /// The inbox of the session's syncer.
    pub closed spec fn spec_syncer_tx(&self) -> tokio::sync::mpsc::Sender<Message> {
        self.syncer_tx
    }

    /// A session with a fresh id, its outbound queue and its syncer's inbox.
    pub fn new(
        user: User,
        client_tx: tokio::sync::mpsc::Sender<Vec<u8>>,
        syncer_tx: tokio::sync::mpsc::Sender<Message>,
    ) -> (r: Client)
        ensures
            r.spec_user() == user,
            r.spec_client_tx() == Some(client_tx),
            r.spec_syncer_tx() == syncer_tx,
    {
        Client { id: fresh_client_id(), client_tx: Some(client_tx), syncer_tx, user }
    }

    pub fn id(&self) -> (r: u128)
        ensures
            r == self.spec_id(),
    {
        self.id
    }

    pub fn user(&self) -> (r: &User)
        ensures
            *r == self.spec_user(),
    {
        &self.user
    }

    /// The inbox of the session's syncer.
    pub fn syncer(&self) -> (r: &tokio::sync::mpsc::Sender<Message>)
        ensures
            *r == self.spec_syncer_tx(),
    {
        &self.syncer_tx
    }

    /// The event that registers this session with its syncer, carrying the
    /// session's outbound queue, which it hands over; `None` once handed.
    pub fn connect_message(&mut self) -> (r: Option<Message>)
        ensures
            old(self).spec_client_tx() is Some ==> r == Some(Message::Connect(old(self).spec_id(), old(self).spec_client_tx()->Some_0)),
            old(self).spec_client_tx() is None ==> r is None,
            final(self).spec_client_tx() is None,
            final(self).spec_id() == old(self).spec_id(),
            final(self).spec_user() == old(self).spec_user(),
            final(self).spec_syncer_tx() == old(self).spec_syncer_tx(),
    {
        match self.client_tx.take() {
            Some(tx) => Some(Message::Connect(self.id, tx)),
            None => None,
        }
    }

    /// The event that removes this session from its syncer.
    pub fn disconnect_message(&self) -> (r: Message)
        ensures
            r == Message::Disconnect(self.spec_id()),
    {
        Message::Disconnect(self.id)
    }

    /// The event a binary frame becomes; `None` for an empty frame or an
    /// unknown tag, which are dropped.
    pub fn read_binary_message(&self, bytes: Vec<u8>) -> (r: Option<Message>)
        ensures
            r == inbound_event(self.spec_id(), bytes),
    {
        let n = bytes.len();
        if n == 0 {
            return None;
        }
        let tag = bytes[n - 1];
        if tag == MESSAGE_UPDATE || tag == MESSAGE_SYNC_STEP_2 {
            Some(Message::Update(self.id, bytes))
        } else if tag == MESSAGE_SYNC_STEP_1 {
            Some(Message::GetDiff(self.id, bytes))
        } else if tag == MESSAGE_AWARENESS_UPDATE && n == 1 {
            Some(Message::GetAwareness(self.id))
        } else if tag == MESSAGE_AWARENESS_UPDATE {
            Some(Message::UpdateAwareness(self.id, bytes))
        } else {
            None
        }
    }

    /// What to do with a frame read from the socket: binary frames go to the
    /// syncer, a close ends the session, anything else is ignored.
    pub fn read_message(&self, frame: Frame) -> (r: SessionStep)
        ensures
            frame is Close <==> r is Stop,
            frame is Binary && inbound_event(self.spec_id(), frame->Binary_0) is Some ==>
                r == SessionStep::Forward(inbound_event(self.spec_id(), frame->Binary_0)->Some_0),
            frame is Binary && inbound_event(self.spec_id(), frame->Binary_0) is None ==> r is Skip,
            (frame is Text || frame is Ping || frame is Pong) ==> r is Skip,
    {
        match frame {
            Frame::Binary(bytes) => match self.read_binary_message(bytes) {
                Some(m) => SessionStep::Forward(m),
                None => SessionStep::Skip,
            },
            Frame::Close => SessionStep::Stop,
            _ => SessionStep::Skip,
        }
    }
}

} // verus!
