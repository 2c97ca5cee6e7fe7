//! The wire protocol between editors and the server, and the events that
//! client sessions hand to a document's syncer.
//!
//! Every application frame is binary; its last byte is the message type tag
//! and the bytes before it are the payload.

pub mod client;
pub mod syncer;

use vstd::prelude::*;

verus! {

/// A CRDT update, relayed to peers and appended to the log.
pub const MESSAGE_UPDATE: u8 = 0;

/// A peer's state vector, asking for what it lacks.
pub const MESSAGE_SYNC_STEP_1: u8 = 1;

/// The answer to a sync step 1: a differential update.
pub const MESSAGE_SYNC_STEP_2: u8 = 2;

/// An opaque awareness (presence) blob, relayed to peers.
pub const MESSAGE_AWARENESS_UPDATE: u8 = 3;

/// A request for a peer's awareness state: the tag alone, no payload.
pub const MESSAGE_GET_AWARENESS: u8 = 3;

/// An event for a document's syncer. Client ids are the 128 bits of the
/// session's UUID; frames keep their trailing tag byte.
#[derive(Debug, Clone)]
pub enum Message {
    Connect(u128, tokio::sync::mpsc::Sender<Vec<u8>>),
    Disconnect(u128),
    Update(u128, Vec<u8>),
    GetDiff(u128, Vec<u8>),
    UpdateAwareness(u128, Vec<u8>),
    GetAwareness(u128),
}

/// The tag of a frame: its last byte.
pub open spec fn frame_tag(frame: Seq<u8>) -> u8
    recommends
        frame.len() > 0,
{
    frame.last()
}

/// The payload of a frame: everything before the tag (nothing, for an empty
/// frame).
pub open spec fn frame_payload(frame: Seq<u8>) -> Seq<u8> {
    if frame.len() == 0 {
        frame
    } else {
        frame.drop_last()
    }
}

/// A frame made of a payload and a tag.
pub open spec fn framed(payload: Seq<u8>, tag: u8) -> Seq<u8> {
    payload.push(tag)
}

/// Appends the tag byte to a payload.
pub fn with_tag(payload: Vec<u8>, tag: u8) -> (r: Vec<u8>)
    ensures
        r@ == framed(payload@, tag),
{
    let mut r = payload;
    r.push(tag);
    r
}

/// Removes the trailing tag byte; an empty frame stays empty.
pub fn strip_tag(frame: Vec<u8>) -> (r: Vec<u8>)
    ensures
        r@ == frame_payload(frame@),
{
    let mut r = frame;
    if r.len() > 0 {
        r.pop();
    }
    r
}

} // verus!
