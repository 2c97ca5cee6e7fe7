//! What the upgrade handler decides: which document a request names, whether
//! the caller may open it, and which syncer it joins.

use vstd::prelude::*;
use crate::auth::{parse_uuid, uuid_of, User};
use crate::document::Document;
use crate::error::ApiError;
use crate::mailbox::{bounded_queue, QUEUE_CAPACITY};
use crate::websocket::Message;
use std::collections::HashMap;

verus! {

broadcast use vstd::std_specs::hash::group_hash_axioms;

/// The query string of an upgrade request.
pub struct QueryParams {
    pub token: String,
}

/// The document id of the request path; one that is not a UUID is a bad
/// request.
pub fn parse_document_id(path: &str) -> (r: Result<u128, ApiError>)
    ensures
        r is Ok <==> uuid_of(path@) is Some,
        r is Ok ==> r->Ok_0 == uuid_of(path@)->Some_0,
        r is Err ==> r->Err_0 is BadRequest,
{
    match parse_uuid(path) {
        Ok(id) => Ok(id),
        Err(_) => Err(ApiError::BadRequest(String::from_str("please provide a valid document UUID"))),
    }
}

/// The document the user may open: it must exist and be theirs. Either
/// failure is reported as not found, so that a document's existence does
/// not leak.
pub fn authorize(user: &User, document_id: u128, document: Option<Document>) -> (r: Result<Document, ApiError>)
    ensures
        r is Ok <==> (document is Some && document->Some_0.owner_id == user.id),
        r is Ok ==> r->Ok_0 == document->Some_0,
        r is Err ==> r->Err_0 == ApiError::DocumentNotFoundError(document_id),
{
    match document {
        Some(doc) => {
            if doc.owner_id == user.id {
                Ok(doc)
            } else {
                Err(ApiError::DocumentNotFoundError(document_id))
            }
        },
        None => Err(ApiError::DocumentNotFoundError(document_id)),
    }
}

/// The live syncers, by document: each entry is the inbox of the one syncer
/// that owns the document, with the stamp that tells that syncer's entry
/// from a later one's. Callers hold it behind one lock, which covers both
/// get-or-create and a syncer's removal of itself.
pub struct Registry {
    handles: HashMap<u128, (u64, tokio::sync::mpsc::Sender<Message>)>,
    next_stamp: u64,
}

impl Registry {
    /// Each document's entry: its stamp and the syncer's inbox.
    pub closed spec fn entries(&self) -> Map<u128, (u64, tokio::sync::mpsc::Sender<Message>)> {
        self.handles@
    }

    /// The documents that have a live syncer.
    pub open spec fn documents(&self) -> Set<u128> {
        self.entries().dom()
    }

    /// The stamp of the document's entry, if it has one.
    pub open spec fn stamp_of(&self, document_id: u128) -> Option<u64> {
        if self.entries().contains_key(document_id) {
            Some(self.entries()[document_id].0)
        } else {
            None
        }
    }

    pub fn new() -> (r: Registry)
        ensures
            r.entries() == Map::<u128, (u64, tokio::sync::mpsc::Sender<Message>)>::empty(),
    {
        let r = Registry { handles: HashMap::new(), next_stamp: 0 };
        assert(r.entries() =~= Map::<u128, (u64, tokio::sync::mpsc::Sender<Message>)>::empty());
        r
    }

    pub fn contains(&self, document_id: u128) -> (r: bool)
        ensures
            r <==> self.documents().contains(document_id),
    {
        self.handles.contains_key(&document_id)
    }

    /// The registered inbox of the document's syncer.
    pub fn inbox(&self, document_id: u128) -> (r: Option<&tokio::sync::mpsc::Sender<Message>>)
        ensures
            r is Some <==> self.documents().contains(document_id),
            r is Some ==> *r->Some_0 == self.entries()[document_id].1,
    {
        match self.handles.get(&document_id) {
            Some(entry) => Some(&entry.1),
            None => None,
        }
    }

    /// Makes sure the document has an entry and returns its stamp. Where it
    /// had none, a new inbox is registered and its receiving end returned:
    /// the caller starts the syncer on it. An existing entry is left as it
    /// is.
    pub fn get_or_create(&mut self, document_id: u128) -> (r: (u64, Option<tokio::sync::mpsc::Receiver<Message>>))
        ensures
            final(self).documents() == old(self).documents().insert(document_id),
            final(self).stamp_of(document_id) == Some(r.0),
            old(self).documents().contains(document_id) ==> r.1 is None
                && final(self).entries() == old(self).entries(),
            !old(self).documents().contains(document_id) ==> r.1 is Some
                && final(self).entries() == old(self).entries().insert(document_id, final(self).entries()[document_id]),
    {
        match self.handles.get(&document_id) {
            Some(entry) => (entry.0, None),
            None => {
                let (tx, rx) = bounded_queue(QUEUE_CAPACITY);
                let stamp = self.next_stamp;
                if self.next_stamp < u64::MAX {
                    self.next_stamp = self.next_stamp + 1;
                }
                self.handles.insert(document_id, (stamp, tx));
                assert(self.entries() =~= old(self).entries().insert(document_id, self.entries()[document_id]));
                (stamp, Some(rx))
            },
        }
    }

    /// A terminating syncer's removal of itself: the document's entry goes
    /// exactly when it still carries the syncer's stamp; nothing else
    /// changes.
    pub fn remove_if_same(&mut self, document_id: u128, stamp: u64) -> (r: bool)
        ensures
            r <==> old(self).stamp_of(document_id) == Some(stamp),
            r ==> final(self).entries() == old(self).entries().remove(document_id),
            !r ==> *final(self) == *old(self),
    {
        let same = match self.handles.get(&document_id) {
            Some(entry) => entry.0 == stamp,
            None => false,
        };
        if same {
            self.handles.remove(&document_id);
            assert(self.entries() =~= old(self).entries().remove(document_id));
        }
        same
    }
}

} // verus!
