//! The document row that an upgrade loads.

use vstd::prelude::*;

verus! {

pub struct Document {
    pub id: u128,
    pub name: String,
    pub owner_id: u128,
    /// The cached state vector of the persisted updates, lib0 v1 encoded.
    pub state_vector: Option<Vec<u8>>,
}

} // verus!
