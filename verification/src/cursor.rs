//! Read cursors: how far a user has read in a stream.
use vstd::prelude::*;

verus! {

pub struct Cursor {
    pub stream_id: String,
    pub user_id: String,
    pub seq: u64,
    pub updated_at: i64,
}

} // verus!
