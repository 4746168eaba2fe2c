//! The state of a room as the server holds it in memory.
use vstd::prelude::*;
use crate::registry::connection::ConnId;
use crate::registry::table::Table;
use crate::room::EncryptionMode;

verus! {

/// One room's state: its members, the connections subscribed per user, its message
/// sequence counter and its encryption mode.
pub struct RoomState {
    pub members: Table<()>,
    pub subscribers: Table<Vec<ConnId>>,
    pub sequence: u64,
    pub encryption_mode: EncryptionMode,
}

} // verus!
