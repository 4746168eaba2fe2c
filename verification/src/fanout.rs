//! Fan-out instructions: a frame to deliver to the local subscribers of a stream.
use vstd::prelude::*;
use crate::protocol::ServerMessage;
use crate::registry::connection::ConnId;

verus! {

/// A frame to send to the subscribers of one stream of a tenant, except, when `exclude`
/// names one, that connection. When `sender` names the user who sent the frame, the
/// subscribers who block that user are skipped.
pub struct StreamBroadcast {
    pub tenant_id: String,
    pub stream_id: String,
    pub message: ServerMessage,
    pub exclude: Option<ConnId>,
    pub sender: Option<String>,
}

} // verus!
