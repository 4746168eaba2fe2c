//! The block endpoints: `POST /blocks`, `DELETE /blocks`, `GET /blocks/{user_id}`.
use vstd::prelude::*;
use vstd::string::*;
use crate::chat::ws_handler::Fetched;
use crate::http::{Refusal, refuse, refused};
use crate::http::validation::{validate_id, id_refusal};

verus! {

broadcast use vstd::string::group_string_axioms;

/// The body of the block and unblock requests.
pub struct BlockRequest {
    pub user_id: String,
    pub blocked_id: String,
}

/// Why a block or unblock request is refused before the store is asked, if it is.
pub open spec fn block_request_refusal(req: BlockRequest) -> Option<(u16, Seq<char>)> {
    if id_refusal(req.user_id@, "user_id"@) is Some {
        id_refusal(req.user_id@, "user_id"@)
    } else {
        id_refusal(req.blocked_id@, "blocked_id"@)
    }
}

/// Validates a block or unblock request: both ids.
pub fn check_block_request(req: &BlockRequest) -> (r: Result<(), Refusal>)
    ensures
        refused(r) == block_request_refusal(*req),
{
    validate_id(req.user_id.as_str(), "user_id")?;
    validate_id(req.blocked_id.as_str(), "blocked_id")
}

/// The status of an unblock, from whether the store held the block: 204, 404, or 500
/// when the store failed.
pub fn unblock_status(outcome: Fetched<()>) -> (r: Result<u16, Refusal>)
    ensures
        match outcome {
            Fetched::Found(_) => r == Ok::<u16, Refusal>(204),
            Fetched::Missing => refused(r) == Some((404u16, "block not found"@)),
            Fetched::Failed => refused(r) == Some((500u16, "internal error"@)),
        },
{
    match outcome {
        Fetched::Found(_) => Ok(204),
        Fetched::Missing => Err(refuse(404, "block not found")),
        Fetched::Failed => Err(refuse(500, "internal error")),
    }
}

} // verus!
