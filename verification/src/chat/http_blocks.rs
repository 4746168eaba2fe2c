//! The block endpoints of the chat routes share their request with the chat engine's.
pub use crate::engines::chat::http_blocks::{BlockRequest, check_block_request, unblock_status};
