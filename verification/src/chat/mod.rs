//! The chat engine's logic: WebSocket request handling, blocks and reactions.
pub mod ws_handler;
pub mod store_blocks;
pub mod store_reactions;
pub mod http_blocks;
