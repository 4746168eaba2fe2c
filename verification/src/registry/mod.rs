//! The server's in-memory registries.
pub mod table;
pub mod presence;
pub mod typing;
pub mod connection;
pub mod stream;
pub mod room;
