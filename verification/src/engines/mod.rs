pub mod chat;
pub mod presence;
