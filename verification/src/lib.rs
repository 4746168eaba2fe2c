pub mod text;
pub mod json;
pub mod error;
pub mod presence;
pub mod room;
pub mod auth;
pub mod cursor;
pub mod protocol;
pub mod engines;
pub mod engine;
pub mod clock;
pub mod env;
pub mod config;
pub mod integrations;
pub mod metering;
pub mod http;
pub mod registry;
pub mod latency;
pub mod admin_events;
pub mod chat;
pub mod wasm;
pub mod cli;
pub mod ids;
pub mod fanout;
pub mod backplane;
