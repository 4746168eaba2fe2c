//! The chat engine: blocks between users, typing indicators, and the delivery filter
//! that keeps a blocked sender's messages from the user who blocked them.
pub mod http_blocks;

use vstd::prelude::*;
use vstd::string::*;
use crate::engine::TimerTask;

verus! {

broadcast use vstd::string::group_string_axioms;

/// How often lapsed typing indicators are swept, in seconds.
pub const TYPING_SWEEP_SECS: u64 = 5;

/// The chat engine.
pub struct ChatEngine;

impl ChatEngine {
    pub fn new() -> (e: ChatEngine) {
        ChatEngine
    }

    /// The engine's name.
    pub fn name(&self) -> (s: &'static str)
        ensures
            s@ == "chat"@,
    {
        "chat"
    }

    /// The storage namespaces the engine uses.
    pub fn namespaces(&self) -> (v: Vec<&'static str>)
        ensures
            v@.len() == 1,
            v@[0]@ == "herald.blocks"@,
    {
        vec!["herald.blocks"]
    }

    /// The engine's background task: sweeping lapsed typing indicators every
    /// `TYPING_SWEEP_SECS` seconds.
    pub fn timers(&self) -> (v: Vec<TimerTask>)
        ensures
            v@.len() == 1,
            v@[0].label@ == "chat:typing-ttl"@,
            v@[0].interval_secs == TYPING_SWEEP_SECS,
    {
        vec![TimerTask { label: "chat:typing-ttl", interval_secs: TYPING_SWEEP_SECS }]
    }

    /// Whether a message from a sender is delivered to a subscriber, given whether the
    /// subscriber blocked the sender (`Err` when the check failed): only a confirmed
    /// block stops delivery; a failed check lets it through.
    pub fn fanout_filter(&self, blocked: Result<bool, ()>) -> (deliver: bool)
        ensures
            deliver == !(blocked == Ok::<bool, ()>(true)),
    {
        match blocked {
            Ok(true) => false,
            Ok(false) => true,
            Err(()) => true,
        }
    }
}

} // verus!
