//! A user's presence as clients see it.
use vstd::prelude::*;
use crate::text::str_eq;

verus! {

#[derive(Debug, Clone, Copy, PartialEq, Eq, Structural)]
pub enum PresenceStatus {
    Online,
    Away,
    Dnd,
    Offline,
}

impl PresenceStatus {
    /// The wire name of a status.
    pub open spec fn wire_name(self) -> Seq<char> {
        match self {
            PresenceStatus::Online => "online"@,
            PresenceStatus::Away => "away"@,
            PresenceStatus::Dnd => "dnd"@,
            PresenceStatus::Offline => "offline"@,
        }
    }

    pub fn as_str(&self) -> (s: &'static str)
        ensures
            s@ == self.wire_name(),
    {
        match self {
            PresenceStatus::Online => "online",
            PresenceStatus::Away => "away",
            PresenceStatus::Dnd => "dnd",
            PresenceStatus::Offline => "offline",
        }
    }

    /// The status whose wire name is `s`, if any.
    pub open spec fn from_wire(s: Seq<char>) -> Option<PresenceStatus> {
        if s == "online"@ {
            Some(PresenceStatus::Online)
        } else if s == "away"@ {
            Some(PresenceStatus::Away)
        } else if s == "dnd"@ {
            Some(PresenceStatus::Dnd)
        } else if s == "offline"@ {
            Some(PresenceStatus::Offline)
        } else {
            None
        }
    }

    pub fn from_str_loose(s: &str) -> (r: Option<PresenceStatus>)
        ensures
            r == PresenceStatus::from_wire(s@),
    {
        if str_eq(s, "online") {
            Some(PresenceStatus::Online)
        } else if str_eq(s, "away") {
            Some(PresenceStatus::Away)
        } else if str_eq(s, "dnd") {
            Some(PresenceStatus::Dnd)
        } else if str_eq(s, "offline") {
            Some(PresenceStatus::Offline)
        } else {
            None
        }
    }

    /// Whether the status is one a user sets by hand (away or do-not-disturb).
    pub fn is_manual(&self) -> (r: bool)
        ensures
            r == (*self == PresenceStatus::Away || *self == PresenceStatus::Dnd),
    {
        match self {
            PresenceStatus::Away | PresenceStatus::Dnd => true,
            _ => false,
        }
    }
}

/// Reading a status back from its wire name gives the status.
pub proof fn lemma_presence_wire_roundtrip(p: PresenceStatus)
    ensures
        PresenceStatus::from_wire(p.wire_name()) == Some(p),
{
    reveal_strlit("online");
    reveal_strlit("away");
    reveal_strlit("dnd");
    reveal_strlit("offline");
    assert("online"@.len() == 6 && "away"@.len() == 4 && "dnd"@.len() == 3 && "offline"@.len() == 7);
    assert("online"@[0] != "offline"@[0] || "online"@[1] != "offline"@[1]);
}

} // verus!
