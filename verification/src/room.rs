//! Rooms and their encryption modes.
use vstd::prelude::*;
use crate::text::{str_eq, copy_str};
use crate::json::JsonValue;

verus! {

pub struct RoomId(pub String);

impl RoomId {
    pub fn as_str(&self) -> (s: &str)
        ensures
            s@ == self.0@,
    {
        self.0.as_str()
    }

    /// The id as display text.
    pub fn to_display_string(&self) -> (s: String)
        ensures
            s@ == self.0@,
    {
        copy_str(self.0.as_str())
    }
}

impl From<String> for RoomId {
    fn from(s: String) -> (r: RoomId) {
        RoomId(s)
    }
}

impl vstd::std_specs::convert::FromSpecImpl<String> for RoomId {
    open spec fn obeys_from_spec() -> bool {
        true
    }

    open spec fn from_spec(s: String) -> RoomId {
        RoomId(s)
    }
}

#[derive(Debug, Clone, Copy, PartialEq, Eq, Structural)]
pub enum EncryptionMode {
    Plaintext,
    ServerEncrypted,
    E2e,
}

impl Default for EncryptionMode {
    fn default() -> (m: EncryptionMode)
        ensures
            m == EncryptionMode::Plaintext,
    {
        EncryptionMode::Plaintext
    }
}

impl EncryptionMode {
    pub open spec fn wire_name(self) -> Seq<char> {
        match self {
            EncryptionMode::Plaintext => "plaintext"@,
            EncryptionMode::ServerEncrypted => "server_encrypted"@,
            EncryptionMode::E2e => "e2e"@,
        }
    }

    pub fn as_str(&self) -> (s: &'static str)
        ensures
            s@ == self.wire_name(),
    {
        match self {
            EncryptionMode::Plaintext => "plaintext",
            EncryptionMode::ServerEncrypted => "server_encrypted",
            EncryptionMode::E2e => "e2e",
        }
    }

    /// The mode named by `s`; `server-encrypted` is accepted as well.
    pub open spec fn from_wire(s: Seq<char>) -> Option<EncryptionMode> {
        if s == "plaintext"@ {
            Some(EncryptionMode::Plaintext)
        } else if s == "server_encrypted"@ || s == "server-encrypted"@ {
            Some(EncryptionMode::ServerEncrypted)
        } else if s == "e2e"@ {
            Some(EncryptionMode::E2e)
        } else {
            None
        }
    }

    pub fn from_str_loose(s: &str) -> (r: Option<EncryptionMode>)
        ensures
            r == EncryptionMode::from_wire(s@),
    {
        if str_eq(s, "plaintext") {
            Some(EncryptionMode::Plaintext)
        } else if str_eq(s, "server_encrypted") || str_eq(s, "server-encrypted") {
            Some(EncryptionMode::ServerEncrypted)
        } else if str_eq(s, "e2e") {
            Some(EncryptionMode::E2e)
        } else {
            None
        }
    }
}

/// Reading a mode back from its wire name gives the mode.
pub proof fn lemma_encryption_mode_roundtrip(m: EncryptionMode)
    ensures
        EncryptionMode::from_wire(m.wire_name()) == Some(m),
{
    reveal_strlit("plaintext");
    reveal_strlit("server_encrypted");
    reveal_strlit("server-encrypted");
    reveal_strlit("e2e");
    assert("plaintext"@.len() == 9 && "server_encrypted"@.len() == 16 && "e2e"@.len() == 3);
}

pub struct Room {
    pub id: RoomId,
    pub name: String,
    pub encryption_mode: EncryptionMode,
    pub meta: Option<JsonValue>,
    pub created_at: i64,
}

} // verus!
