//! Player entity: identity, nickname, avatar choice and connection flag.

use vstd::prelude::*;
use crate::text::str_eq;
use crate::types::{AvatarId, PlayerId};

verus! {

/// A player in a room.
///
/// A player's identity (`id`) never changes; rejoining resolves to the same
/// record by exact nickname match and flips `connected` back on.
#[derive(Debug)]
pub struct Player {
    /// Unique identifier for this player.
    pub id: PlayerId,
    /// The player's chosen nickname, matched case-sensitively on rejoin.
    pub nickname: String,
    /// The player's chosen avatar.
    pub avatar_id: AvatarId,
    /// Whether the player is currently connected.
    pub connected: bool,
}

impl Player {
    /// Create a new connected player with a fresh random identifier.
    pub fn new(nickname: String, avatar_id: AvatarId) -> (r: Self)
        ensures
            r.nickname == nickname,
            r.avatar_id == avatar_id,
            r.connected == true,
    {
        Self { id: PlayerId::new(), nickname, avatar_id, connected: true }
    }

    /// Mark the player as disconnected.
    pub fn disconnect(&mut self)
        ensures
            *final(self) == (Player { connected: false, ..*old(self) }),
    {
        self.connected = false;
    }

    /// Mark the player as reconnected.
    pub fn reconnect(&mut self)
        ensures
            *final(self) == (Player { connected: true, ..*old(self) }),
    {
        self.connected = true;
    }

    /// Whether this player's nickname is exactly the given one.
    pub fn matches_nickname(&self, nickname: &str) -> (r: bool)
        ensures
            r == (self.nickname@ == nickname@),
    {
        str_eq(self.nickname.as_str(), nickname)
    }
}

impl Clone for Player {
    /// A copy of this player record, field for field.
    fn clone(&self) -> (r: Self)
        ensures
            r.id == self.id,
            r.nickname@ == self.nickname@,
            r.avatar_id == self.avatar_id,
            r.connected == self.connected,
    {
        Self {
            id: self.id,
            nickname: self.nickname.clone(),
            avatar_id: self.avatar_id,
            connected: self.connected,
        }
    }
}

} // verus!
