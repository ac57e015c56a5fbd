//! Domain errors for room and player management.
//!
//! Every operation reports failures through these typed errors; no
//! operation panics on bad input. The calling layer decides presentation;
//! `message` gives a short human-readable reason.

use vstd::prelude::*;
use crate::text::concat3;
use crate::types::{PlayerId, RoomId};

verus! {

/// Errors from room registry operations.
#[derive(Debug, PartialEq, Eq)]
pub enum RoomError {
    /// No room with the given code.
    NotFound(String),
    /// No room with the given identifier.
    RoomNotFound,
    /// The identified room already holds the maximum of 8 players.
    Full(RoomId),
    /// The room is full.
    RoomFull,
    /// The identified room's game already started.
    AlreadyStarted(RoomId),
    /// The game already started.
    GameAlreadyStarted,
    /// The identified player is not in the identified room.
    PlayerNotFound(PlayerId, RoomId),
    /// The player is not in the room.
    PlayerNotFoundSimple,
    /// The nickname is already taken in the identified room.
    NicknameTaken(String, RoomId),
    /// The identified room has fewer than 2 players.
    NotEnoughPlayers(RoomId),
    /// The given room code is not valid.
    InvalidCode(String),
    /// An invariant violation that should be unreachable.
    Internal(String),
}

impl RoomError {
    /// A short human-readable description of the error.
    pub fn message(&self) -> (r: String)
        ensures
            match self {
                RoomError::NotFound(code) => r@ == "Room not found: "@ + code@,
                RoomError::RoomNotFound => r@ == "Room not found"@,
                RoomError::Full(_) => r@ == "Room is full (max 8 players)"@,
                RoomError::RoomFull => r@ == "Room is full"@,
                RoomError::AlreadyStarted(_) => r@ == "Game already started in room"@,
                RoomError::GameAlreadyStarted => r@ == "Game already started"@,
                RoomError::PlayerNotFound(_, _) => r@ == "Player not found in room"@,
                RoomError::PlayerNotFoundSimple => r@ == "Player not found"@,
                RoomError::NicknameTaken(name, _) => r@ == "Nickname '"@ + name@
                    + "' is already taken"@,
                RoomError::NotEnoughPlayers(_) => r@
                    == "Not enough players to start (need at least 2)"@,
                RoomError::InvalidCode(code) => r@ == "Invalid room code: "@ + code@,
                RoomError::Internal(msg) => r@ == "Internal error: "@ + msg@,
            },
    {
        match self {
            RoomError::NotFound(code) => {
                let r = concat3("Room not found: ", code.as_str(), "");
                proof {
                    reveal_strlit("");
                    assert(r@ =~= "Room not found: "@ + code@);
                }
                r
            },
            RoomError::RoomNotFound => "Room not found".to_owned(),
            RoomError::Full(_) => "Room is full (max 8 players)".to_owned(),
            RoomError::RoomFull => "Room is full".to_owned(),
            RoomError::AlreadyStarted(_) => "Game already started in room".to_owned(),
            RoomError::GameAlreadyStarted => "Game already started".to_owned(),
            RoomError::PlayerNotFound(_, _) => "Player not found in room".to_owned(),
            RoomError::PlayerNotFoundSimple => "Player not found".to_owned(),
            RoomError::NicknameTaken(name, _) => {
                concat3("Nickname '", name.as_str(), "' is already taken")
            },
            RoomError::NotEnoughPlayers(_) => {
                "Not enough players to start (need at least 2)".to_owned()
            },
            RoomError::InvalidCode(code) => {
                let r = concat3("Invalid room code: ", code.as_str(), "");
                proof {
                    reveal_strlit("");
                    assert(r@ =~= "Invalid room code: "@ + code@);
                }
                r
            },
            RoomError::Internal(msg) => {
                let r = concat3("Internal error: ", msg.as_str(), "");
                proof {
                    reveal_strlit("");
                    assert(r@ =~= "Internal error: "@ + msg@);
                }
                r
            },
        }
    }
}

/// Errors from a player's attempt to join a room.
#[derive(Debug, Clone, Copy, PartialEq, Eq, Structural)]
pub enum JoinError {
    /// No room with the given code.
    RoomNotFound,
    /// The room already holds the maximum of 8 players.
    RoomFull,
    /// The room's game is already in progress.
    GameInProgress,
    /// The nickname is already taken in the room.
    DuplicateNickname,
    /// The nickname is not acceptable.
    InvalidNickname,
}

impl JoinError {
    /// A short human-readable description of the error.
    pub fn message(&self) -> (r: String)
        ensures
            match self {
                JoinError::RoomNotFound => r@ == "Room not found"@,
                JoinError::RoomFull => r@ == "Room is full"@,
                JoinError::GameInProgress => r@ == "Game already in progress"@,
                JoinError::DuplicateNickname => r@ == "Nickname already taken"@,
                JoinError::InvalidNickname => r@ == "Invalid nickname"@,
            },
    {
        match self {
            JoinError::RoomNotFound => "Room not found".to_owned(),
            JoinError::RoomFull => "Room is full".to_owned(),
            JoinError::GameInProgress => "Game already in progress".to_owned(),
            JoinError::DuplicateNickname => "Nickname already taken".to_owned(),
            JoinError::InvalidNickname => "Invalid nickname".to_owned(),
        }
    }
}

} // verus!
