//! In-memory coordinator for a small party game: rooms, rosters, the
//! turn-taking state machine, and the voting/scoring rules.

use vstd::prelude::*;

pub mod assets;
pub mod clock;
pub mod codec;
pub mod errors;
pub mod game;
pub mod player;
pub mod room;
pub mod room_manager;
pub mod text;
pub mod types;

pub use errors::{JoinError, RoomError};
pub use game::{GameOutcome, GameStage, GameState, PlayerAction, Score};
pub use player::Player;
pub use room::{Room, RoomState};
pub use room_manager::RoomManager;
pub use types::{AvatarId, ImageId, OptionId, PlayerId, RoomId};

verus! {

/// The version of this library.
pub fn version() -> (r: &'static str)
    ensures
        r@.len() > 0,
{
    proof {
        reveal_strlit("0.2.1");
    }
    "0.2.1"
}

} // verus!
