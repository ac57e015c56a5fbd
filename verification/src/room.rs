//! Room entity: the roster of players and the room-level phase.

use vstd::prelude::*;
use crate::game::GameState;
use crate::player::Player;
use crate::types::{PlayerId, RoomId};

verus! {

/// The lifecycle phase of a room. Transitions are one-way:
/// `Lobby -> InGame -> Finished`.
#[derive(Debug, Clone, Copy, PartialEq, Eq, Structural)]
pub enum RoomState {
    /// Players can join and leave.
    Lobby,
    /// A game is in progress.
    InGame,
    /// The game has finished.
    Finished,
}

/// Whether some player in `s` has the identifier `id`.
pub open spec fn roster_has_id(s: Seq<Player>, id: PlayerId) -> bool {
    exists|i: int| 0 <= i < s.len() && s[i].id == id
}

/// Whether some player in `s` has exactly the nickname `nick`.
pub open spec fn roster_has_nickname(s: Seq<Player>, nick: Seq<char>) -> bool {
    exists|i: int| 0 <= i < s.len() && s[i].nickname@ == nick
}

/// The index of the first player in `s` with identifier `id`; `s.len()` if
/// there is none.
pub open spec fn roster_index_of(s: Seq<Player>, id: PlayerId) -> int
    decreases s.len(),
{
    if s.len() == 0 {
        0
    } else if s[0].id == id {
        0
    } else {
        1 + roster_index_of(s.skip(1), id)
    }
}

/// The index of the first player in `s` with nickname `nick`; `s.len()` if
/// there is none.
pub open spec fn roster_index_of_nickname(s: Seq<Player>, nick: Seq<char>) -> int
    decreases s.len(),
{
    if s.len() == 0 {
        0
    } else if s[0].nickname@ == nick {
        0
    } else {
        1 + roster_index_of_nickname(s.skip(1), nick)
    }
}

/// `roster_index_of` points at the first player with the given identifier:
/// it is in range exactly when some player has it, no earlier player has
/// it, and past the end it equals the roster's length.
pub proof fn lemma_roster_index_of(s: Seq<Player>, id: PlayerId)
    ensures
        0 <= roster_index_of(s, id) <= s.len(),
        roster_has_id(s, id) <==> roster_index_of(s, id) < s.len(),
        roster_index_of(s, id) < s.len() ==> s[roster_index_of(s, id)].id == id,
        forall|j: int| 0 <= j < roster_index_of(s, id) ==> s[j].id != id,
    decreases s.len(),
{
    if s.len() == 0 {
    } else if s[0].id == id {
    } else {
        lemma_roster_index_of(s.skip(1), id);
        assert forall|j: int| 0 <= j < roster_index_of(s, id) implies s[j].id != id by {
            if j > 0 {
                assert(s.skip(1)[j - 1] == s[j]);
            }
        }
        if roster_has_id(s, id) {
            let w = choose|i: int| 0 <= i < s.len() && s[i].id == id;
            assert(s.skip(1)[w - 1] == s[w]);
        }
        if roster_index_of(s, id) < s.len() {
            assert(s.skip(1)[roster_index_of(s.skip(1), id)] == s[roster_index_of(s, id)]);
        }
    }
}

/// `roster_index_of_nickname` points at the first player with the given
/// nickname, in the same way.
pub proof fn lemma_roster_index_of_nickname(s: Seq<Player>, nick: Seq<char>)
    ensures
        0 <= roster_index_of_nickname(s, nick) <= s.len(),
        roster_has_nickname(s, nick) <==> roster_index_of_nickname(s, nick) < s.len(),
        roster_index_of_nickname(s, nick) < s.len() ==> s[roster_index_of_nickname(
            s,
            nick,
        )].nickname@ == nick,
        forall|j: int| 0 <= j < roster_index_of_nickname(s, nick) ==> s[j].nickname@ != nick,
    decreases s.len(),
{
    if s.len() == 0 {
    } else if s[0].nickname@ == nick {
    } else {
        lemma_roster_index_of_nickname(s.skip(1), nick);
        assert forall|j: int| 0 <= j < roster_index_of_nickname(s, nick) implies s[j].nickname@
            != nick by {
            if j > 0 {
                assert(s.skip(1)[j - 1] == s[j]);
            }
        }
        if roster_has_nickname(s, nick) {
            let w = choose|i: int| 0 <= i < s.len() && s[i].nickname@ == nick;
            assert(s.skip(1)[w - 1] == s[w]);
        }
        if roster_index_of_nickname(s, nick) < s.len() {
            assert(s.skip(1)[roster_index_of_nickname(s.skip(1), nick)] == s[roster_index_of_nickname(
                s,
                nick,
            )]);
        }
    }
}

/// A game room: a roster of at most 8 players plus its lifecycle state and,
/// once started, the embedded game.
#[derive(Debug)]
pub struct Room {
    /// Unique identifier for this room.
    pub id: RoomId,
    /// Human-readable code used for joining.
    pub code: String,
    /// Players in join order.
    pub players: Vec<Player>,
    /// Current lifecycle state.
    pub state: RoomState,
    /// The game; `None` until the room enters `InGame`, `Some` thereafter.
    pub game: Option<GameState>,
}

impl Room {
    /// The room's structural invariant: the roster never exceeds 8 players,
    /// the game is present exactly from `InGame` on, and an embedded game is
    /// itself well-formed.
    pub open spec fn wf(&self) -> bool {
        &&& self.players@.len() <= 8
        &&& (self.state == RoomState::Lobby <==> self.game is None)
        &&& match self.game {
            Some(g) => g.wf(),
            None => true,
        }
    }

    /// Create a new empty room in the lobby state, with a fresh random
    /// identifier and the given code.
    pub fn new(code: String) -> (r: Self)
        ensures
            r.code == code,
            r.players@.len() == 0,
            r.state == RoomState::Lobby,
            r.game is None,
            r.wf(),
    {
        Self {
            id: RoomId::new(),
            code,
            players: Vec::new(),
            state: RoomState::Lobby,
            game: None,
        }
    }

    /// The number of players currently in the room.
    pub fn player_count(&self) -> (r: usize)
        ensures
            r == self.players@.len(),
    {
        self.players.len()
    }

    /// Whether the room holds the maximum of 8 players.
    pub fn is_full(&self) -> (r: bool)
        ensures
            r == (self.players@.len() >= 8),
    {
        self.players.len() >= 8
    }

    /// Whether the room has enough players to start: between 2 and 8.
    pub fn can_start(&self) -> (r: bool)
        ensures
            r == (2 <= self.players@.len() <= 8),
    {
        let count = self.players.len();
        count >= 2 && count <= 8
    }

    /// Whether a player with exactly the given nickname is in the room.
    pub fn has_player_with_nickname(&self, nickname: &str) -> (r: bool)
        ensures
            r == roster_has_nickname(self.players@, nickname@),
    {
        let n = self.players.len();
        let mut i: usize = 0;
        while i < n
            invariant
                n == self.players@.len(),
                i <= n,
                forall|j: int| 0 <= j < i ==> self.players@[j].nickname@ != nickname@,
            decreases n - i,
        {
            if self.players[i].matches_nickname(nickname) {
                return true;
            }
            i += 1;
        }
        false
    }

    /// Find the first player with the given identifier.
    pub fn find_player(&self, player_id: PlayerId) -> (r: Option<&Player>)
        ensures
            match r {
                Some(p) => roster_has_id(self.players@, player_id) && *p == self.players@[
                    roster_index_of(self.players@, player_id)
                ],
                None => !roster_has_id(self.players@, player_id),
            },
    {
        proof {
            lemma_roster_index_of(self.players@, player_id);
        }
        let n = self.players.len();
        let mut i: usize = 0;
        while i < n
            invariant
                n == self.players@.len(),
                i <= n,
                forall|j: int| 0 <= j < i ==> self.players@[j].id != player_id,
            decreases n - i,
        {
            if self.players[i].id == player_id {
                proof {
                    lemma_roster_index_of(self.players@, player_id);
                    assert(roster_index_of(self.players@, player_id) == i);
                }
                return Some(&self.players[i]);
            }
            i += 1;
        }
        None
    }

    /// Find the first player with the given identifier, mutably: writes
    /// through the returned reference land at that player's slot, and
    /// nothing else changes.
    pub fn find_player_mut(&mut self, player_id: PlayerId) -> (r: Option<&mut Player>)
        ensures
            roster_has_id(old(self).players@, player_id) <==> r is Some,
            r is None ==> *final(self) == *old(self),
            r matches Some(p) ==> ({
                let ip = roster_index_of(old(self).players@, player_id);
                &&& final(self).players@ == old(self).players@.update(ip, *final(p))
                &&& *final(self) == (Room { players: final(self).players, ..*old(self) })
            }),
    {
        proof {
            lemma_roster_index_of(self.players@, player_id);
        }
        let n = self.players.len();
        let mut i: usize = 0;
        while i < n
            invariant
                n == self.players@.len(),
                i <= n,
                *self == *old(self),
                forall|j: int| 0 <= j < i ==> self.players@[j].id != player_id,
            decreases n - i,
        {
            if self.players[i].id == player_id {
                proof {
                    lemma_roster_index_of(self.players@, player_id);
                    assert(roster_index_of(self.players@, player_id) == i);
                }
                return Some(&mut self.players[i]);
            }
            i += 1;
        }
        None
    }

    /// Find the first player with exactly the given nickname.
    pub fn find_player_by_nickname(&self, nickname: &str) -> (r: Option<&Player>)
        ensures
            match r {
                Some(p) => roster_has_nickname(self.players@, nickname@) && *p == self.players@[
                    roster_index_of_nickname(self.players@, nickname@)
                ],
                None => !roster_has_nickname(self.players@, nickname@),
            },
    {
        proof {
            lemma_roster_index_of_nickname(self.players@, nickname@);
        }
        let n = self.players.len();
        let mut i: usize = 0;
        while i < n
            invariant
                n == self.players@.len(),
                i <= n,
                forall|j: int| 0 <= j < i ==> self.players@[j].nickname@ != nickname@,
            decreases n - i,
        {
            if self.players[i].matches_nickname(nickname) {
                proof {
                    lemma_roster_index_of_nickname(self.players@, nickname@);
                    assert(roster_index_of_nickname(self.players@, nickname@) == i);
                }
                return Some(&self.players[i]);
            }
            i += 1;
        }
        None
    }

    /// Flip `connected` back on for the first player with exactly the
    /// given nickname, returning that player's identifier; `None` and no
    /// change if no such player exists.
    pub fn reconnect_player(&mut self, nickname: &str) -> (r: Option<PlayerId>)
        ensures
            match r {
                Some(pid) => roster_has_nickname(old(self).players@, nickname@) && ({
                    let ip = roster_index_of_nickname(old(self).players@, nickname@);
                    &&& pid == old(self).players@[ip].id
                    &&& final(self).players@ == old(self).players@.update(
                        ip,
                        (Player { connected: true, ..old(self).players@[ip] }),
                    )
                    &&& *final(self) == (Room { players: final(self).players, ..*old(self) })
                }),
                None => !roster_has_nickname(old(self).players@, nickname@) && *final(self)
                    == *old(self),
            },
    {
        proof {
            lemma_roster_index_of_nickname(self.players@, nickname@);
        }
        let n = self.players.len();
        let mut i: usize = 0;
        while i < n
            invariant
                n == self.players@.len(),
                i <= n,
                *self == *old(self),
                forall|j: int| 0 <= j < i ==> self.players@[j].nickname@ != nickname@,
            decreases n - i,
        {
            if self.players[i].matches_nickname(nickname) {
                proof {
                    lemma_roster_index_of_nickname(self.players@, nickname@);
                    assert(roster_index_of_nickname(self.players@, nickname@) == i);
                }
                let pid = self.players[i].id;
                self.players[i].connected = true;
                return Some(pid);
            }
            i += 1;
        }
        None
    }

    /// Append a player to the roster and return its identifier.
    ///
    /// Capacity and duplicate-nickname checks are the caller's
    /// responsibility; the registry performs them before calling.
    pub fn add_player(&mut self, player: Player) -> (r: PlayerId)
        requires
            old(self).players@.len() < 8,
        ensures
            final(self).players@ == old(self).players@.push(player),
            *final(self) == (Room { players: final(self).players, ..*old(self) }),
            r == player.id,
    {
        let id = player.id;
        self.players.push(player);
        id
    }

    /// Remove the first player with the given identifier, reporting whether
    /// one was removed. Removing an absent player is a no-op reporting
    /// `false`.
    pub fn remove_player(&mut self, player_id: PlayerId) -> (r: bool)
        ensures
            r == roster_has_id(old(self).players@, player_id),
            r ==> final(self).players@ == old(self).players@.remove(
                roster_index_of(old(self).players@, player_id),
            ) && *final(self) == (Room { players: final(self).players, ..*old(self) }),
            !r ==> *final(self) == *old(self),
    {
        proof {
            lemma_roster_index_of(self.players@, player_id);
        }
        let n = self.players.len();
        let mut i: usize = 0;
        while i < n
            invariant
                n == self.players@.len(),
                i <= n,
                *self == *old(self),
                forall|j: int| 0 <= j < i ==> self.players@[j].id != player_id,
            decreases n - i,
        {
            if self.players[i].id == player_id {
                proof {
                    lemma_roster_index_of(self.players@, player_id);
                    assert(roster_index_of(self.players@, player_id) == i);
                }
                self.players.remove(i);
                return true;
            }
            i += 1;
        }
        false
    }

    /// Install the game and move the room to `InGame`.
    ///
    /// Only valid from the lobby with 2 to 8 players; the caller must have
    /// validated both.
    pub fn start_game(&mut self, game_state: GameState)
        requires
            old(self).state == RoomState::Lobby,
            2 <= old(self).players@.len() <= 8,
        ensures
            final(self).state == RoomState::InGame,
            final(self).game == Some(game_state),
            *final(self) == (Room {
                state: RoomState::InGame,
                game: Some(game_state),
                ..*old(self)
            }),
    {
        self.state = RoomState::InGame;
        self.game = Some(game_state);
    }

    /// Move the room from `InGame` to `Finished`.
    pub fn finish_game(&mut self)
        requires
            old(self).state == RoomState::InGame,
        ensures
            *final(self) == (Room { state: RoomState::Finished, ..*old(self) }),
    {
        self.state = RoomState::Finished;
    }
}

} // verus!
