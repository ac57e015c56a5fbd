//! The room registry: it owns all live rooms and enforces the join,
//! leave, rejoin and start policies, including uniqueness of room codes
//! and identifiers.
//!
//! Codes are six letters. Each room is created from a serial number the
//! registry never reuses; the code encodes that serial, and the room
//! identifier carries it in its low 64 bits, which makes every live code
//! and identifier distinct. The identifier's high bits stay random.

use vstd::prelude::*;
use crate::assets::{from_starting_pool, generate_game_assets};
use crate::errors::{JoinError, RoomError};
use crate::game::{ballot_valid, objects_view, GameStage, GameState};
use crate::player::Player;
use crate::room::{
    roster_has_id, roster_has_nickname, roster_index_of, roster_index_of_nickname, Room,
    RoomState,
};
use crate::text::chars_to_string;
use crate::types::{fresh_id_bits, AvatarId, ImageId, PlayerId, RoomId};

verus! {

/// How many rounds a game started by the registry runs.
pub const DEFAULT_MAX_ROUNDS: u32 = 3;

/// The number of six-letter codes: 26 to the 6th power.
pub const CODE_SPACE: u32 = 308915776;

/// A mask selecting the low 64 bits of an identifier.
pub const LOW_BITS: u128 = 0xFFFF_FFFF_FFFF_FFFF;

/// A mask selecting the high 64 bits of an identifier.
pub const HIGH_BITS: u128 = 0xFFFF_FFFF_FFFF_FFFF_0000_0000_0000_0000;

/// 26 to the power `w`.
pub open spec fn pow26(w: nat) -> nat
    decreases w,
{
    if w == 0 {
        1
    } else {
        26 * pow26((w - 1) as nat)
    }
}

/// The letter standing for the digit `d`: `'A'` for 0 through `'Z'` for
/// 25.
pub open spec fn letter(d: int) -> char {
    ((65 + d) as u8) as char
}

/// The `w`-letter code of the serial `k`, least significant digit last.
pub open spec fn code_seq(k: int, w: nat) -> Seq<char>
    decreases w,
{
    if w == 0 {
        Seq::empty()
    } else {
        code_seq(k / 26, (w - 1) as nat).push(letter(k % 26))
    }
}

/// A `w`-letter code is `w` characters long.
pub proof fn lemma_code_seq_len(k: int, w: nat)
    ensures
        code_seq(k, w).len() == w,
    decreases w,
{
    if w > 0 {
        lemma_code_seq_len(k / 26, (w - 1) as nat);
    }
}

/// Distinct serials below `26^w` have distinct `w`-letter codes.
pub proof fn lemma_code_seq_injective(k1: int, k2: int, w: nat)
    requires
        0 <= k1 < pow26(w),
        0 <= k2 < pow26(w),
        k1 != k2,
    ensures
        code_seq(k1, w) != code_seq(k2, w),
    decreases w,
{
    if w == 0 {
    } else {
        let r1 = k1 % 26;
        let r2 = k2 % 26;
        let q1 = k1 / 26;
        let q2 = k2 / 26;
        assert(k1 == 26 * q1 + r1 && 0 <= r1 < 26);
        assert(k2 == 26 * q2 + r2 && 0 <= r2 < 26);
        if r1 != r2 {
            assert(code_seq(k1, w).last() == letter(r1));
            assert(code_seq(k2, w).last() == letter(r2));
            assert(letter(r1) != letter(r2));
        } else {
            assert(q1 != q2);
            assert(q1 < pow26((w - 1) as nat) && q2 < pow26((w - 1) as nat)) by (
            nonlinear_arith)
                requires
                    0 <= k1 < 26 * pow26((w - 1) as nat),
                    0 <= k2 < 26 * pow26((w - 1) as nat),
                    q1 == k1 / 26,
                    q2 == k2 / 26,
            ;
            lemma_code_seq_injective(q1, q2, (w - 1) as nat);
            if code_seq(k1, w) == code_seq(k2, w) {
                assert(code_seq(k1, w).drop_last() =~= code_seq(q1, (w - 1) as nat));
                assert(code_seq(k2, w).drop_last() =~= code_seq(q2, (w - 1) as nat));
            }
        }
    }
}

/// The `w`-letter code of the serial `k`, as executable code.
fn encode_code(k: u32, w: u8) -> (r: Vec<char>)
    ensures
        r@ == code_seq(k as int, w as nat),
    decreases w,
{
    if w == 0 {
        Vec::new()
    } else {
        let mut r = encode_code(k / 26, w - 1);
        let d = (k % 26) as u8;
        r.push((65 + d) as char);
        r
    }
}

/// Whether some room in `s` has the identifier `id`.
pub open spec fn rooms_have_id(s: Seq<Room>, id: RoomId) -> bool {
    exists|i: int| 0 <= i < s.len() && s[i].id == id
}

/// Whether some room in `s` has the code `code`.
pub open spec fn rooms_have_code(s: Seq<Room>, code: Seq<char>) -> bool {
    exists|i: int| 0 <= i < s.len() && s[i].code@ == code
}

/// The index of the first room in `s` with identifier `id`; `s.len()` if
/// none.
pub open spec fn rooms_index_of_id(s: Seq<Room>, id: RoomId) -> int
    decreases s.len(),
{
    if s.len() == 0 {
        0
    } else if s[0].id == id {
        0
    } else {
        1 + rooms_index_of_id(s.skip(1), id)
    }
}

/// The index of the first room in `s` with code `code`; `s.len()` if none.
pub open spec fn rooms_index_of_code(s: Seq<Room>, code: Seq<char>) -> int
    decreases s.len(),
{
    if s.len() == 0 {
        0
    } else if s[0].code@ == code {
        0
    } else {
        1 + rooms_index_of_code(s.skip(1), code)
    }
}

/// `rooms_index_of_id` points at the first room with the given
/// identifier: it is in range exactly when one exists, the room there has
/// the identifier, and no earlier room does.
pub proof fn lemma_rooms_index_of_id(s: Seq<Room>, id: RoomId)
    ensures
        0 <= rooms_index_of_id(s, id) <= s.len(),
        rooms_have_id(s, id) <==> rooms_index_of_id(s, id) < s.len(),
        rooms_index_of_id(s, id) < s.len() ==> s[rooms_index_of_id(s, id)].id == id,
        forall|j: int| 0 <= j < rooms_index_of_id(s, id) ==> s[j].id != id,
    decreases s.len(),
{
    if s.len() == 0 {
    } else if s[0].id == id {
    } else {
        lemma_rooms_index_of_id(s.skip(1), id);
        assert forall|j: int| 0 <= j < rooms_index_of_id(s, id) implies s[j].id != id by {
            if j > 0 {
                assert(s.skip(1)[j - 1] == s[j]);
            }
        }
        if rooms_have_id(s, id) {
            let w = choose|i: int| 0 <= i < s.len() && s[i].id == id;
            assert(s.skip(1)[w - 1] == s[w]);
        }
        if rooms_index_of_id(s, id) < s.len() {
            assert(s.skip(1)[rooms_index_of_id(s.skip(1), id)] == s[rooms_index_of_id(s, id)]);
        }
    }
}

/// `rooms_index_of_code` points at the first room with the given code, in
/// the same way.
pub proof fn lemma_rooms_index_of_code(s: Seq<Room>, code: Seq<char>)
    ensures
        0 <= rooms_index_of_code(s, code) <= s.len(),
        rooms_have_code(s, code) <==> rooms_index_of_code(s, code) < s.len(),
        rooms_index_of_code(s, code) < s.len() ==> s[rooms_index_of_code(s, code)].code@ == code,
        forall|j: int| 0 <= j < rooms_index_of_code(s, code) ==> s[j].code@ != code,
    decreases s.len(),
{
    if s.len() == 0 {
    } else if s[0].code@ == code {
    } else {
        lemma_rooms_index_of_code(s.skip(1), code);
        assert forall|j: int| 0 <= j < rooms_index_of_code(s, code) implies s[j].code@ != code by {
            if j > 0 {
                assert(s.skip(1)[j - 1] == s[j]);
            }
        }
        if rooms_have_code(s, code) {
            let w = choose|i: int| 0 <= i < s.len() && s[i].code@ == code;
            assert(s.skip(1)[w - 1] == s[w]);
        }
        if rooms_index_of_code(s, code) < s.len() {
            assert(s.skip(1)[rooms_index_of_code(s.skip(1), code)] == s[rooms_index_of_code(
                s,
                code,
            )]);
        }
    }
}

/// The registry owning all live rooms.
#[derive(Debug)]
pub struct RoomManager {
    /// All live rooms, in creation order.
    pub rooms: Vec<Room>,
    /// The serial number the next room will be created from; never
    /// reused.
    pub next_serial: u32,
}

impl RoomManager {
    /// The registry's invariant: every room is well-formed and carries a
    /// code and identifier derived from a serial below `next_serial`, and
    /// codes and identifiers are pairwise distinct.
    pub open spec fn wf(&self) -> bool {
        &&& forall|i: int| 0 <= i < self.rooms@.len() ==> (#[trigger] self.rooms@[i]).wf()
        &&& forall|i: int| 0 <= i < self.rooms@.len() ==> exists|k: int|
            0 <= k < self.next_serial && (#[trigger] self.rooms@[i]).code@ == code_seq(k, 6)
                && self.rooms@[i].id@ & LOW_BITS == k
        &&& forall|i: int, j: int| 0 <= i < j < self.rooms@.len()
            ==> (#[trigger] self.rooms@[i]).id != (#[trigger] self.rooms@[j]).id
        &&& forall|i: int, j: int| 0 <= i < j < self.rooms@.len()
            ==> (#[trigger] self.rooms@[i]).code@ != (#[trigger] self.rooms@[j]).code@
    }

    /// Create an empty registry.
    pub fn new() -> (r: Self)
        ensures
            r.rooms@.len() == 0,
            r.next_serial == 0,
            r.wf(),
    {
        Self { rooms: Vec::new(), next_serial: 0 }
    }

    /// Create a new empty room in the lobby state and return its
    /// identifier and six-letter code, both fresh: they collide with no
    /// live room's.
    pub fn create_room(&mut self) -> (r: (RoomId, String))
        requires
            old(self).wf(),
            old(self).next_serial < CODE_SPACE,
        ensures
            final(self).wf(),
            final(self).rooms@.len() == old(self).rooms@.len() + 1,
            final(self).rooms@.drop_last() == old(self).rooms@,
            final(self).next_serial == old(self).next_serial + 1,
            !rooms_have_id(old(self).rooms@, r.0),
            !rooms_have_code(old(self).rooms@, r.1@),
            r.1@ == code_seq(old(self).next_serial as int, 6),
            r.1@.len() == 6,
            r.0@ & LOW_BITS == old(self).next_serial as u128,
            ({
                let room = final(self).rooms@.last();
                &&& room.id == r.0
                &&& room.code@ == r.1@
                &&& room.players@.len() == 0
                &&& room.state == RoomState::Lobby
                &&& room.game is None
            }),
    {
        let serial = self.next_serial;
        let chars = encode_code(serial, 6);
        let code = chars_to_string(&chars);
        let rnd = fresh_id_bits();
        let low: u128 = serial as u128;
        let bits: u128 = (rnd & HIGH_BITS) | low;
        assert((rnd & 0xFFFF_FFFF_FFFF_FFFF_0000_0000_0000_0000u128 | low)
            & 0xFFFF_FFFF_FFFF_FFFFu128 == low) by (bit_vector)
            requires
                low < 0x1_0000_0000u128,
        ;
        assert(bits & LOW_BITS == serial as u128);
        let id = RoomId::from_bits(bits);
        let room = Room {
            id,
            code: code.clone(),
            players: Vec::new(),
            state: RoomState::Lobby,
            game: None,
        };
        proof {
            lemma_code_seq_len(serial as int, 6);
            assert(pow26(0) == 1);
            assert(pow26(1) == 26);
            assert(pow26(2) == 676);
            assert(pow26(3) == 17576);
            assert(pow26(4) == 456976);
            assert(pow26(5) == 11881376);
            assert(pow26(6) == CODE_SPACE);
            assert forall|i: int| 0 <= i < self.rooms@.len() implies self.rooms@[i].code@ != code@
                && self.rooms@[i].id != id by {
                let k = choose|k: int|
                    0 <= k < self.next_serial && self.rooms@[i].code@ == code_seq(k, 6)
                        && self.rooms@[i].id@ & LOW_BITS == k;
                lemma_code_seq_injective(k, serial as int, 6);
                if self.rooms@[i].id == id {
                    assert(self.rooms@[i].id@ == bits);
                }
            }
        }
        self.rooms.push(room);
        self.next_serial = serial + 1;
        proof {
            assert(self.rooms@.drop_last() =~= old(self).rooms@);
            assert forall|i: int| 0 <= i < self.rooms@.len() implies exists|k: int|
                0 <= k < self.next_serial && (#[trigger] self.rooms@[i]).code@ == code_seq(k, 6)
                    && self.rooms@[i].id@ & LOW_BITS == k by {
                if i < self.rooms@.len() - 1 {
                    let k = choose|k: int|
                        0 <= k < old(self).next_serial && old(self).rooms@[i].code@ == code_seq(
                            k,
                            6,
                        ) && old(self).rooms@[i].id@ & LOW_BITS == k;
                    assert(0 <= k < self.next_serial && self.rooms@[i].code@ == code_seq(k, 6)
                        && self.rooms@[i].id@ & LOW_BITS == k);
                } else {
                    assert(0 <= (serial as int) && (serial as int) < self.next_serial
                        && self.rooms@[i].code@ == code_seq(serial as int, 6)
                        && self.rooms@[i].id@ & LOW_BITS == serial as int);
                }
            }
        }
        (id, code)
    }

    /// Resolve a code to a room and add a new player to it.
    ///
    /// Fails if no room has the code, the room is full, its game is
    /// already in progress, or the nickname is already taken there. On
    /// success the new player is appended to the roster, connected, with
    /// a fresh identifier, and the room's and player's identifiers are
    /// returned.
    pub fn join_room(&mut self, code: &str, nickname: String, avatar: AvatarId) -> (r: Result<
        (RoomId, PlayerId),
        JoinError,
    >)
        requires
            old(self).wf(),
        ensures
            final(self).wf(),
            final(self).next_serial == old(self).next_serial,
            !rooms_have_code(old(self).rooms@, code@) ==> r === Err(JoinError::RoomNotFound)
                && *final(self) == *old(self),
            rooms_have_code(old(self).rooms@, code@) ==> ({
                let ic = rooms_index_of_code(old(self).rooms@, code@);
                let room = old(self).rooms@[ic];
                &&& (room.players@.len() >= 8 ==> r === Err(JoinError::RoomFull) && *final(self)
                    == *old(self))
                &&& (room.players@.len() < 8 && room.state != RoomState::Lobby ==> r === Err(
                    JoinError::GameInProgress,
                ) && *final(self) == *old(self))
                &&& (room.players@.len() < 8 && room.state == RoomState::Lobby
                    && roster_has_nickname(room.players@, nickname@) ==> r === Err(
                    JoinError::DuplicateNickname,
                ) && *final(self) == *old(self))
                &&& (room.players@.len() < 8 && room.state == RoomState::Lobby
                    && !roster_has_nickname(room.players@, nickname@) ==> ({
                    let newp = final(self).rooms@[ic].players@.last();
                    &&& r matches Ok(ids) && ids.0 == room.id && ids.1 == newp.id
                    &&& final(self).rooms@ == old(self).rooms@.update(
                        ic,
                        (Room { players: final(self).rooms@[ic].players, ..room }),
                    )
                    &&& final(self).rooms@[ic].players@ == room.players@.push(newp)
                    &&& newp.nickname@ == nickname@
                    &&& newp.avatar_id == avatar
                    &&& newp.connected == true
                }))
            }),
    {
        let pos = room_position_by_code(&self.rooms, code);
        match pos {
            None => Err(JoinError::RoomNotFound),
            Some(ic) => {
                if self.rooms[ic].is_full() {
                    return Err(JoinError::RoomFull);
                }
                if !matches!(self.rooms[ic].state, RoomState::Lobby) {
                    return Err(JoinError::GameInProgress);
                }
                if self.rooms[ic].has_player_with_nickname(nickname.as_str()) {
                    return Err(JoinError::DuplicateNickname);
                }
                let room_id = self.rooms[ic].id;
                let player = Player::new(nickname, avatar);
                let roomref = &mut self.rooms[ic];
                let player_id = roomref.add_player(player);
                proof {
                    assert(old(self).rooms@[ic as int].wf());
                    lemma_wf_after_room_update(*old(self), *self, ic as int);
                }
                Ok((room_id, player_id))
            },
        }
    }

    /// Resolve a code to a room and reconnect the player with the given
    /// nickname, returning the room's and player's identifiers.
    ///
    /// Fails if no room has the code or no player there has the
    /// nickname; no new player is ever created.
    pub fn rejoin_room(&mut self, code: &str, nickname: &str) -> (r: Result<
        (RoomId, PlayerId),
        RoomError,
    >)
        requires
            old(self).wf(),
        ensures
            final(self).wf(),
            final(self).next_serial == old(self).next_serial,
            !rooms_have_code(old(self).rooms@, code@) ==> r === Err(RoomError::RoomNotFound)
                && *final(self) == *old(self),
            rooms_have_code(old(self).rooms@, code@) ==> ({
                let ic = rooms_index_of_code(old(self).rooms@, code@);
                let room = old(self).rooms@[ic];
                &&& (!roster_has_nickname(room.players@, nickname@) ==> r === Err(
                    RoomError::PlayerNotFoundSimple,
                ) && *final(self) == *old(self))
                &&& (roster_has_nickname(room.players@, nickname@) ==> ({
                    let ip = roster_index_of_nickname(room.players@, nickname@);
                    &&& r matches Ok(ids) && ids.0 == room.id && ids.1 == room.players@[ip].id
                    &&& final(self).rooms@ == old(self).rooms@.update(
                        ic,
                        (Room { players: final(self).rooms@[ic].players, ..room }),
                    )
                    &&& final(self).rooms@[ic].players@ == room.players@.update(
                        ip,
                        (Player { connected: true, ..room.players@[ip] }),
                    )
                }))
            }),
    {
        let pos = room_position_by_code(&self.rooms, code);
        match pos {
            None => Err(RoomError::RoomNotFound),
            Some(ic) => {
                let room_id = self.rooms[ic].id;
                if !self.rooms[ic].has_player_with_nickname(nickname) {
                    return Err(RoomError::PlayerNotFoundSimple);
                }
                let roomref = &mut self.rooms[ic];
                let found = roomref.reconnect_player(nickname);
                match found {
                    Some(player_id) => {
                        proof {
                            crate::room::lemma_roster_index_of_nickname(
                                old(self).rooms@[ic as int].players@,
                                nickname@,
                            );
                            assert(old(self).rooms@[ic as int].wf());
                            lemma_wf_after_room_update(*old(self), *self, ic as int);
                        }
                        Ok((room_id, player_id))
                    },
                    None => Err(RoomError::PlayerNotFoundSimple),
                }
            },
        }
    }

    /// Remove a player entirely from the given room.
    ///
    /// Fails if no room has the identifier or the player is not in the
    /// room. Removal is immediate; a mid-game leaver stays in the game's
    /// fixed turn order.
    pub fn leave_room(&mut self, room_id: RoomId, player_id: PlayerId) -> (r: Result<
        (),
        RoomError,
    >)
        requires
            old(self).wf(),
        ensures
            final(self).wf(),
            final(self).next_serial == old(self).next_serial,
            !rooms_have_id(old(self).rooms@, room_id) ==> r === Err(RoomError::RoomNotFound)
                && *final(self) == *old(self),
            rooms_have_id(old(self).rooms@, room_id) ==> ({
                let ic = rooms_index_of_id(old(self).rooms@, room_id);
                let room = old(self).rooms@[ic];
                &&& (!roster_has_id(room.players@, player_id) ==> r === Err(
                    RoomError::PlayerNotFound(player_id, room_id),
                ) && *final(self) == *old(self))
                &&& (roster_has_id(room.players@, player_id) ==> r is Ok && final(self).rooms@
                    == old(self).rooms@.update(
                    ic,
                    (Room { players: final(self).rooms@[ic].players, ..room }),
                ) && final(self).rooms@[ic].players@ == room.players@.remove(
                    roster_index_of(room.players@, player_id),
                ))
            }),
    {
        let pos = room_position_by_id(&self.rooms, &room_id);
        match pos {
            None => Err(RoomError::RoomNotFound),
            Some(ic) => {
                let present = match self.rooms[ic].find_player(player_id) {
                    Some(_) => true,
                    None => false,
                };
                if !present {
                    return Err(RoomError::PlayerNotFound(player_id, room_id));
                }
                let roomref = &mut self.rooms[ic];
                let removed = roomref.remove_player(player_id);
                if removed {
                    proof {
                        crate::room::lemma_roster_index_of(
                            old(self).rooms@[ic as int].players@,
                            player_id,
                        );
                        assert(old(self).rooms@[ic as int].wf());
                        lemma_wf_after_room_update(*old(self), *self, ic as int);
                    }
                    Ok(())
                } else {
                    Err(RoomError::PlayerNotFound(player_id, room_id))
                }
            },
        }
    }

    /// Start the game in the given room: validate that it is a lobby of
    /// 2 to 8 players, draw the communal goal and one starting object per
    /// player from the asset provider, and install a fresh game with the
    /// roster's join order as its fixed turn order.
    pub fn start_game(&mut self, room_id: &RoomId) -> (r: Result<(), RoomError>)
        requires
            old(self).wf(),
        ensures
            final(self).wf(),
            final(self).next_serial == old(self).next_serial,
            !rooms_have_id(old(self).rooms@, *room_id) ==> r === Err(RoomError::RoomNotFound)
                && *final(self) == *old(self),
            rooms_have_id(old(self).rooms@, *room_id) ==> ({
                let ic = rooms_index_of_id(old(self).rooms@, *room_id);
                let room = old(self).rooms@[ic];
                &&& (room.players@.len() < 2 ==> r === Err(RoomError::NotEnoughPlayers(*room_id))
                    && *final(self) == *old(self))
                &&& (room.players@.len() >= 2 && room.state != RoomState::Lobby ==> r === Err(
                    RoomError::AlreadyStarted(*room_id),
                ) && *final(self) == *old(self))
                &&& (room.players@.len() >= 2 && room.state == RoomState::Lobby ==> ({
                    let g = final(self).rooms@[ic].game->Some_0;
                    &&& r is Ok
                    &&& final(self).rooms@ == old(self).rooms@.update(
                        ic,
                        (Room { state: RoomState::InGame, game: Some(g), ..room }),
                    )
                    &&& g.wf()
                    &&& g.stage == GameStage::RevealGoal
                    &&& g.max_rounds == DEFAULT_MAX_ROUNDS
                    &&& g.current_turn_index == 0
                    &&& g.current_round == 0
                    &&& g.players_in_order@.len() == room.players@.len()
                    &&& (forall|i: int| 0 <= i < room.players@.len()
                        ==> g.players_in_order@[i] == (#[trigger] room.players@[i]).id)
                    &&& g.player_starting_objects@.len() == room.players@.len()
                    &&& (forall|i: int| 0 <= i < room.players@.len()
                        ==> (#[trigger] g.player_starting_objects@[i]).0 == room.players@[i].id)
                    &&& (forall|i: int, j: int| 0 <= i < j < room.players@.len()
                        ==> (#[trigger] g.player_starting_objects@[i]).1@ != (
                        #[trigger] g.player_starting_objects@[j]).1@)
                    &&& (forall|i: int| 0 <= i < room.players@.len() ==> from_starting_pool(
                        (#[trigger] g.player_starting_objects@[i]).1@,
                    ))
                    &&& objects_view(g.player_current_objects@) == objects_view(
                        g.player_starting_objects@,
                    )
                    &&& g.actions@.len() == 0
                    &&& g.votes@.len() == 0
                }))
            }),
    {
        let pos = room_position_by_id(&self.rooms, room_id);
        match pos {
            None => Err(RoomError::RoomNotFound),
            Some(ic) => {
                let count = self.rooms[ic].player_count();
                if count < 2 {
                    return Err(RoomError::NotEnoughPlayers(*room_id));
                }
                if !matches!(self.rooms[ic].state, RoomState::Lobby) {
                    return Err(RoomError::AlreadyStarted(*room_id));
                }
                let mut order: Vec<PlayerId> = Vec::new();
                let mut i: usize = 0;
                while i < count
                    invariant
                        i <= count,
                        ic < self.rooms@.len(),
                        count == self.rooms@[ic as int].players@.len(),
                        *self == *old(self),
                        order@.len() == i,
                        forall|j: int| 0 <= j < i ==> order@[j] == (#[trigger] self.rooms@[
                            ic as int
                        ].players@[j]).id,
                    decreases count - i,
                {
                    let pid = self.rooms[ic].players[i].id;
                    order.push(pid);
                    i += 1;
                }
                let assets = generate_game_assets(count);
                let (communal_goal, starting) = assets;
                let mut objects: Vec<(PlayerId, String)> = Vec::new();
                let mut j: usize = 0;
                while j < count
                    invariant
                        j <= count,
                        count == order@.len(),
                        count == starting@.len(),
                        objects@.len() == j,
                        forall|a: int| 0 <= a < j ==> (#[trigger] objects@[a]).0 == order@[a],
                        forall|a: int| 0 <= a < j ==> (#[trigger] objects@[a]).1@ == starting@[
                            a
                        ]@,
                        forall|a: int, b: int| 0 <= a < b < starting@.len()
                            ==> (#[trigger] starting@[a])@ != (#[trigger] starting@[b])@,
                        forall|a: int| 0 <= a < starting@.len() ==> from_starting_pool(
                            (#[trigger] starting@[a])@,
                        ),
                    decreases count - j,
                {
                    let entry = (order[j], starting[j].clone());
                    objects.push(entry);
                    j += 1;
                }
                let game = GameState::new(
                    ImageId::new(""),
                    communal_goal,
                    ImageId::new(""),
                    objects,
                    order,
                    DEFAULT_MAX_ROUNDS,
                );
                let roomref = &mut self.rooms[ic];
                roomref.start_game(game);
                proof {
                    assert(old(self).rooms@[ic as int].wf());
                    lemma_wf_after_room_update(*old(self), *self, ic as int);
                }
                Ok(())
            },
        }
    }

    /// Manually advance the stage of the given room's game.
    ///
    /// Fails if no room has the identifier or its game has not started.
    pub fn next_stage(&mut self, room_id: &RoomId) -> (r: Result<(), RoomError>)
        requires
            old(self).wf(),
        ensures
            final(self).wf(),
            final(self).next_serial == old(self).next_serial,
            !rooms_have_id(old(self).rooms@, *room_id) ==> r === Err(RoomError::RoomNotFound)
                && *final(self) == *old(self),
            rooms_have_id(old(self).rooms@, *room_id) ==> ({
                let ic = rooms_index_of_id(old(self).rooms@, *room_id);
                let room = old(self).rooms@[ic];
                &&& (room.game is None ==> (r matches Err(e) && (e matches RoomError::Internal(m)
                    && m@ == "Game not started"@)) && final(self).rooms@ == old(self).rooms@)
                &&& (room.game matches Some(g) ==> ({
                    &&& r is Ok
                    &&& final(self).rooms@ == old(self).rooms@.update(
                        ic,
                        (Room { game: final(self).rooms@[ic].game, ..room }),
                    )
                    &&& (final(self).rooms@[ic].game matches Some(g2)
                        && GameState::stage_advanced(g, g2))
                }))
            }),
    {
        let pos = room_position_by_id(&self.rooms, room_id);
        match pos {
            None => Err(RoomError::RoomNotFound),
            Some(ic) => {
                let roomref = &mut self.rooms[ic];
                let taken = roomref.game.take();
                match taken {
                    Some(mut g) => {
                        g.next_stage();
                        roomref.game = Some(g);
                        proof {
                            assert(old(self).rooms@[ic as int].wf());
                            lemma_wf_after_room_update(*old(self), *self, ic as int);
                        }
                        Ok(())
                    },
                    None => {
                        roomref.game = None;
                        proof {
                            assert(self.rooms@ =~= old(self).rooms@);
                        }
                        Err(RoomError::Internal("Game not started".to_owned()))
                    },
                }
            },
        }
    }

    /// Record an action in the given room's game.
    ///
    /// Fails if no room has the identifier or its game has not started;
    /// a game-level rejection is reported as an internal error carrying
    /// the game's reason.
    pub fn submit_action(
        &mut self,
        room_id: &RoomId,
        player_id: PlayerId,
        option_index: Option<usize>,
    ) -> (r: Result<(), RoomError>)
        requires
            old(self).wf(),
        ensures
            final(self).wf(),
            final(self).next_serial == old(self).next_serial,
            !rooms_have_id(old(self).rooms@, *room_id) ==> r === Err(RoomError::RoomNotFound)
                && *final(self) == *old(self),
            rooms_have_id(old(self).rooms@, *room_id) ==> ({
                let ic = rooms_index_of_id(old(self).rooms@, *room_id);
                let room = old(self).rooms@[ic];
                &&& (room.game is None ==> r is Err && final(self).rooms@ == old(self).rooms@)
                &&& (room.game matches Some(g) ==> {
                    &&& final(self).rooms@ == old(self).rooms@.update(
                        ic,
                        (Room { game: final(self).rooms@[ic].game, ..room }),
                    )
                    &&& final(self).rooms@[ic].game matches Some(g2) && ({
                        &&& (g.stage == GameStage::PlayerTurn && Some(player_id)
                            == g.spec_current_player() && (match option_index {
                            Some(idx) => idx < g.current_options@.len(),
                            None => true,
                        }) ==> r is Ok && g2.action_applied(g, player_id, option_index)
                            && GameState::counters_advanced(g, g2))
                        &&& (g.stage != GameStage::PlayerTurn || Some(player_id)
                            != g.spec_current_player() || (option_index matches Some(idx) && idx
                            >= g.current_options@.len()) ==> r is Err && g2 == g)
                    })
                })
            }),
    {
        let pos = room_position_by_id(&self.rooms, room_id);
        match pos {
            None => Err(RoomError::RoomNotFound),
            Some(ic) => {
                let roomref = &mut self.rooms[ic];
                let taken = roomref.game.take();
                match taken {
                    Some(mut g) => {
                        let outcome = g.submit_action(player_id, option_index);
                        roomref.game = Some(g);
                        proof {
                            assert(old(self).rooms@[ic as int].wf());
                            lemma_wf_after_room_update(*old(self), *self, ic as int);
                        }
                        match outcome {
                            Ok(()) => Ok(()),
                            Err(msg) => Err(RoomError::Internal(msg)),
                        }
                    },
                    None => {
                        roomref.game = None;
                        proof {
                            assert(self.rooms@ =~= old(self).rooms@);
                        }
                        Err(RoomError::Internal("Game not started".to_owned()))
                    },
                }
            },
        }
    }

    /// Store one voter's ballot in the given room's game.
    ///
    /// Fails if no room has the identifier or its game has not started;
    /// a game-level rejection is reported as an internal error carrying
    /// the game's reason.
    pub fn submit_votes(
        &mut self,
        room_id: &RoomId,
        voter_id: PlayerId,
        votes: Vec<(PlayerId, u8)>,
    ) -> (r: Result<(), RoomError>)
        requires
            old(self).wf(),
        ensures
            final(self).wf(),
            final(self).next_serial == old(self).next_serial,
            !rooms_have_id(old(self).rooms@, *room_id) ==> r === Err(RoomError::RoomNotFound)
                && *final(self) == *old(self),
            rooms_have_id(old(self).rooms@, *room_id) ==> ({
                let ic = rooms_index_of_id(old(self).rooms@, *room_id);
                let room = old(self).rooms@[ic];
                &&& (room.game is None ==> r is Err && final(self).rooms@ == old(self).rooms@)
                &&& (room.game matches Some(g) ==> {
                    &&& final(self).rooms@ == old(self).rooms@.update(
                        ic,
                        (Room { game: final(self).rooms@[ic].game, ..room }),
                    )
                    &&& final(self).rooms@[ic].game matches Some(g2) && ({
                        &&& (g.stage == GameStage::Voting && ballot_valid(votes@, voter_id)
                            ==> r is Ok && g2.votes_stored(g, voter_id, votes))
                        &&& (g.stage != GameStage::Voting || !ballot_valid(votes@, voter_id)
                            ==> r is Err && g2 == g)
                    })
                })
            }),
    {
        let pos = room_position_by_id(&self.rooms, room_id);
        match pos {
            None => Err(RoomError::RoomNotFound),
            Some(ic) => {
                let roomref = &mut self.rooms[ic];
                let taken = roomref.game.take();
                match taken {
                    Some(mut g) => {
                        let outcome = g.submit_votes(voter_id, votes);
                        roomref.game = Some(g);
                        proof {
                            assert(old(self).rooms@[ic as int].wf());
                            lemma_wf_after_room_update(*old(self), *self, ic as int);
                        }
                        match outcome {
                            Ok(()) => Ok(()),
                            Err(msg) => Err(RoomError::Internal(msg)),
                        }
                    },
                    None => {
                        roomref.game = None;
                        proof {
                            assert(self.rooms@ =~= old(self).rooms@);
                        }
                        Err(RoomError::Internal("Game not started".to_owned()))
                    },
                }
            },
        }
    }

    /// Look up a room by identifier.
    pub fn get_room(&self, room_id: &RoomId) -> (r: Option<&Room>)
        ensures
            match r {
                Some(room) => rooms_have_id(self.rooms@, *room_id) && *room == self.rooms@[
                    rooms_index_of_id(self.rooms@, *room_id)
                ],
                None => !rooms_have_id(self.rooms@, *room_id),
            },
    {
        proof {
            lemma_rooms_index_of_id(self.rooms@, *room_id);
        }
        let n = self.rooms.len();
        let mut i: usize = 0;
        while i < n
            invariant
                n == self.rooms@.len(),
                i <= n,
                forall|j: int| 0 <= j < i ==> self.rooms@[j].id != *room_id,
            decreases n - i,
        {
            if self.rooms[i].id == *room_id {
                proof {
                    lemma_rooms_index_of_id(self.rooms@, *room_id);
                    assert(rooms_index_of_id(self.rooms@, *room_id) == i);
                }
                return Some(&self.rooms[i]);
            }
            i += 1;
        }
        None
    }
}

/// A well-formed registry never holds an overfull room: every roster
/// stays within 8 players. Together with `join_room`'s contract — a join
/// into a full room is refused with the capacity error and changes
/// nothing — the capacity bound holds under every sequence of
/// operations.
pub proof fn lemma_rooms_never_overfull(m: RoomManager)
    requires
        m.wf(),
    ensures
        forall|i: int| 0 <= i < m.rooms@.len() ==> (#[trigger] m.rooms@[i]).players@.len() <= 8,
{
}

/// Replacing one room by a well-formed room with the same identifier and
/// code, serial bookkeeping untouched, keeps the registry well-formed.
proof fn lemma_wf_after_room_update(pre: RoomManager, post: RoomManager, i: int)
    requires
        pre.wf(),
        0 <= i < pre.rooms@.len(),
        post.rooms@.len() == pre.rooms@.len(),
        post.rooms@ == pre.rooms@.update(i, post.rooms@[i]),
        post.rooms@[i].id == pre.rooms@[i].id,
        post.rooms@[i].code == pre.rooms@[i].code,
        post.rooms@[i].wf(),
        post.next_serial == pre.next_serial,
    ensures
        post.wf(),
{
    assert forall|j: int| 0 <= j < post.rooms@.len() implies exists|k: int|
        0 <= k < post.next_serial && (#[trigger] post.rooms@[j]).code@ == code_seq(k, 6)
            && post.rooms@[j].id@ & LOW_BITS == k by {
        let k = choose|k: int|
            0 <= k < pre.next_serial && (#[trigger] pre.rooms@[j]).code@ == code_seq(k, 6)
                && pre.rooms@[j].id@ & LOW_BITS == k;
        assert(post.rooms@[j].code@ == pre.rooms@[j].code@ && post.rooms@[j].id == pre.rooms@[
            j
        ].id);
        assert(0 <= k < post.next_serial && post.rooms@[j].code@ == code_seq(k, 6)
            && post.rooms@[j].id@ & LOW_BITS == k);
    }
}

/// The position of the first room with the given code, if any.
fn room_position_by_code(rooms: &Vec<Room>, code: &str) -> (r: Option<usize>)
    ensures
        match r {
            Some(i) => rooms_have_code(rooms@, code@) && i == rooms_index_of_code(rooms@, code@)
                && i < rooms@.len(),
            None => !rooms_have_code(rooms@, code@),
        },
{
    proof {
        lemma_rooms_index_of_code(rooms@, code@);
    }
    let n = rooms.len();
    let mut i: usize = 0;
    while i < n
        invariant
            n == rooms@.len(),
            i <= n,
            forall|j: int| 0 <= j < i ==> rooms@[j].code@ != code@,
        decreases n - i,
    {
        if crate::text::str_eq(rooms[i].code.as_str(), code) {
            proof {
                lemma_rooms_index_of_code(rooms@, code@);
                assert(rooms_index_of_code(rooms@, code@) == i);
            }
            return Some(i);
        }
        i += 1;
    }
    None
}

/// The position of the first room with the given identifier, if any.
fn room_position_by_id(rooms: &Vec<Room>, room_id: &RoomId) -> (r: Option<usize>)
    ensures
        match r {
            Some(i) => rooms_have_id(rooms@, *room_id) && i == rooms_index_of_id(rooms@, *room_id)
                && i < rooms@.len(),
            None => !rooms_have_id(rooms@, *room_id),
        },
{
    proof {
        lemma_rooms_index_of_id(rooms@, *room_id);
    }
    let n = rooms.len();
    let mut i: usize = 0;
    while i < n
        invariant
            n == rooms@.len(),
            i <= n,
            forall|j: int| 0 <= j < i ==> rooms@[j].id != *room_id,
        decreases n - i,
    {
        if rooms[i].id == *room_id {
            proof {
                lemma_rooms_index_of_id(rooms@, *room_id);
                assert(rooms_index_of_id(rooms@, *room_id) == i);
            }
            return Some(i);
        }
        i += 1;
    }
    None
}

} // verus!
