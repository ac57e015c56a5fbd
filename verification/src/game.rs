//! The turn/voting/scoring state machine of an active game.
//!
//! Stages move one way only, `RevealGoal -> PlayerTurn -> Voting ->
//! Results`, with one shortcut: once every player has acted in each of
//! `max_rounds` rounds, the game forces `Voting` on its own.

use vstd::prelude::*;
use crate::assets::{applied_text, fresh_options, generate_modification_options};
use crate::clock::now_secs;
use crate::types::{ImageId, PlayerId};

verus! {

/// The stage of the game. Transitions are one-way.
#[derive(Debug, Clone, Copy, PartialEq, Eq, Structural)]
pub enum GameStage {
    /// Revealing the communal goal and starting objects.
    RevealGoal,
    /// Active player turns.
    PlayerTurn,
    /// Voting on results.
    Voting,
    /// Final results and podium.
    Results,
}

/// The outcome of a game evaluation.
#[derive(Debug, Clone, Copy, PartialEq, Eq, Structural)]
pub enum GameOutcome {
    /// Players reached the goal.
    Success,
    /// Players got close to the goal.
    Close,
    /// Players did not reach the goal.
    Fail,
}

/// A single recorded player action.
#[derive(Debug)]
pub struct PlayerAction {
    /// The player who took this action.
    pub player_id: PlayerId,
    /// The round in which it was taken (0-based).
    pub round: u32,
    /// The chosen option's index, or `None` for a skipped turn.
    pub option_chosen: Option<usize>,
    /// The text of the modification applied.
    pub modification: String,
    /// The player's object description after the action.
    pub resulting_object: String,
}

impl Clone for PlayerAction {
    /// A copy of this record, field for field.
    fn clone(&self) -> (r: Self)
        ensures
            r.player_id == self.player_id,
            r.round == self.round,
            r.option_chosen == self.option_chosen,
            r.modification@ == self.modification@,
            r.resulting_object@ == self.resulting_object@,
    {
        Self {
            player_id: self.player_id,
            round: self.round,
            option_chosen: self.option_chosen,
            modification: self.modification.clone(),
            resulting_object: self.resulting_object.clone(),
        }
    }
}

/// One player's computed score: the stars received summed over all voters
/// who rated them. The mean is `total_stars / vote_count`, taken as 0 when
/// no rating was received.
#[derive(Debug, Clone, Copy, PartialEq, Eq, Structural)]
pub struct Score {
    /// The rated player.
    pub player_id: PlayerId,
    /// Sum of all stars this player received.
    pub total_stars: u32,
    /// How many voters rated this player.
    pub vote_count: u32,
}

/// Whether some entry of the association list `s` has key `k`.
pub open spec fn assoc_has<V>(s: Seq<(PlayerId, V)>, k: PlayerId) -> bool {
    exists|i: int| 0 <= i < s.len() && s[i].0 == k
}

/// The index of the first entry of `s` with key `k`; `s.len()` if none.
pub open spec fn assoc_index_of<V>(s: Seq<(PlayerId, V)>, k: PlayerId) -> int
    decreases s.len(),
{
    if s.len() == 0 {
        0
    } else if s[0].0 == k {
        0
    } else {
        1 + assoc_index_of(s.skip(1), k)
    }
}

/// `assoc_index_of` points at the first entry with the given key: it is in
/// range exactly when the key occurs, no earlier entry has the key, and
/// past the end it equals the list's length.
pub proof fn lemma_assoc_index_of<V>(s: Seq<(PlayerId, V)>, k: PlayerId)
    ensures
        0 <= assoc_index_of(s, k) <= s.len(),
        assoc_has(s, k) <==> assoc_index_of(s, k) < s.len(),
        assoc_index_of(s, k) < s.len() ==> s[assoc_index_of(s, k)].0 == k,
        forall|j: int| 0 <= j < assoc_index_of(s, k) ==> s[j].0 != k,
    decreases s.len(),
{
    if s.len() == 0 {
    } else if s[0].0 == k {
    } else {
        lemma_assoc_index_of(s.skip(1), k);
        assert forall|j: int| 0 <= j < assoc_index_of(s, k) implies s[j].0 != k by {
            if j > 0 {
                assert(s.skip(1)[j - 1] == s[j]);
            }
        }
        if assoc_has(s, k) {
            let w = choose|i: int| 0 <= i < s.len() && s[i].0 == k;
            assert(s.skip(1)[w - 1] == s[w]);
        }
        if assoc_index_of(s, k) < s.len() {
            assert(s.skip(1)[assoc_index_of(s.skip(1), k)] == s[assoc_index_of(s, k)]);
        }
    }
}

/// The object-map `s` with each description abstracted to its character
/// sequence.
pub open spec fn objects_view(s: Seq<(PlayerId, String)>) -> Seq<(PlayerId, Seq<char>)> {
    s.map_values(|e: (PlayerId, String)| (e.0, e.1@))
}

/// The stars the ballot `b` gives to player `p`: the first entry for `p`,
/// if any.
pub open spec fn ballot_stars(b: Seq<(PlayerId, u8)>, p: PlayerId) -> Option<u8> {
    if assoc_has(b, p) {
        Some(b[assoc_index_of(b, p)].1)
    } else {
        None
    }
}

/// A stored ballot is valid for its voter: no self-rating, and no star
/// value above 5.
pub open spec fn ballot_valid(b: Seq<(PlayerId, u8)>, voter: PlayerId) -> bool {
    forall|j: int| 0 <= j < b.len() ==> b[j].0 != voter && b[j].1 <= 5
}

/// All stored ballots are valid for their voters.
pub open spec fn ballots_ok(vs: Seq<(PlayerId, Vec<(PlayerId, u8)>)>) -> bool {
    forall|i: int| 0 <= i < vs.len() ==> ballot_valid(#[trigger] vs[i].1@, vs[i].0)
}

/// The voters of the vote store, in insertion order.
pub open spec fn voters_of(vs: Seq<(PlayerId, Vec<(PlayerId, u8)>)>) -> Seq<PlayerId> {
    vs.map_values(|e: (PlayerId, Vec<(PlayerId, u8)>)| e.0)
}

/// The sum of the stars player `p` received from the first `n` ballots.
pub open spec fn stars_total(
    vs: Seq<(PlayerId, Vec<(PlayerId, u8)>)>,
    p: PlayerId,
    n: int,
) -> int
    decreases n,
{
    if n <= 0 {
        0
    } else {
        stars_total(vs, p, n - 1) + match ballot_stars(vs[n - 1].1@, p) {
            Some(s) => s as int,
            None => 0,
        }
    }
}

/// How many of the first `n` ballots rate player `p`.
pub open spec fn votes_received(
    vs: Seq<(PlayerId, Vec<(PlayerId, u8)>)>,
    p: PlayerId,
    n: int,
) -> int
    decreases n,
{
    if n <= 0 {
        0
    } else {
        votes_received(vs, p, n - 1) + if ballot_stars(vs[n - 1].1@, p) is Some {
            1int
        } else {
            0int
        }
    }
}

/// With all ballots valid, the stars summed over `n` ballots are at most
/// `5 * n`, and at least the number of ballots received.
pub proof fn lemma_stars_total_bound(
    vs: Seq<(PlayerId, Vec<(PlayerId, u8)>)>,
    p: PlayerId,
    n: int,
)
    requires
        ballots_ok(vs),
        0 <= n <= vs.len(),
    ensures
        0 <= votes_received(vs, p, n) <= n,
        0 <= stars_total(vs, p, n) <= 5 * n,
    decreases n,
{
    if n > 0 {
        lemma_stars_total_bound(vs, p, n - 1);
        match ballot_stars(vs[n - 1].1@, p) {
            Some(s) => {
                lemma_assoc_index_of(vs[n - 1].1@, p);
            },
            None => {},
        }
    }
}

/// The first index of `b` at which the ballot is invalid for `voter`
/// (a self-rating or a star value above 5); `b.len()` if the ballot is
/// valid throughout.
pub open spec fn first_offense(b: Seq<(PlayerId, u8)>, voter: PlayerId) -> int
    decreases b.len(),
{
    if b.len() == 0 {
        0
    } else if b[0].0 == voter || b[0].1 > 5 {
        0
    } else {
        1 + first_offense(b.skip(1), voter)
    }
}

/// `first_offense` points at the first invalid entry: it is in range
/// exactly when the ballot is invalid, all earlier entries are fine, and
/// the entry there offends.
pub proof fn lemma_first_offense(b: Seq<(PlayerId, u8)>, voter: PlayerId)
    ensures
        0 <= first_offense(b, voter) <= b.len(),
        ballot_valid(b, voter) <==> first_offense(b, voter) == b.len(),
        first_offense(b, voter) < b.len() ==> (b[first_offense(b, voter)].0 == voter || b[
            first_offense(b, voter)
        ].1 > 5),
        forall|j: int| 0 <= j < first_offense(b, voter) ==> b[j].0 != voter && b[j].1 <= 5,
    decreases b.len(),
{
    if b.len() == 0 {
    } else if b[0].0 == voter || b[0].1 > 5 {
    } else {
        lemma_first_offense(b.skip(1), voter);
        assert forall|j: int| 0 <= j < first_offense(b, voter) implies b[j].0 != voter && b[j].1
            <= 5 by {
            if j > 0 {
                assert(b.skip(1)[j - 1] == b[j]);
            }
        }
        if first_offense(b, voter) < b.len() {
            assert(b.skip(1)[first_offense(b.skip(1), voter)] == b[first_offense(b, voter)]);
        }
        if ballot_valid(b, voter) {
            assert(forall|j: int| 0 <= j < b.skip(1).len() ==> #[trigger] b.skip(1)[j] == b[j + 1]);
        }
    }
}

/// The state of an active game.
#[derive(Debug)]
pub struct GameState {
    /// The target image players are working toward.
    pub goal_image: ImageId,
    /// The description of the communal goal.
    pub communal_goal: String,
    /// The image at the start of the game.
    pub starting_image: ImageId,
    /// The current image.
    pub current_image: ImageId,
    /// Each player's starting object, fixed at creation.
    pub player_starting_objects: Vec<(PlayerId, String)>,
    /// Each player's current object, mutated turn by turn.
    pub player_current_objects: Vec<(PlayerId, String)>,
    /// Current stage of the game.
    pub stage: GameStage,
    /// The turn order: a snapshot of the room's players, fixed for the
    /// game's duration.
    pub players_in_order: Vec<PlayerId>,
    /// Index of the current player in the turn order (0-based).
    pub current_turn_index: usize,
    /// How many rounds are played; each player acts once per round.
    pub max_rounds: u32,
    /// Current round (0-based).
    pub current_round: u32,
    /// Append-only history of all actions taken.
    pub actions: Vec<PlayerAction>,
    /// The four options offered to the current player.
    pub current_options: Vec<String>,
    /// When the current turn started (Unix seconds).
    pub turn_start_time: Option<u64>,
    /// Stored ballots: one entry per voter, each a map target -> stars.
    pub votes: Vec<(PlayerId, Vec<(PlayerId, u8)>)>,
    /// The voters who have submitted, in first-submission order.
    pub players_who_voted: Vec<PlayerId>,
    /// When the current stage started (Unix seconds).
    pub stage_start_time: u64,
}

impl GameState {
    /// The game's structural invariant.
    pub open spec fn wf(&self) -> bool {
        let n = self.players_in_order@.len();
        &&& 1 <= n <= 8
        &&& 1 <= self.max_rounds
        &&& self.current_turn_index < n || self.current_turn_index == 0
        &&& self.current_round <= self.max_rounds
        &&& (self.stage == GameStage::RevealGoal ==> self.current_turn_index == 0
            && self.current_round == 0)
        &&& (self.stage == GameStage::PlayerTurn ==> self.current_turn_index < n
            && self.current_round < self.max_rounds)
        &&& (self.stage == GameStage::RevealGoal || self.stage == GameStage::PlayerTurn
            ==> self.votes@.len() == 0)
        &&& (self.stage == GameStage::Voting ==> self.votes@.len() < n || self.votes@.len() == 0)
        &&& self.votes@.len() <= n + 1
        &&& self.players_who_voted@ == voters_of(self.votes@)
        &&& self.players_who_voted@.no_duplicates()
        &&& ballots_ok(self.votes@)
    }

    /// The player whose turn it is, if the turn index is in range.
    pub open spec fn spec_current_player(&self) -> Option<PlayerId> {
        if self.current_turn_index < self.players_in_order@.len() {
            Some(self.players_in_order@[self.current_turn_index as int])
        } else {
            None
        }
    }

    /// Whether the game has played all its rounds.
    pub open spec fn spec_is_finished(&self) -> bool {
        self.current_round >= self.max_rounds
    }

    /// How many turns have been taken since the game started, counted from
    /// the round and turn-index counters.
    pub open spec fn turns_taken(&self) -> int {
        self.current_round * self.players_in_order@.len() + self.current_turn_index
    }

    /// How a successful action moves the turn counters and the stage: the
    /// turn index advances, wrapping into a new round after the last
    /// player, and reaching `max_rounds` forces the `Voting` stage.
    pub open spec fn counters_advanced(pre: Self, post: Self) -> bool {
        let n = pre.players_in_order@.len();
        &&& post.players_in_order@ == pre.players_in_order@
        &&& post.max_rounds == pre.max_rounds
        &&& (pre.current_turn_index + 1 < n ==> post.current_turn_index == pre.current_turn_index
            + 1 && post.current_round == pre.current_round)
        &&& (pre.current_turn_index + 1 >= n ==> post.current_turn_index == 0
            && post.current_round == pre.current_round + 1)
        &&& post.stage == (if post.current_round >= pre.max_rounds {
            GameStage::Voting
        } else {
            GameStage::PlayerTurn
        })
    }

    /// Create a new game in the `RevealGoal` stage.
    pub fn new(
        goal_image: ImageId,
        communal_goal: String,
        starting_image: ImageId,
        player_starting_objects: Vec<(PlayerId, String)>,
        players: Vec<PlayerId>,
        max_rounds: u32,
    ) -> (r: Self)
        requires
            1 <= players@.len() <= 8,
            1 <= max_rounds,
        ensures
            r.goal_image == goal_image,
            r.communal_goal == communal_goal,
            r.starting_image == starting_image,
            r.current_image@ == starting_image@,
            r.player_starting_objects == player_starting_objects,
            objects_view(r.player_current_objects@) == objects_view(player_starting_objects@),
            r.stage == GameStage::RevealGoal,
            r.players_in_order == players,
            r.current_turn_index == 0,
            r.max_rounds == max_rounds,
            r.current_round == 0,
            r.actions@.len() == 0,
            r.current_options@.len() == 0,
            r.turn_start_time is None,
            r.votes@.len() == 0,
            r.players_who_voted@.len() == 0,
            r.wf(),
    {
        let current_image = starting_image.clone();
        let player_current_objects = clone_objects(&player_starting_objects);
        let now = now_secs();
        let r = Self {
            goal_image,
            communal_goal,
            starting_image,
            current_image,
            player_starting_objects,
            player_current_objects,
            stage: GameStage::RevealGoal,
            players_in_order: players,
            current_turn_index: 0,
            max_rounds,
            current_round: 0,
            actions: Vec::new(),
            current_options: Vec::new(),
            turn_start_time: None,
            votes: Vec::new(),
            players_who_voted: Vec::new(),
            stage_start_time: now,
        };
        proof {
            assert(voters_of(r.votes@) =~= r.players_who_voted@);
        }
        r
    }

    /// The player whose turn it is, or `None` when the turn index is out
    /// of range.
    pub fn current_player(&self) -> (r: Option<PlayerId>)
        ensures
            r == self.spec_current_player(),
    {
        if self.current_turn_index < self.players_in_order.len() {
            Some(self.players_in_order[self.current_turn_index])
        } else {
            None
        }
    }

    /// Whether the game has played all its rounds.
    pub fn is_finished(&self) -> (r: bool)
        ensures
            r == self.spec_is_finished(),
    {
        self.current_round >= self.max_rounds
    }

    /// The total number of actions recorded.
    pub fn total_turns(&self) -> (r: usize)
        ensures
            r == self.actions@.len(),
    {
        self.actions.len()
    }

    /// The number of players in the game.
    pub fn player_count(&self) -> (r: usize)
        ensures
            r == self.players_in_order@.len(),
    {
        self.players_in_order.len()
    }

    /// Draw four fresh options for the current player and stamp the turn
    /// start time. Without a current player this is a no-op.
    pub fn start_turn(&mut self)
        ensures
            old(self).current_turn_index < old(self).players_in_order@.len() ==> {
                &&& fresh_options(final(self).current_options@)
                &&& final(self).turn_start_time is Some
                &&& *final(self) == (GameState {
                    current_options: final(self).current_options,
                    turn_start_time: final(self).turn_start_time,
                    ..*old(self)
                })
            },
            old(self).current_turn_index >= old(self).players_in_order@.len() ==> *final(self)
                == *old(self),
            old(self).wf() ==> final(self).wf(),
    {
        if self.current_turn_index < self.players_in_order.len() {
            self.current_options = generate_modification_options();
            self.turn_start_time = Some(now_secs());
        }
    }

    /// What a manual stage advance does: the stage steps forward (with
    /// `Results` terminal), the stage start time is restamped, a
    /// `RevealGoal` advance also starts the first turn, and nothing else
    /// changes.
    pub open spec fn stage_advanced(pre: Self, post: Self) -> bool {
        &&& post.stage == (match pre.stage {
            GameStage::RevealGoal => GameStage::PlayerTurn,
            GameStage::PlayerTurn => GameStage::Voting,
            GameStage::Voting => GameStage::Results,
            GameStage::Results => GameStage::Results,
        })
        &&& post == (GameState {
            stage: post.stage,
            stage_start_time: post.stage_start_time,
            current_options: post.current_options,
            turn_start_time: post.turn_start_time,
            ..pre
        })
        &&& (pre.stage != GameStage::RevealGoal ==> post.current_options == pre.current_options
            && post.turn_start_time == pre.turn_start_time)
        &&& (pre.stage == GameStage::RevealGoal && pre.current_turn_index
            < pre.players_in_order@.len() ==> fresh_options(post.current_options@)
            && post.turn_start_time is Some)
    }

    /// Manually advance the stage: `RevealGoal` starts the first turn,
    /// `PlayerTurn` skips straight to `Voting` (host override), `Voting`
    /// moves to `Results`, and `Results` stays put. The stage start time
    /// is stamped either way.
    pub fn next_stage(&mut self)
        ensures
            Self::stage_advanced(*old(self), *final(self)),
            old(self).wf() ==> final(self).wf(),
    {
        let now = now_secs();
        self.stage_start_time = now;

        match self.stage {
            GameStage::RevealGoal => {
                self.stage = GameStage::PlayerTurn;
                self.start_turn();
            },
            GameStage::PlayerTurn => {
                self.stage = GameStage::Voting;
            },
            GameStage::Voting => {
                self.stage = GameStage::Results;
            },
            GameStage::Results => {},
        }
    }

    /// Record an action for the current player and advance the turn.
    ///
    /// Valid only in the `PlayerTurn` stage and only for the player whose
    /// turn it is. With an option index, the chosen modifier is appended
    /// to the player's current object; without one, the turn is recorded
    /// as skipped and the object stays. After recording, the turn index
    /// advances, wrapping into a new round after the last player; once
    /// `max_rounds` rounds are complete, the stage is forced to `Voting`,
    /// otherwise the next turn starts.
    pub fn submit_action(&mut self, player_id: PlayerId, option_index: Option<usize>) -> (r:
        Result<(), String>)
        requires
            old(self).wf(),
        ensures
            final(self).wf(),
            old(self).stage != GameStage::PlayerTurn ==> (r matches Err(e) && e@
                == "Not in turn stage"@) && *final(self) == *old(self),
            old(self).stage == GameStage::PlayerTurn
                && Some(player_id) != old(self).spec_current_player()
                ==> (r matches Err(e) && e@ == "Not your turn"@) && *final(self) == *old(self),
            old(self).stage == GameStage::PlayerTurn
                && Some(player_id) == old(self).spec_current_player()
                && (option_index matches Some(idx) && idx >= old(self).current_options@.len())
                ==> (r matches Err(e) && e@ == "Invalid option"@) && *final(self) == *old(self),
            old(self).stage == GameStage::PlayerTurn
                && Some(player_id) == old(self).spec_current_player()
                && (match option_index {
                    Some(idx) => idx < old(self).current_options@.len(),
                    None => true,
                })
                ==> r is Ok && final(self).action_applied(*old(self), player_id, option_index)
                    && Self::counters_advanced(*old(self), *final(self))
                    && (final(self).stage == GameStage::PlayerTurn
                    ==> fresh_options(final(self).current_options@)
                    && final(self).turn_start_time is Some
                    && final(self).stage_start_time == old(self).stage_start_time)
                    && (final(self).stage == GameStage::Voting
                    ==> final(self).current_options == old(self).current_options),
    {
        if !matches!(self.stage, GameStage::PlayerTurn) {
            return Err("Not in turn stage".to_owned());
        }
        let me = self.current_player();
        let not_mine = match me {
            Some(cur) => cur != player_id,
            None => true,
        };
        if not_mine {
            return Err("Not your turn".to_owned());
        }

        match option_index {
            Some(idx) => {
                if idx >= self.current_options.len() {
                    return Err("Invalid option".to_owned());
                }
                let found = assoc_position(&self.player_current_objects, player_id);
                match found {
                    Some(pos) => {
                        let ghost pre_objs = self.player_current_objects@;
                        let modifier = self.current_options[idx].clone();
                        let new_text = crate::assets::apply_modification(
                            self.player_current_objects[pos].1.as_str(),
                            modifier.as_str(),
                        );
                        let recorded = PlayerAction {
                            player_id,
                            round: self.current_round,
                            option_chosen: Some(idx),
                            modification: modifier,
                            resulting_object: new_text.clone(),
                        };
                        self.player_current_objects[pos] = (player_id, new_text);
                        self.actions.push(recorded);
                        proof {
                            assert(self.actions@.drop_last() =~= old(self).actions@);
                            assert(objects_view(self.player_current_objects@) =~= objects_view(
                                pre_objs,
                            ).update(
                                assoc_index_of(pre_objs, player_id),
                                (
                                    player_id,
                                    applied_text(
                                        pre_objs[assoc_index_of(pre_objs, player_id)].1@,
                                        old(self).current_options@[idx as int]@,
                                    ),
                                ),
                            ));
                        }
                    },
                    None => {},
                }
            },
            None => {
                let found = assoc_position(&self.player_current_objects, player_id);
                let resulting_object = match found {
                    Some(pos) => self.player_current_objects[pos].1.clone(),
                    None => String::new(),
                };
                let recorded = PlayerAction {
                    player_id,
                    round: self.current_round,
                    option_chosen: None,
                    modification: "No action".to_owned(),
                    resulting_object,
                };
                self.actions.push(recorded);
                proof {
                    assert(self.actions@.drop_last() =~= old(self).actions@);
                }
            },
        }

        self.advance_turn();
        Ok(())
    }

    /// What a successful action does to the objects and the action log,
    /// relative to the state `pre` it was submitted in.
    pub open spec fn action_applied(
        &self,
        pre: Self,
        player_id: PlayerId,
        option_index: Option<usize>,
    ) -> bool {
        let objs = pre.player_current_objects@;
        let recorded = self.actions@.last();
        &&& self.goal_image == pre.goal_image
        &&& self.communal_goal == pre.communal_goal
        &&& self.starting_image == pre.starting_image
        &&& self.current_image == pre.current_image
        &&& self.player_starting_objects == pre.player_starting_objects
        &&& self.votes == pre.votes
        &&& self.players_who_voted == pre.players_who_voted
        &&& match option_index {
            Some(idx) => {
                if assoc_has(objs, player_id) {
                    let new_text = applied_text(
                        objs[assoc_index_of(objs, player_id)].1@,
                        pre.current_options@[idx as int]@,
                    );
                    &&& objects_view(self.player_current_objects@) == objects_view(objs).update(
                        assoc_index_of(objs, player_id),
                        (player_id, new_text),
                    )
                    &&& self.actions@.len() == pre.actions@.len() + 1
                    &&& self.actions@.drop_last() == pre.actions@
                    &&& recorded.player_id == player_id
                    &&& recorded.round == pre.current_round
                    &&& recorded.option_chosen == Some(idx)
                    &&& recorded.modification@ == pre.current_options@[idx as int]@
                    &&& recorded.resulting_object@ == new_text
                } else {
                    &&& self.player_current_objects == pre.player_current_objects
                    &&& self.actions == pre.actions
                }
            },
            None => {
                &&& self.player_current_objects == pre.player_current_objects
                &&& self.actions@.len() == pre.actions@.len() + 1
                &&& self.actions@.drop_last() == pre.actions@
                &&& recorded.player_id == player_id
                &&& recorded.round == pre.current_round
                &&& recorded.option_chosen is None
                &&& recorded.modification@ == "No action"@
                &&& recorded.resulting_object@ == (if assoc_has(objs, player_id) {
                    objs[assoc_index_of(objs, player_id)].1@
                } else {
                    Seq::<char>::empty()
                })
            },
        }
    }

    /// Advance to the next player's turn; wrap into a new round after the
    /// last player; force `Voting` once all rounds are complete.
    fn advance_turn(&mut self)
        requires
            old(self).wf(),
            old(self).stage == GameStage::PlayerTurn,
        ensures
            final(self).wf(),
            Self::counters_advanced(*old(self), *final(self)),
            final(self).stage == GameStage::PlayerTurn ==> fresh_options(
                final(self).current_options@,
            ) && final(self).turn_start_time is Some && final(self).stage_start_time == old(
                self,
            ).stage_start_time,
            final(self).stage == GameStage::Voting ==> final(self).current_options == old(
                self,
            ).current_options && final(self).turn_start_time == old(self).turn_start_time,
            final(self).goal_image == old(self).goal_image,
            final(self).communal_goal == old(self).communal_goal,
            final(self).starting_image == old(self).starting_image,
            final(self).current_image == old(self).current_image,
            final(self).player_starting_objects == old(self).player_starting_objects,
            final(self).player_current_objects == old(self).player_current_objects,
            final(self).actions == old(self).actions,
            final(self).votes == old(self).votes,
            final(self).players_who_voted == old(self).players_who_voted,
    {
        self.current_turn_index += 1;

        if self.current_turn_index >= self.players_in_order.len() {
            self.current_turn_index = 0;
            self.current_round += 1;
        }

        if self.current_round >= self.max_rounds {
            self.stage = GameStage::Voting;
            self.stage_start_time = now_secs();
        } else {
            self.start_turn();
        }
    }

    /// Store one voter's ballot.
    ///
    /// Valid only in the `Voting` stage. A ballot that rates the voter
    /// themselves or gives more than 5 stars is rejected whole, leaving
    /// all state unchanged. A valid ballot replaces any prior ballot from
    /// the same voter; once as many distinct voters have voted as there
    /// are players in the turn order, the stage advances to `Results`.
    #[verifier::loop_isolation(false)]
    pub fn submit_votes(&mut self, voter_id: PlayerId, votes: Vec<(PlayerId, u8)>) -> (r: Result<
        (),
        String,
    >)
        requires
            old(self).wf(),
        ensures
            final(self).wf(),
            old(self).stage != GameStage::Voting ==> (r matches Err(e) && e@
                == "Not in voting stage"@) && *final(self) == *old(self),
            old(self).stage == GameStage::Voting && !ballot_valid(votes@, voter_id) ==> {
                let off = first_offense(votes@, voter_id);
                &&& *final(self) == *old(self)
                &&& r matches Err(e) && e@ == (if votes@[off].0 == voter_id {
                    "Cannot vote for yourself"@
                } else {
                    "Stars must be between 0 and 5"@
                })
            },
            old(self).stage == GameStage::Voting && ballot_valid(votes@, voter_id) ==> r is Ok
                && final(self).votes_stored(*old(self), voter_id, votes),
    {
        if !matches!(self.stage, GameStage::Voting) {
            return Err("Not in voting stage".to_owned());
        }

        proof {
            lemma_first_offense(votes@, voter_id);
        }
        let ballot_len = votes.len();
        let mut j: usize = 0;
        while j < ballot_len
            invariant
                ballot_len == votes@.len(),
                j <= ballot_len,
                forall|a: int| 0 <= a < j ==> votes@[a].0 != voter_id && votes@[a].1 <= 5,
                *self == *old(self),
            decreases ballot_len - j,
        {
            let (target, stars) = votes[j];
            if target == voter_id {
                proof {
                    lemma_first_offense(votes@, voter_id);
                    assert(first_offense(votes@, voter_id) == j);
                }
                return Err("Cannot vote for yourself".to_owned());
            }
            if stars > 5 {
                proof {
                    lemma_first_offense(votes@, voter_id);
                    assert(first_offense(votes@, voter_id) == j);
                }
                return Err("Stars must be between 0 and 5".to_owned());
            }
            j += 1;
        }

        let ghost pre = *self;
        let existing = assoc_position(&self.votes, voter_id);
        match existing {
            Some(pos) => {
                self.votes[pos] = (voter_id, votes);
                proof {
                    lemma_assoc_index_of(pre.votes@, voter_id);
                    assert(pre.votes@[pos as int].0 == voter_id);
                    assert(voters_of(self.votes@) =~= voters_of(pre.votes@));
                }
            },
            None => {
                self.votes.push((voter_id, votes));
                self.players_who_voted.push(voter_id);
                proof {
                    assert(voters_of(self.votes@) =~= voters_of(pre.votes@).push(voter_id));
                    lemma_assoc_index_of(pre.votes@, voter_id);
                    assert(forall|i: int|
                        0 <= i < pre.players_who_voted@.len()
                            ==> #[trigger] pre.players_who_voted@[i] != voter_id);
                }
            },
        }

        if self.players_who_voted.len() >= self.players_in_order.len() {
            self.stage = GameStage::Results;
            self.stage_start_time = now_secs();
        }

        Ok(())
    }

    /// What storing a valid ballot does, relative to the state `pre` it
    /// was submitted in: last-write-wins per voter, the voter is marked as
    /// having voted, and the stage auto-advances to `Results` once the
    /// count of distinct voters reaches the turn-order roster's size.
    pub open spec fn votes_stored(
        &self,
        pre: Self,
        voter_id: PlayerId,
        votes: Vec<(PlayerId, u8)>,
    ) -> bool {
        let vs = pre.votes@;
        &&& self.goal_image == pre.goal_image
        &&& self.communal_goal == pre.communal_goal
        &&& self.starting_image == pre.starting_image
        &&& self.current_image == pre.current_image
        &&& self.player_starting_objects == pre.player_starting_objects
        &&& self.player_current_objects == pre.player_current_objects
        &&& self.players_in_order == pre.players_in_order
        &&& self.current_turn_index == pre.current_turn_index
        &&& self.max_rounds == pre.max_rounds
        &&& self.current_round == pre.current_round
        &&& self.actions == pre.actions
        &&& self.current_options == pre.current_options
        &&& self.turn_start_time == pre.turn_start_time
        &&& (if assoc_has(vs, voter_id) {
            &&& self.votes@ == vs.update(assoc_index_of(vs, voter_id), (voter_id, votes))
            &&& self.players_who_voted == pre.players_who_voted
        } else {
            &&& self.votes@ == vs.push((voter_id, votes))
            &&& self.players_who_voted@ == pre.players_who_voted@.push(voter_id)
        })
        &&& self.stage == (if self.players_who_voted@.len() >= self.players_in_order@.len() {
            GameStage::Results
        } else {
            GameStage::Voting
        })
        &&& (self.stage == GameStage::Voting ==> self.stage_start_time == pre.stage_start_time)
    }

    /// Compute every player's received-star total and rating count, in
    /// turn order. A pure read: deterministic and side-effect free.
    pub fn calculate_scores(&self) -> (r: Vec<Score>)
        requires
            self.wf(),
        ensures
            r@.len() == self.players_in_order@.len(),
            forall|i: int| 0 <= i < r@.len() ==> {
                &&& (#[trigger] r@[i]).player_id == self.players_in_order@[i]
                &&& r@[i].total_stars == stars_total(
                    self.votes@,
                    self.players_in_order@[i],
                    self.votes@.len() as int,
                )
                &&& r@[i].vote_count == votes_received(
                    self.votes@,
                    self.players_in_order@[i],
                    self.votes@.len() as int,
                )
            },
    {
        let mut scores: Vec<Score> = Vec::new();
        let n = self.players_in_order.len();
        let vn = self.votes.len();
        let mut i: usize = 0;
        while i < n
            invariant
                i <= n,
                n == self.players_in_order@.len(),
                vn == self.votes@.len(),
                self.wf(),
                scores@.len() == i,
                forall|a: int| 0 <= a < i ==> {
                    &&& (#[trigger] scores@[a]).player_id == self.players_in_order@[a]
                    &&& scores@[a].total_stars == stars_total(
                        self.votes@,
                        self.players_in_order@[a],
                        vn as int,
                    )
                    &&& scores@[a].vote_count == votes_received(
                        self.votes@,
                        self.players_in_order@[a],
                        vn as int,
                    )
                },
            decreases n - i,
        {
            let player_id = self.players_in_order[i];
            let mut total_stars: u32 = 0;
            let mut vote_count: u32 = 0;
            let mut v: usize = 0;
            while v < vn
                invariant
                    v <= vn,
                    vn == self.votes@.len(),
                    self.wf(),
                    total_stars == stars_total(self.votes@, player_id, v as int),
                    vote_count == votes_received(self.votes@, player_id, v as int),
                decreases vn - v,
            {
                proof {
                    lemma_stars_total_bound(self.votes@, player_id, v as int);
                    lemma_stars_total_bound(self.votes@, player_id, v as int + 1);
                }
                let looked = ballot_lookup(&self.votes[v].1, player_id);
                match looked {
                    Some(stars) => {
                        proof {
                            lemma_assoc_index_of(self.votes@[v as int].1@, player_id);
                        }
                        total_stars += stars as u32;
                        vote_count += 1;
                    },
                    None => {},
                }
                v += 1;
            }
            scores.push(Score { player_id, total_stars, vote_count });
            i += 1;
        }
        scores
    }
}

/// Every successful action takes exactly one more turn. With N players
/// and R rounds, the game is finished exactly when all N times R turns
/// are in — never earlier: the count of turns taken never passes N times
/// R, and finishing coincides with reaching it.
pub proof fn lemma_turn_counting(pre: GameState, post: GameState)
    requires
        pre.wf(),
        pre.stage == GameStage::PlayerTurn,
        GameState::counters_advanced(pre, post),
    ensures
        post.turns_taken() == pre.turns_taken() + 1,
        post.spec_is_finished() <==> post.turns_taken() == pre.players_in_order@.len()
            * pre.max_rounds,
        post.turns_taken() <= pre.players_in_order@.len() * pre.max_rounds,
{
    let n = pre.players_in_order@.len() as int;
    let r = pre.current_round as int;
    let m = pre.max_rounds as int;
    assert((r + 1) * n == r * n + n) by (nonlinear_arith);
    if pre.current_turn_index + 1 < n {
        assert(post.turns_taken() == pre.turns_taken() + 1);
        assert(r < m);
        assert(r * n + n <= m * n) by (nonlinear_arith)
            requires
                r + 1 <= m,
                n >= 0,
        ;
        assert(post.turns_taken() < r * n + n);
        assert(!post.spec_is_finished());
        assert(post.turns_taken() != m * n) by (nonlinear_arith)
            requires
                post.turns_taken() < (r + 1) * n,
                r + 1 <= m,
                n >= 1,
                post.turns_taken() == r * n + pre.current_turn_index + 1,
                pre.current_turn_index >= 0,
        ;
    } else {
        assert(pre.current_turn_index == n - 1);
        assert(post.turns_taken() == (r + 1) * n);
        assert(post.turns_taken() == pre.turns_taken() + 1);
        assert((r + 1) * n == m * n <==> r + 1 == m) by (nonlinear_arith)
            requires
                n >= 1,
        ;
        assert((r + 1) * n <= m * n) by (nonlinear_arith)
            requires
                r + 1 <= m,
                n >= 1,
        ;
        assert(post.spec_is_finished() <==> r + 1 >= m);
    }
}

/// A game still in the turn stage has taken fewer than N times R turns.
/// With `lemma_turn_counting`, a fresh game — whose counter starts at
/// zero — is therefore finished after exactly N times R successful
/// actions and never earlier.
pub proof fn lemma_turns_bound(g: GameState)
    requires
        g.wf(),
        g.stage == GameStage::PlayerTurn,
    ensures
        0 <= g.turns_taken() < g.players_in_order@.len() * g.max_rounds,
{
    let n = g.players_in_order@.len() as int;
    let r = g.current_round as int;
    let m = g.max_rounds as int;
    assert(r * n + n <= m * n) by (nonlinear_arith)
        requires
            r + 1 <= m,
            n >= 0,
    ;
    assert(g.turns_taken() < r * n + n);
}

/// Turn order wraps correctly: once each player in the fixed roster has
/// acted once — the acting player held the roster's last slot — the round
/// counter increments by exactly one and the turn index returns to 0.
pub proof fn lemma_round_wrap(pre: GameState, post: GameState)
    requires
        pre.wf(),
        pre.stage == GameStage::PlayerTurn,
        GameState::counters_advanced(pre, post),
        pre.current_turn_index == pre.players_in_order@.len() - 1,
    ensures
        post.current_round == pre.current_round + 1,
        post.current_turn_index == 0,
{
}

/// A player whom no ballot rates receives a zero star total, so their
/// mean score is taken as zero.
pub proof fn lemma_unrated_player_zero(
    vs: Seq<(PlayerId, Vec<(PlayerId, u8)>)>,
    p: PlayerId,
    n: int,
)
    requires
        0 <= n <= vs.len(),
        votes_received(vs, p, n) == 0,
    ensures
        stars_total(vs, p, n) == 0,
    decreases n,
{
    if n > 0 {
        assert(votes_received(vs, p, n - 1) >= 0) by {
            lemma_votes_received_nonneg(vs, p, n - 1);
        }
        assert(votes_received(vs, p, n - 1) == 0);
        lemma_unrated_player_zero(vs, p, n - 1);
    }
}

/// The count of ballots rating a player is never negative.
proof fn lemma_votes_received_nonneg(
    vs: Seq<(PlayerId, Vec<(PlayerId, u8)>)>,
    p: PlayerId,
    n: int,
)
    ensures
        votes_received(vs, p, n) >= 0,
    decreases n,
{
    if n > 0 {
        lemma_votes_received_nonneg(vs, p, n - 1);
    }
}

/// The position of the first entry with key `k` in the association list,
/// if any.
fn assoc_position<V>(s: &Vec<(PlayerId, V)>, k: PlayerId) -> (r: Option<usize>)
    ensures
        match r {
            Some(i) => assoc_has(s@, k) && i == assoc_index_of(s@, k) && i < s@.len(),
            None => !assoc_has(s@, k),
        },
{
    proof {
        lemma_assoc_index_of(s@, k);
    }
    let n = s.len();
    let mut i: usize = 0;
    while i < n
        invariant
            n == s@.len(),
            i <= n,
            forall|j: int| 0 <= j < i ==> s@[j].0 != k,
        decreases n - i,
    {
        if s[i].0 == k {
            proof {
                lemma_assoc_index_of(s@, k);
                assert(assoc_index_of(s@, k) == i);
            }
            return Some(i);
        }
        i += 1;
    }
    None
}

/// The stars the ballot gives to player `p`, by first match.
fn ballot_lookup(b: &Vec<(PlayerId, u8)>, p: PlayerId) -> (r: Option<u8>)
    ensures
        r == ballot_stars(b@, p),
{
    proof {
        lemma_assoc_index_of(b@, p);
    }
    let pos = assoc_position(b, p);
    match pos {
        Some(i) => Some(b[i].1),
        None => None,
    }
}

/// Copy an object map, entry for entry.
fn clone_objects(v: &Vec<(PlayerId, String)>) -> (r: Vec<(PlayerId, String)>)
    ensures
        objects_view(r@) == objects_view(v@),
{
    let mut r: Vec<(PlayerId, String)> = Vec::new();
    let n = v.len();
    let mut i: usize = 0;
    while i < n
        invariant
            n == v@.len(),
            i <= n,
            r@.len() == i,
            forall|j: int| 0 <= j < i ==> #[trigger] r@[j].0 == v@[j].0 && r@[j].1@ == v@[j].1@,
        decreases n - i,
    {
        let entry = (v[i].0, v[i].1.clone());
        r.push(entry);
        i += 1;
    }
    proof {
        assert(objects_view(r@) =~= objects_view(v@));
    }
    r
}

} // verus!
