use big_picture::errors::{JoinError, RoomError};
use big_picture::game::{GameStage, GameState, Score};
use big_picture::room::RoomState;
use big_picture::room_manager::RoomManager;
use big_picture::types::{AvatarId, ImageId, PlayerId};
use big_picture::version;

#[test]
fn test_version() {
    assert!(!version().is_empty());
}

#[test]
fn test_exports() {
    // The main types are accessible at the crate root.
    let _room = big_picture::Room::new("TEST".to_string());
    let _player = big_picture::Player::new("Test".to_string(), big_picture::AvatarId::default());
    let _room_id = big_picture::RoomId::new();
    let _player_id = big_picture::PlayerId::new();
}

#[test]
fn test_create_room_fresh_codes() {
    let mut manager = RoomManager::new();
    let (id1, code1) = manager.create_room();
    let (id2, code2) = manager.create_room();
    assert_ne!(id1, id2);
    assert_ne!(code1, code2);
    assert_eq!(code1.len(), 6);
    assert_eq!(code2.len(), 6);
    assert!(manager.get_room(&id1).is_some());
    assert!(manager.get_room(&id2).is_some());
}

#[test]
fn test_join_room_flow() {
    let mut manager = RoomManager::new();
    let (room_id, code) = manager.create_room();

    let (joined_room, alice) = manager
        .join_room(&code, "Alice".to_string(), AvatarId::new(1))
        .expect("join succeeds");
    assert_eq!(joined_room, room_id);

    let room = manager.get_room(&room_id).expect("room exists");
    assert_eq!(room.player_count(), 1);
    let stored = room.find_player(alice).expect("player stored");
    assert_eq!(stored.nickname, "Alice");
    assert_eq!(stored.avatar_id.as_u8(), 1);
    assert!(stored.connected);

    let missing = manager.join_room("NOSUCH", "Bob".to_string(), AvatarId::new(0));
    assert!(matches!(missing, Err(JoinError::RoomNotFound)));
}

#[test]
fn test_join_duplicate_nickname_rejected() {
    let mut manager = RoomManager::new();
    let (room_id, code) = manager.create_room();

    manager
        .join_room(&code, "Alice".to_string(), AvatarId::new(0))
        .expect("first join succeeds");
    let second = manager.join_room(&code, "Alice".to_string(), AvatarId::new(2));
    assert!(matches!(second, Err(JoinError::DuplicateNickname)));

    // The roster is unchanged by the rejected join.
    let room = manager.get_room(&room_id).expect("room exists");
    assert_eq!(room.player_count(), 1);
}

#[test]
fn test_join_room_capacity() {
    let mut manager = RoomManager::new();
    let (room_id, code) = manager.create_room();

    for i in 0..8 {
        manager
            .join_room(&code, format!("Player{}", i), AvatarId::new(0))
            .expect("joins below capacity succeed");
    }
    let ninth = manager.join_room(&code, "Player9".to_string(), AvatarId::new(0));
    assert!(matches!(ninth, Err(JoinError::RoomFull)));
    let room = manager.get_room(&room_id).expect("room exists");
    assert_eq!(room.player_count(), 8);
}

#[test]
fn test_join_after_start_rejected() {
    let mut manager = RoomManager::new();
    let (room_id, code) = manager.create_room();
    manager
        .join_room(&code, "Alice".to_string(), AvatarId::new(0))
        .expect("join succeeds");
    manager
        .join_room(&code, "Bob".to_string(), AvatarId::new(1))
        .expect("join succeeds");
    manager.start_game(&room_id).expect("start succeeds");

    let late = manager.join_room(&code, "Carol".to_string(), AvatarId::new(2));
    assert!(matches!(late, Err(JoinError::GameInProgress)));
}

#[test]
fn test_start_game_requires_two_players() {
    let mut manager = RoomManager::new();
    let (room_id, code) = manager.create_room();

    manager
        .join_room(&code, "Alice".to_string(), AvatarId::new(0))
        .expect("join succeeds");
    let too_few = manager.start_game(&room_id);
    assert!(matches!(too_few, Err(RoomError::NotEnoughPlayers(_))));

    manager
        .join_room(&code, "Bob".to_string(), AvatarId::new(1))
        .expect("join succeeds");
    manager.start_game(&room_id).expect("start succeeds with 2 players");

    let room = manager.get_room(&room_id).expect("room exists");
    assert_eq!(room.state, RoomState::InGame);
    let game = room.game.as_ref().expect("game installed");
    assert_eq!(game.stage, GameStage::RevealGoal);
    assert_eq!(game.player_count(), 2);
    assert_eq!(game.player_starting_objects.len(), 2);
    assert_ne!(
        game.player_starting_objects[0].1, game.player_starting_objects[1].1,
        "each player gets a distinct starting object"
    );
    assert!(!game.communal_goal.is_empty());

    let again = manager.start_game(&room_id);
    assert!(matches!(again, Err(RoomError::AlreadyStarted(_))));
}

#[test]
fn test_rejoin_room() {
    let mut manager = RoomManager::new();
    let (room_id, code) = manager.create_room();
    let (_, bob) = manager
        .join_room(&code, "Bob".to_string(), AvatarId::new(0))
        .expect("join succeeds");

    let (rejoin_room_id, rejoin_player) = manager
        .rejoin_room(&code, "Bob")
        .expect("rejoin resolves the same player");
    assert_eq!(rejoin_room_id, room_id);
    assert_eq!(rejoin_player, bob);

    let unknown = manager.rejoin_room(&code, "Nobody");
    assert!(matches!(unknown, Err(RoomError::PlayerNotFoundSimple)));

    let bad_code = manager.rejoin_room("NOSUCH", "Bob");
    assert!(matches!(bad_code, Err(RoomError::RoomNotFound)));
}

#[test]
fn test_leave_room() {
    let mut manager = RoomManager::new();
    let (room_id, code) = manager.create_room();
    let (_, alice) = manager
        .join_room(&code, "Alice".to_string(), AvatarId::new(0))
        .expect("join succeeds");

    manager.leave_room(room_id, alice).expect("leave succeeds");
    let room = manager.get_room(&room_id).expect("room exists");
    assert_eq!(room.player_count(), 0);

    let twice = manager.leave_room(room_id, alice);
    assert!(matches!(twice, Err(RoomError::PlayerNotFound(_, _))));

    let other = PlayerId::new();
    let bad_room = manager.leave_room(big_picture::types::RoomId::new(), other);
    assert!(matches!(bad_room, Err(RoomError::RoomNotFound)));
}

#[test]
fn test_game_ops_require_started_game() {
    let mut manager = RoomManager::new();
    let (room_id, code) = manager.create_room();
    manager
        .join_room(&code, "Alice".to_string(), AvatarId::new(0))
        .expect("join succeeds");

    let advance = manager.next_stage(&room_id);
    assert!(matches!(advance, Err(RoomError::Internal(_))));

    let act = manager.submit_action(&room_id, PlayerId::new(), None);
    assert!(matches!(act, Err(RoomError::Internal(_))));

    let vote = manager.submit_votes(&room_id, PlayerId::new(), vec![]);
    assert!(matches!(vote, Err(RoomError::Internal(_))));
}

#[test]
fn test_manager_drives_game() {
    let mut manager = RoomManager::new();
    let (room_id, code) = manager.create_room();
    manager
        .join_room(&code, "Alice".to_string(), AvatarId::new(0))
        .expect("join succeeds");
    manager
        .join_room(&code, "Bob".to_string(), AvatarId::new(1))
        .expect("join succeeds");
    manager.start_game(&room_id).expect("start succeeds");

    manager.next_stage(&room_id).expect("reveal advances to turns");
    let room = manager.get_room(&room_id).expect("room exists");
    let game = room.game.as_ref().expect("game installed");
    assert_eq!(game.stage, GameStage::PlayerTurn);
    assert_eq!(game.current_options.len(), 4);
    let first = game.current_player().expect("first player's turn");

    manager
        .submit_action(&room_id, first, Some(0))
        .expect("action accepted");
    let room = manager.get_room(&room_id).expect("room exists");
    let game = room.game.as_ref().expect("game installed");
    assert_eq!(game.current_turn_index, 1);
}

fn scores_as_means(scores: &[Score]) -> Vec<f32> {
    scores
        .iter()
        .map(|s| {
            if s.vote_count == 0 {
                0.0
            } else {
                s.total_stars as f32 / s.vote_count as f32
            }
        })
        .collect()
}

#[test]
fn scenario_three_players_one_round() {
    // Players A, B, C; max_rounds = 1; each submits one action in turn
    // order; the stage must then read Voting; non-overlapping votes land
    // and the stage auto-advances to Results with the expected means.
    let a = PlayerId::new();
    let b = PlayerId::new();
    let c = PlayerId::new();
    let mut game = GameState::new(
        ImageId::new("goal"),
        "A communal goal".to_string(),
        ImageId::new("start"),
        Vec::new(),
        vec![a, b, c],
        1,
    );
    game.next_stage();
    assert_eq!(game.stage, GameStage::PlayerTurn);

    game.submit_action(a, None).expect("A acts");
    game.submit_action(b, None).expect("B acts");
    game.submit_action(c, None).expect("C acts");
    assert_eq!(game.stage, GameStage::Voting);

    game.submit_votes(a, vec![(b, 5), (c, 3)]).expect("A votes");
    assert_eq!(game.stage, GameStage::Voting);
    game.submit_votes(b, vec![(a, 4), (c, 2)]).expect("B votes");
    assert_eq!(game.stage, GameStage::Voting);
    game.submit_votes(c, vec![(a, 3), (b, 4)]).expect("C votes");
    assert_eq!(game.stage, GameStage::Results);

    let scores = game.calculate_scores();
    assert_eq!(scores.len(), 3);
    assert_eq!(scores[0].player_id, a);
    assert_eq!(scores[1].player_id, b);
    assert_eq!(scores[2].player_id, c);
    let means = scores_as_means(&scores);
    assert_eq!(means, vec![3.5, 4.5, 2.5]);
}

#[test]
fn test_submit_votes_rejections() {
    let a = PlayerId::new();
    let b = PlayerId::new();
    let mut game = GameState::new(
        ImageId::new("goal"),
        "A goal".to_string(),
        ImageId::new("start"),
        Vec::new(),
        vec![a, b],
        1,
    );

    // Voting is not open yet.
    let err = game.submit_votes(a, vec![(b, 5)]).unwrap_err();
    assert_eq!(err, "Not in voting stage");

    game.next_stage();
    game.submit_action(a, None).expect("A acts");
    game.submit_action(b, None).expect("B acts");
    assert_eq!(game.stage, GameStage::Voting);

    // A self-vote is rejected whole.
    let err = game.submit_votes(a, vec![(a, 3)]).unwrap_err();
    assert_eq!(err, "Cannot vote for yourself");

    // A star value above 5 is rejected whole.
    let err = game.submit_votes(a, vec![(b, 6)]).unwrap_err();
    assert_eq!(err, "Stars must be between 0 and 5");

    // Prior state is unchanged by the rejections.
    assert_eq!(game.players_who_voted.len(), 0);
    assert_eq!(game.votes.len(), 0);
    assert_eq!(game.stage, GameStage::Voting);
}

#[test]
fn test_votes_last_write_wins() {
    let a = PlayerId::new();
    let b = PlayerId::new();
    let c = PlayerId::new();
    let mut game = GameState::new(
        ImageId::new("goal"),
        "A goal".to_string(),
        ImageId::new("start"),
        Vec::new(),
        vec![a, b, c],
        1,
    );
    game.next_stage();
    game.submit_action(a, None).expect("A acts");
    game.submit_action(b, None).expect("B acts");
    game.submit_action(c, None).expect("C acts");

    game.submit_votes(a, vec![(b, 1), (c, 1)]).expect("A votes once");
    game.submit_votes(a, vec![(b, 5), (c, 3)]).expect("A revises");
    assert_eq!(game.players_who_voted.len(), 1);
    assert_eq!(game.votes.len(), 1);

    let scores = game.calculate_scores();
    let means = scores_as_means(&scores);
    assert_eq!(means, vec![0.0, 5.0, 3.0]);
}

#[test]
fn test_scores_zero_without_ratings() {
    let a = PlayerId::new();
    let b = PlayerId::new();
    let mut game = GameState::new(
        ImageId::new("goal"),
        "A goal".to_string(),
        ImageId::new("start"),
        Vec::new(),
        vec![a, b],
        1,
    );
    game.next_stage();
    game.submit_action(a, None).expect("A acts");
    game.submit_action(b, None).expect("B acts");

    game.submit_votes(a, vec![(b, 4)]).expect("A votes");

    let scores = game.calculate_scores();
    assert_eq!(scores[0].vote_count, 0);
    assert_eq!(scores[0].total_stars, 0);
    assert_eq!(scores[1].vote_count, 1);
    assert_eq!(scores[1].total_stars, 4);
    let means = scores_as_means(&scores);
    assert_eq!(means, vec![0.0, 4.0]);
}

#[test]
fn test_ratings_mean_pair() {
    // Ratings {3, 5} on one player average to 4.0.
    let a = PlayerId::new();
    let b = PlayerId::new();
    let c = PlayerId::new();
    let mut game = GameState::new(
        ImageId::new("goal"),
        "A goal".to_string(),
        ImageId::new("start"),
        Vec::new(),
        vec![a, b, c],
        1,
    );
    game.next_stage();
    game.submit_action(a, None).expect("A acts");
    game.submit_action(b, None).expect("B acts");
    game.submit_action(c, None).expect("C acts");

    game.submit_votes(b, vec![(a, 3)]).expect("B votes");
    game.submit_votes(c, vec![(a, 5)]).expect("C votes");

    let scores = game.calculate_scores();
    assert_eq!(scores[0].total_stars, 8);
    assert_eq!(scores[0].vote_count, 2);
    let means = scores_as_means(&scores);
    assert_eq!(means[0], 4.0);
}

#[test]
fn test_host_skip_to_voting() {
    let a = PlayerId::new();
    let b = PlayerId::new();
    let mut game = GameState::new(
        ImageId::new("goal"),
        "A goal".to_string(),
        ImageId::new("start"),
        Vec::new(),
        vec![a, b],
        3,
    );
    game.next_stage();
    assert_eq!(game.stage, GameStage::PlayerTurn);
    game.next_stage();
    assert_eq!(game.stage, GameStage::Voting);
    game.next_stage();
    assert_eq!(game.stage, GameStage::Results);
    game.next_stage();
    assert_eq!(game.stage, GameStage::Results);
}
