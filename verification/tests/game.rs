use big_picture::codec::{decode_game_state, encode_game_state};
use big_picture::game::{GameStage, GameState, PlayerAction};
use big_picture::types::{ImageId, PlayerId};

fn new_game(players: &[PlayerId], max_rounds: u32) -> GameState {
    GameState::new(
        ImageId::new("goal"),
        "A test goal".to_string(),
        ImageId::new("start"),
        Vec::new(),
        players.to_vec(),
        max_rounds,
    )
}

#[test]
fn test_game_state_creation() {
    let players = vec![PlayerId::new(), PlayerId::new(), PlayerId::new()];
    let game = new_game(&players, 3);

    assert_eq!(game.player_count(), 3);
    assert_eq!(game.current_round, 0);
    assert_eq!(game.current_turn_index, 0);
    assert_eq!(game.current_player(), Some(players[0]));
    assert!(!game.is_finished());
}

#[test]
fn test_turn_progression() {
    let players = vec![PlayerId::new(), PlayerId::new()];
    let mut game = new_game(&players, 2);
    game.next_stage();
    assert_eq!(game.stage, GameStage::PlayerTurn);

    // First action
    game.submit_action(players[0], None).expect("first turn");

    assert_eq!(game.current_turn_index, 1);
    assert_eq!(game.current_round, 0);
    assert_eq!(game.current_player(), Some(players[1]));

    // Second action (completes round 0)
    game.submit_action(players[1], None).expect("second turn");

    assert_eq!(game.current_turn_index, 0);
    assert_eq!(game.current_round, 1);
    assert_eq!(game.current_player(), Some(players[0]));
}

#[test]
fn test_game_finish_condition() {
    let players = vec![PlayerId::new(), PlayerId::new()];
    let mut game = new_game(&players, 2); // 2 rounds max
    game.next_stage();

    assert!(!game.is_finished());

    // Play through 2 rounds (4 turns total)
    for _round in 0..2 {
        for _turn in 0..players.len() {
            let current = game.current_player().expect("someone's turn");
            game.submit_action(current, None).expect("action accepted");
        }
    }

    assert!(game.is_finished());
    assert_eq!(game.total_turns(), 4);
}

#[test]
fn test_action_history() {
    let players = vec![PlayerId::new()];
    let mut game = new_game(&players, 1);
    game.next_stage();

    game.submit_action(players[0], None).expect("action accepted");

    assert_eq!(game.actions.len(), 1);
    assert_eq!(game.actions[0].player_id, players[0]);
    assert_eq!(game.actions[0].round, 0);
}

#[test]
fn test_game_with_single_player() {
    let players = vec![PlayerId::new()];
    let mut game = new_game(&players, 3);
    game.next_stage();

    assert_eq!(game.player_count(), 1);
    assert_eq!(game.current_player(), Some(players[0]));

    // Record action - should advance to next round since only 1 player
    game.submit_action(players[0], None).expect("action accepted");

    assert_eq!(game.current_round, 1);
    assert_eq!(game.current_player(), Some(players[0]));
}

#[test]
fn test_game_with_max_players() {
    let players: Vec<PlayerId> = (0..8).map(|_| PlayerId::new()).collect();
    let game = new_game(&players, 2);

    assert_eq!(game.player_count(), 8);
}

#[test]
fn test_game_turn_wrapping() {
    let players = vec![PlayerId::new(), PlayerId::new(), PlayerId::new()];
    let mut game = new_game(&players, 1);
    game.next_stage();

    // Play all 3 players in round 0
    for &player in players.iter() {
        assert_eq!(game.current_player(), Some(player));
        game.submit_action(player, None).expect("action accepted");
    }

    // Should wrap back to round 1, player 0
    assert_eq!(game.current_round, 1);
    assert_eq!(game.current_turn_index, 0);
}

#[test]
fn test_player_action_fields() {
    let player_id = PlayerId::new();
    let action = PlayerAction {
        player_id,
        round: 5,
        option_chosen: Some(3),
        modification: "Test description".to_string(),
        resulting_object: "result_image".to_string(),
    };

    assert_eq!(action.player_id, player_id);
    assert_eq!(action.round, 5);
    assert_eq!(action.option_chosen, Some(3));
    assert_eq!(action.modification, "Test description");
    assert_eq!(action.resulting_object, "result_image");
}

#[test]
fn test_game_state_serialization() {
    let players = vec![PlayerId::new(), PlayerId::new()];
    let mut game = GameState::new(
        ImageId::new("goal_img"),
        "A test goal".to_string(),
        ImageId::new("start_img"),
        Vec::new(),
        players.clone(),
        3,
    );
    game.next_stage();
    game.submit_action(players[0], None).expect("action accepted");

    let text = encode_game_state(&game);
    let deserialized = decode_game_state(text.as_str()).expect("Should deserialize");

    assert_eq!(deserialized.goal_image, game.goal_image);
    assert_eq!(deserialized.current_image, game.current_image);
    assert_eq!(deserialized.players_in_order.len(), game.players_in_order.len());
    assert_eq!(deserialized.actions.len(), game.actions.len());
    assert_eq!(deserialized.current_round, game.current_round);
}

#[test]
fn test_game_total_turns() {
    let players = vec![PlayerId::new(), PlayerId::new()];
    let game = new_game(&players, 5);

    // Total expected turns = 2 players * 5 rounds = 10
    // But total_turns() returns actions.len() which is 0 initially
    assert_eq!(game.total_turns(), 0);

    // Max possible turns calculation
    assert_eq!(game.player_count() * game.max_rounds as usize, 10);
}

#[test]
fn test_game_current_player_none_when_finished() {
    let players = vec![PlayerId::new()];
    let mut game = new_game(&players, 1);
    game.next_stage();

    game.submit_action(players[0], None).expect("action accepted");

    assert!(game.is_finished());
    assert_eq!(game.stage, GameStage::Voting);
}

#[test]
fn test_multiple_rounds_progression() {
    let players = vec![PlayerId::new(), PlayerId::new()];
    let mut game = new_game(&players, 3);
    game.next_stage();

    for round in 0..3 {
        for &player in players.iter() {
            assert_eq!(game.current_round, round);
            assert_eq!(game.current_player(), Some(player));

            game.submit_action(player, None).expect("action accepted");
        }
    }

    assert!(game.is_finished());
    assert_eq!(game.actions.len(), 6); // 3 rounds * 2 players
}

#[test]
fn test_submit_action_with_option_modifies_object() {
    let players = vec![PlayerId::new(), PlayerId::new()];
    let mut game = GameState::new(
        ImageId::new("goal"),
        "A goal".to_string(),
        ImageId::new("start"),
        vec![
            (players[0], "A wizard cat".to_string()),
            (players[1], "A sentient toaster".to_string()),
        ],
        players.clone(),
        1,
    );
    game.next_stage();
    assert_eq!(game.current_options.len(), 4);

    let modifier = game.current_options[2].clone();
    game.submit_action(players[0], Some(2)).expect("action accepted");

    let expected = format!("A wizard cat {}", modifier);
    let entry = game
        .player_current_objects
        .iter()
        .find(|e| e.0 == players[0])
        .expect("object present");
    assert_eq!(entry.1, expected);
    let recorded = game.actions.last().expect("action recorded");
    assert_eq!(recorded.option_chosen, Some(2));
    assert_eq!(recorded.modification, modifier);
    assert_eq!(recorded.resulting_object, expected);
}

#[test]
fn test_submit_action_rejections() {
    let players = vec![PlayerId::new(), PlayerId::new()];
    let mut game = new_game(&players, 1);

    // Not yet in the turn stage.
    let err = game.submit_action(players[0], None).unwrap_err();
    assert_eq!(err, "Not in turn stage");

    game.next_stage();

    // Not this player's turn.
    let err = game.submit_action(players[1], None).unwrap_err();
    assert_eq!(err, "Not your turn");

    // Out-of-range option index.
    let err = game.submit_action(players[0], Some(7)).unwrap_err();
    assert_eq!(err, "Invalid option");

    // Nothing changed by the rejections.
    assert_eq!(game.current_turn_index, 0);
    assert_eq!(game.current_round, 0);
    assert_eq!(game.actions.len(), 0);
}
