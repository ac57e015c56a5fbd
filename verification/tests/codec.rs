use big_picture::assets::{apply_modification, generate_game_assets, generate_modification_options};
use big_picture::codec::{
    decode_game_state, decode_player, decode_room, encode_game_state, encode_player, encode_room,
};
use big_picture::room_manager::RoomManager;
use big_picture::types::AvatarId;

#[test]
fn test_apply_modification_concatenates() {
    let out = apply_modification("A wizard cat", "wearing a top hat");
    assert_eq!(out, "A wizard cat wearing a top hat");

    let out = apply_modification("", "made of jelly");
    assert_eq!(out, " made of jelly");
}

#[test]
fn test_generate_modification_options_shape() {
    let options = generate_modification_options();
    assert_eq!(options.len(), 4);
    for i in 0..options.len() {
        assert!(!options[i].is_empty());
        for j in (i + 1)..options.len() {
            assert_ne!(options[i], options[j], "options are drawn from distinct slots");
        }
    }
}

#[test]
fn test_generate_game_assets_shape() {
    let (goal, objects) = generate_game_assets(5);
    assert!(!goal.is_empty());
    assert!(goal.contains(" holding "));
    assert_eq!(objects.len(), 5);
    for i in 0..objects.len() {
        for j in (i + 1)..objects.len() {
            assert_ne!(objects[i], objects[j], "objects are drawn from distinct slots");
        }
    }
}

#[test]
fn test_player_round_trip_is_not_identity() {
    let player = big_picture::player::Player::new("Zoe".to_string(), AvatarId::new(9));
    let text = encode_player(&player);
    // The encoding is length-prefixed, not the raw nickname.
    assert_ne!(text, player.nickname);
    assert!(text.len() > player.nickname.len());
    let back = decode_player(text.as_str()).expect("decodes");
    assert_eq!(back.id, player.id);
    assert_eq!(back.nickname, player.nickname);
}

#[test]
fn test_decode_rejects_garbage() {
    assert!(decode_player("not an encoding").is_none());
    assert!(decode_game_state("").is_none());
    assert!(decode_room("12345").is_none());
}

#[test]
fn test_decode_rejects_trailing_text() {
    let player = big_picture::player::Player::new("Pat".to_string(), AvatarId::new(2));
    let mut text = encode_player(&player);
    text.push('0');
    assert!(decode_player(text.as_str()).is_none());
}

#[test]
fn test_full_room_round_trip() {
    let mut manager = RoomManager::new();
    let (room_id, code) = manager.create_room();
    manager
        .join_room(&code, "Alice".to_string(), AvatarId::new(1))
        .expect("join succeeds");
    manager
        .join_room(&code, "Bob".to_string(), AvatarId::new(2))
        .expect("join succeeds");
    manager
        .join_room(&code, "Carol".to_string(), AvatarId::new(3))
        .expect("join succeeds");
    manager.start_game(&room_id).expect("start succeeds");
    manager.next_stage(&room_id).expect("turns begin");
    let first = {
        let room = manager.get_room(&room_id).expect("room exists");
        room.game.as_ref().unwrap().current_player().expect("a turn owner")
    };
    manager
        .submit_action(&room_id, first, Some(1))
        .expect("action accepted");

    let room = manager.get_room(&room_id).expect("room exists");
    let text = encode_room(room);
    let back = decode_room(text.as_str()).expect("decodes");

    assert_eq!(back.id, room.id);
    assert_eq!(back.code, room.code);
    assert_eq!(back.state, room.state);
    assert_eq!(back.players.len(), room.players.len());
    for i in 0..room.players.len() {
        assert_eq!(back.players[i].id, room.players[i].id);
        assert_eq!(back.players[i].nickname, room.players[i].nickname);
        assert_eq!(back.players[i].avatar_id, room.players[i].avatar_id);
        assert_eq!(back.players[i].connected, room.players[i].connected);
    }
    let g = room.game.as_ref().expect("game present");
    let bg = back.game.as_ref().expect("game decoded");
    assert_eq!(bg.goal_image, g.goal_image);
    assert_eq!(bg.communal_goal, g.communal_goal);
    assert_eq!(bg.starting_image, g.starting_image);
    assert_eq!(bg.current_image, g.current_image);
    assert_eq!(bg.player_starting_objects, g.player_starting_objects);
    assert_eq!(bg.player_current_objects, g.player_current_objects);
    assert_eq!(bg.stage, g.stage);
    assert_eq!(bg.players_in_order, g.players_in_order);
    assert_eq!(bg.current_turn_index, g.current_turn_index);
    assert_eq!(bg.max_rounds, g.max_rounds);
    assert_eq!(bg.current_round, g.current_round);
    assert_eq!(bg.actions.len(), g.actions.len());
    for i in 0..g.actions.len() {
        assert_eq!(bg.actions[i].player_id, g.actions[i].player_id);
        assert_eq!(bg.actions[i].round, g.actions[i].round);
        assert_eq!(bg.actions[i].option_chosen, g.actions[i].option_chosen);
        assert_eq!(bg.actions[i].modification, g.actions[i].modification);
        assert_eq!(bg.actions[i].resulting_object, g.actions[i].resulting_object);
    }
    assert_eq!(bg.current_options, g.current_options);
    assert_eq!(bg.turn_start_time, g.turn_start_time);
    assert_eq!(bg.votes, g.votes);
    assert_eq!(bg.players_who_voted, g.players_who_voted);
    assert_eq!(bg.stage_start_time, g.stage_start_time);
}

#[test]
fn test_game_state_timestamps_set() {
    let players = vec![
        big_picture::types::PlayerId::new(),
        big_picture::types::PlayerId::new(),
    ];
    let mut game = big_picture::game::GameState::new(
        big_picture::types::ImageId::new("goal"),
        "A goal".to_string(),
        big_picture::types::ImageId::new("start"),
        Vec::new(),
        players,
        2,
    );
    assert!(game.stage_start_time > 0);
    assert!(game.turn_start_time.is_none());
    game.next_stage();
    assert!(game.turn_start_time.is_some());
}
