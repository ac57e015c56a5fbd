use big_picture::player::Player;
use big_picture::room::{Room, RoomState};
use big_picture::types::AvatarId;

fn create_test_player(nickname: &str) -> Player {
    Player::new(nickname.to_string(), AvatarId::default())
}

#[test]
fn test_room_creation() {
    let room = Room::new("ABC123".to_string());
    assert_eq!(room.code, "ABC123");
    assert_eq!(room.state, RoomState::Lobby);
    assert_eq!(room.player_count(), 0);
    assert!(room.game.is_none());
}

#[test]
fn test_room_add_remove_players() {
    let mut room = Room::new("TEST01".to_string());

    let p1 = create_test_player("Alice");
    let p1_id = room.add_player(p1);
    assert_eq!(room.player_count(), 1);

    let p2 = create_test_player("Bob");
    room.add_player(p2);
    assert_eq!(room.player_count(), 2);

    assert!(room.remove_player(p1_id));
    assert_eq!(room.player_count(), 1);

    assert!(!room.remove_player(p1_id), "Should not remove twice");
}

#[test]
fn test_room_capacity() {
    let mut room = Room::new("FULL01".to_string());

    // Add 8 players
    for i in 0..8 {
        room.add_player(create_test_player(&format!("Player{}", i)));
    }

    assert!(room.is_full());
    assert_eq!(room.player_count(), 8);
}

#[test]
fn test_room_can_start() {
    let mut room = Room::new("START1".to_string());

    assert!(!room.can_start(), "Cannot start with 0 players");

    room.add_player(create_test_player("Alice"));
    assert!(!room.can_start(), "Cannot start with 1 player");

    room.add_player(create_test_player("Bob"));
    assert!(room.can_start(), "Can start with 2 players");

    // Add more players (up to 8)
    for i in 3..=8 {
        room.add_player(create_test_player(&format!("Player{}", i)));
    }
    assert!(room.can_start(), "Can start with 8 players");
}

#[test]
fn test_room_find_player() {
    let mut room = Room::new("FIND01".to_string());

    let player = create_test_player("Alice");
    let player_id = player.id;
    room.add_player(player);

    assert!(room.find_player(player_id).is_some());
    assert!(room.find_player_by_nickname("Alice").is_some());
    assert!(room.find_player_by_nickname("Bob").is_none());
}

#[test]
fn test_room_has_player_with_nickname() {
    let mut room = Room::new("NICK01".to_string());

    room.add_player(create_test_player("Alice"));

    assert!(room.has_player_with_nickname("Alice"));
    assert!(!room.has_player_with_nickname("Bob"));
}

#[test]
fn test_room_reconnect_player() {
    let mut room = Room::new("RECON1".to_string());

    let mut player = create_test_player("Alice");
    player.disconnect();
    let player_id = player.id;
    room.add_player(player);

    let found = room.reconnect_player("Alice");
    assert_eq!(found, Some(player_id));
    assert!(room.find_player(player_id).unwrap().connected);

    assert_eq!(room.reconnect_player("Bob"), None);
}
