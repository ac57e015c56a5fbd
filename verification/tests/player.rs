use big_picture::codec::{decode_player, encode_player};
use big_picture::player::Player;
use big_picture::types::AvatarId;

#[test]
fn test_player_creation() {
    let player = Player::new("Alice".to_string(), AvatarId::new(3));
    assert_eq!(player.nickname, "Alice");
    assert_eq!(player.avatar_id.as_u8(), 3);
    assert!(player.connected);
}

#[test]
fn test_player_disconnect_reconnect() {
    let mut player = Player::new("Bob".to_string(), AvatarId::default());

    player.disconnect();
    assert!(!player.connected);

    player.reconnect();
    assert!(player.connected);
}

#[test]
fn test_player_nickname_matching() {
    let player = Player::new("Charlie".to_string(), AvatarId::default());
    assert!(player.matches_nickname("Charlie"));
    assert!(!player.matches_nickname("charlie"));
    assert!(!player.matches_nickname("Bob"));
}

#[test]
fn test_player_id_uniqueness() {
    let p1 = Player::new("Alice".to_string(), AvatarId::default());
    let p2 = Player::new("Alice".to_string(), AvatarId::default());

    // Same nickname but different IDs
    assert_ne!(p1.id, p2.id);
}

#[test]
fn test_player_avatar_ids() {
    let p0 = Player::new("Player0".to_string(), AvatarId::new(0));
    let p7 = Player::new("Player7".to_string(), AvatarId::new(7));

    assert_eq!(p0.avatar_id.as_u8(), 0);
    assert_eq!(p7.avatar_id.as_u8(), 7);
}

#[test]
fn test_player_connection_state() {
    let mut player = Player::new("Test".to_string(), AvatarId::default());

    assert!(player.connected, "New player should be connected");

    player.disconnect();
    assert!(!player.connected);

    player.disconnect(); // Double disconnect should be safe
    assert!(!player.connected);

    player.reconnect();
    assert!(player.connected);

    player.reconnect(); // Double reconnect should be safe
    assert!(player.connected);
}

#[test]
fn test_player_serialization() {
    let player = Player::new("SerTest".to_string(), AvatarId::new(5));

    let text = encode_player(&player);
    let deserialized = decode_player(text.as_str()).expect("Should deserialize");

    assert_eq!(deserialized.nickname, player.nickname);
    assert_eq!(deserialized.avatar_id, player.avatar_id);
    assert_eq!(deserialized.connected, player.connected);
    assert_eq!(deserialized.id, player.id);
}

#[test]
fn test_player_empty_nickname() {
    let player = Player::new("".to_string(), AvatarId::default());
    assert_eq!(player.nickname, "");
}

#[test]
fn test_player_long_nickname() {
    let long_name = "ThisIsAVeryLongNicknameThatShouldStillWork";
    let player = Player::new(long_name.to_string(), AvatarId::default());
    assert_eq!(player.nickname, long_name);
}

#[test]
fn test_player_special_characters_nickname() {
    let special = "Alice_123!@#";
    let player = Player::new(special.to_string(), AvatarId::default());
    assert_eq!(player.nickname, special);
}
