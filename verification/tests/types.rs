use big_picture::types::{AvatarId, ImageId, OptionId, PlayerId, RoomId};
use big_picture::room::{Room, RoomState};
use big_picture::codec::{decode_room, encode_room};

#[test]
fn test_room_id_creation() {
    let id1 = RoomId::new();
    let id2 = RoomId::new();
    assert_ne!(id1, id2, "Room IDs should be unique");
}

#[test]
fn test_player_id_creation() {
    let id1 = PlayerId::new();
    let id2 = PlayerId::new();
    assert_ne!(id1, id2, "Player IDs should be unique");
}

#[test]
fn test_avatar_id() {
    let avatar = AvatarId::new(5);
    assert_eq!(avatar.as_u8(), 5);
}

#[test]
fn test_image_id() {
    let img = ImageId::new("image_12345");
    assert_eq!(img.as_str(), "image_12345");
}

#[test]
fn test_option_id() {
    let opt = OptionId::new(2);
    assert_eq!(opt.as_u8(), 2);
}

#[test]
fn test_room_id_serialization() {
    let id = RoomId::new();
    let bits = id.as_bits();
    let deserialized = RoomId::from_bits(bits);
    assert_eq!(deserialized, id);
}

#[test]
fn test_player_id_serialization() {
    let id = PlayerId::new();
    let bits = id.as_bits();
    let deserialized = PlayerId::from_bits(bits);
    assert_eq!(deserialized, id);
}

#[test]
fn test_avatar_id_bounds() {
    let a0 = AvatarId::new(0);
    let a7 = AvatarId::new(7);
    let a9 = AvatarId::new(9);

    assert_eq!(a0.as_u8(), 0);
    assert_eq!(a7.as_u8(), 7);
    assert_eq!(a9.as_u8(), 9);
}

#[test]
fn test_avatar_id_default() {
    let avatar = AvatarId::default();
    assert_eq!(avatar.as_u8(), 0);
}

#[test]
fn test_image_id_empty_string() {
    let img = ImageId::new("");
    assert_eq!(img.as_str(), "");
}

#[test]
fn test_image_id_long_string() {
    let long_id = "very_long_image_identifier_with_many_characters_12345";
    let img = ImageId::new(long_id);
    assert_eq!(img.as_str(), long_id);
}

#[test]
fn test_option_id_serialization() {
    let opt = OptionId::new(3);
    let deserialized = OptionId::new(opt.as_u8());
    assert_eq!(deserialized.as_u8(), opt.as_u8());
}

#[test]
fn test_room_state_variants() {
    let lobby = RoomState::Lobby;
    let in_game = RoomState::InGame;
    let finished = RoomState::Finished;

    assert!(matches!(lobby, RoomState::Lobby));
    assert!(matches!(in_game, RoomState::InGame));
    assert!(matches!(finished, RoomState::Finished));
}

#[test]
fn test_room_state_serialization() {
    let states = vec![RoomState::Lobby, RoomState::InGame, RoomState::Finished];

    for state in states {
        let mut room = Room::new("CODEXY".to_string());
        room.state = state;
        let text = encode_room(&room);
        let deserialized = decode_room(text.as_str()).expect("Should deserialize");
        assert_eq!(deserialized.state, state);
    }
}

#[test]
fn test_id_types_are_copy() {
    let id1 = RoomId::new();
    let id2 = id1; // Copy
    assert_eq!(id1, id2);

    let pid1 = PlayerId::new();
    let pid2 = pid1; // Copy
    assert_eq!(pid1, pid2);
}

#[test]
fn test_avatar_id_equality() {
    let a1 = AvatarId::new(5);
    let a2 = AvatarId::new(5);
    let a3 = AvatarId::new(3);

    assert_eq!(a1, a2);
    assert_ne!(a1, a3);
}
