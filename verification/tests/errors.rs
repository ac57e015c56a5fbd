use big_picture::codec::{decode_join_error, decode_room_error, encode_join_error, encode_room_error};
use big_picture::errors::{JoinError, RoomError};
use big_picture::types::{PlayerId, RoomId};

#[test]
fn test_room_error_display() {
    let room_id = RoomId::new();
    let player_id = PlayerId::new();

    let err = RoomError::NotFound("ABC123".to_string());
    assert!(err.message().contains("ABC123"));

    let err = RoomError::Full(room_id);
    assert!(err.message().contains("full"));

    let err = RoomError::PlayerNotFound(player_id, room_id);
    assert!(err.message().contains("not found"));

    let err = RoomError::NicknameTaken("Alice".to_string(), room_id);
    assert!(err.message().contains("Alice"));
    assert!(err.message().contains("taken"));
}

#[test]
fn test_join_error_display() {
    let err = JoinError::RoomNotFound;
    assert!(err.message().contains("not found"));

    let err = JoinError::RoomFull;
    assert!(err.message().contains("full"));

    let err = JoinError::GameInProgress;
    assert!(err.message().contains("progress"));

    let err = JoinError::DuplicateNickname;
    assert!(err.message().contains("taken"));
}

#[test]
fn test_room_error_serialization() {
    let errors = vec![
        RoomError::NotFound("TEST01".to_string()),
        RoomError::RoomNotFound,
        RoomError::RoomFull,
        RoomError::GameAlreadyStarted,
        RoomError::PlayerNotFoundSimple,
        RoomError::InvalidCode("INVALID".to_string()),
        RoomError::Internal("Something went wrong".to_string()),
    ];

    for error in errors {
        let text = encode_room_error(&error);
        let deserialized = decode_room_error(text.as_str()).expect("Should deserialize");
        assert_eq!(deserialized, error);
    }
}

#[test]
fn test_join_error_serialization() {
    let errors = vec![
        JoinError::RoomNotFound,
        JoinError::RoomFull,
        JoinError::GameInProgress,
        JoinError::DuplicateNickname,
        JoinError::InvalidNickname,
    ];

    for error in errors {
        let text = encode_join_error(&error);
        let deserialized = decode_join_error(text.as_str()).expect("Should deserialize");
        assert_eq!(deserialized, error);
    }
}

#[test]
fn test_room_error_messages() {
    assert_eq!(RoomError::RoomNotFound.message(), "Room not found");
    assert_eq!(RoomError::RoomFull.message(), "Room is full");
    assert_eq!(RoomError::GameAlreadyStarted.message(), "Game already started");
    assert_eq!(RoomError::PlayerNotFoundSimple.message(), "Player not found");
    assert_eq!(
        RoomError::NotEnoughPlayers(RoomId::new()).message(),
        "Not enough players to start (need at least 2)"
    );
    assert_eq!(
        RoomError::InvalidCode("BAD".to_string()).message(),
        "Invalid room code: BAD"
    );
    assert_eq!(
        RoomError::Internal("boom".to_string()).message(),
        "Internal error: boom"
    );
    assert_eq!(
        RoomError::AlreadyStarted(RoomId::new()).message(),
        "Game already started in room"
    );
}

#[test]
fn test_join_error_messages() {
    assert_eq!(JoinError::RoomNotFound.message(), "Room not found");
    assert_eq!(JoinError::RoomFull.message(), "Room is full");
    assert_eq!(JoinError::GameInProgress.message(), "Game already in progress");
    assert_eq!(JoinError::DuplicateNickname.message(), "Nickname already taken");
    assert_eq!(JoinError::InvalidNickname.message(), "Invalid nickname");
}
