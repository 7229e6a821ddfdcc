use ultimatexo::{AppError, GameError, PlayerError, RoomError, SanitizeError, ValidationError};

#[test]
fn room_and_player_errors() {
    assert!(matches!(AppError::room_not_found(), AppError::Room(RoomError::NotFound)));
    assert!(matches!(AppError::room_full(), AppError::Room(RoomError::Full)));
    assert!(matches!(AppError::room_closed(), AppError::Room(RoomError::Closed)));
    assert!(matches!(AppError::invalid_password(), AppError::Room(RoomError::InvalidPassword)));
    assert!(matches!(AppError::player_not_found(), AppError::Player(PlayerError::NotFound)));
}

#[test]
fn game_errors() {
    assert!(matches!(AppError::invalid_move(), AppError::Game(GameError::InvalidMove)));
    assert!(matches!(AppError::not_player_turn(), AppError::Game(GameError::NotPlayerTurn)));
    assert!(matches!(AppError::game_not_started(), AppError::Game(GameError::NotStarted)));
    assert!(matches!(AppError::game_still_ongoing(), AppError::Game(GameError::Ongoing)));
    assert!(matches!(AppError::game_has_ended(), AppError::Game(GameError::Ended)));
}

#[test]
fn text_message_errors() {
    assert!(matches!(AppError::empty_text_message(), AppError::SanitizeError(SanitizeError::Empty)));
    assert!(matches!(
        AppError::too_long_text_message(10000),
        AppError::SanitizeError(SanitizeError::TooLong { max: 10000 })
    ));
}

#[test]
fn errors_with_messages() {
    match AppError::not_allowed() {
        AppError::Forbidden { message } => assert_eq!(message, "Forbidden"),
        other => panic!("unexpected {:?}", other),
    }
    match AppError::unsupported_room_type() {
        AppError::BadRequest { message } => assert_eq!(message, "Unsupported room type"),
        other => panic!("unexpected {:?}", other),
    }
    match AppError::reconnect_not_allowed() {
        AppError::BadRequest { message } => {
            assert_eq!(message, "Reconnection not allowed for this room type")
        }
        other => panic!("unexpected {:?}", other),
    }
    match AppError::invalid_bot_level() {
        AppError::Validation(ValidationError::InvalidFormat { field, expected_format }) => {
            assert_eq!(field, "level");
            assert_eq!(expected_format, "an integer from 1 to 10");
        }
        other => panic!("unexpected {:?}", other),
    }
}

#[test]
fn context_prefixes_internal_errors_only() {
    let e = AppError::internal_error("disk full".to_string()).builder().with_context("saving").build();
    match e {
        AppError::Internal { message, error_source } => {
            assert_eq!(message, "saving: disk full");
            assert_eq!(error_source, None);
        }
        other => panic!("unexpected {:?}", other),
    }
    let kept = AppError::room_full().builder().with_context("joining").build();
    assert!(matches!(kept, AppError::Room(RoomError::Full)));
}
