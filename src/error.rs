use vstd::prelude::*;

verus! {

/// Errors of the game and its rooms.
#[derive(Debug, Clone)]
pub enum AppError {
    Game(GameError),
    Room(RoomError),
    Player(PlayerError),
    Validation(ValidationError),
    SanitizeError(SanitizeError),
    Internal { message: String, error_source: Option<String> },
    BadRequest { message: String },
    Forbidden { message: String },
    NotFound { message: String },
}

#[derive(Debug, Clone, Copy, PartialEq, Eq, Structural)]
pub enum GameError {
    InvalidMove,
    NotStarted,
    NotPlayerTurn,
    Ongoing,
    Ended,
}

#[derive(Debug, Clone, Copy, PartialEq, Eq, Structural)]
pub enum RoomError {
    NotFound,
    Full,
    InvalidPassword,
    Closed,
}

#[derive(Debug, Clone, Copy, PartialEq, Eq, Structural)]
pub enum PlayerError {
    NotFound,
}

#[derive(Debug, Clone)]
pub enum ValidationError {
    InvalidFormat { field: String, expected_format: String },
}

#[derive(Debug, Clone, Copy, PartialEq, Eq, Structural)]
pub enum SanitizeError {
    TooLong { max: usize },
    Empty,
}

/// Builds an error step by step.
pub struct ErrorBuilder {
    error: AppError,
}

impl ErrorBuilder {
    pub closed spec fn error(self) -> AppError {
        self.error
    }

    fn new(error: AppError) -> (r: ErrorBuilder)
        ensures
            r.error() == error,
    {
        ErrorBuilder { error }
    }

    /// Prefixes an internal error's message with `context` and `": "`; other
    /// errors are kept as they are.
    pub fn with_context(self, context: &str) -> (r: ErrorBuilder)
        ensures
            match self.error() {
                AppError::Internal { message, error_source } => r.error() matches AppError::Internal {
                    message: m,
                    error_source: s,
                } && m@ == context@ + ": "@ + message@ && s == error_source,
                _ => r.error() == self.error(),
            },
    {
        match self.error {
            AppError::Internal { message, error_source } => {
                let mut m = String::from_str(context);
                m.append(": ");
                m.append(message.as_str());
                ErrorBuilder { error: AppError::Internal { message: m, error_source } }
            },
            other => ErrorBuilder { error: other },
        }
    }

    pub fn build(self) -> (r: AppError)
        ensures
            r == self.error(),
    {
        self.error
    }
}

/// An error of the `BadRequest` kind whose message is `text`.
pub open spec fn bad_request_with(e: AppError, text: Seq<char>) -> bool {
    e matches AppError::BadRequest { message } && message@ == text
}

/// The error for a level outside 1..=10.
pub open spec fn is_invalid_bot_level(e: AppError) -> bool {
    e matches AppError::Validation(ValidationError::InvalidFormat { field, expected_format })
        && field@ == "level"@ && expected_format@ == "an integer from 1 to 10"@
}

impl AppError {
    pub fn room_not_found() -> (r: AppError)
        ensures
            r == AppError::Room(RoomError::NotFound),
    {
        AppError::Room(RoomError::NotFound)
    }

    pub fn room_full() -> (r: AppError)
        ensures
            r == AppError::Room(RoomError::Full),
    {
        AppError::Room(RoomError::Full)
    }

    pub fn room_closed() -> (r: AppError)
        ensures
            r == AppError::Room(RoomError::Closed),
    {
        AppError::Room(RoomError::Closed)
    }

    pub fn invalid_password() -> (r: AppError)
        ensures
            r == AppError::Room(RoomError::InvalidPassword),
    {
        AppError::Room(RoomError::InvalidPassword)
    }

    pub fn player_not_found() -> (r: AppError)
        ensures
            r == AppError::Player(PlayerError::NotFound),
    {
        AppError::Player(PlayerError::NotFound)
    }

    pub fn invalid_move() -> (r: AppError)
        ensures
            r == AppError::Game(GameError::InvalidMove),
    {
        AppError::Game(GameError::InvalidMove)
    }

    pub fn not_player_turn() -> (r: AppError)
        ensures
            r == AppError::Game(GameError::NotPlayerTurn),
    {
        AppError::Game(GameError::NotPlayerTurn)
    }

    pub fn not_allowed() -> (r: AppError)
        ensures
            r matches AppError::Forbidden { message } && message@ == "Forbidden"@,
    {
        AppError::Forbidden { message: String::from_str("Forbidden") }
    }

    pub fn game_not_started() -> (r: AppError)
        ensures
            r == AppError::Game(GameError::NotStarted),
    {
        AppError::Game(GameError::NotStarted)
    }

    pub fn game_still_ongoing() -> (r: AppError)
        ensures
            r == AppError::Game(GameError::Ongoing),
    {
        AppError::Game(GameError::Ongoing)
    }

    pub fn game_has_ended() -> (r: AppError)
        ensures
            r == AppError::Game(GameError::Ended),
    {
        AppError::Game(GameError::Ended)
    }

    pub fn empty_text_message() -> (r: AppError)
        ensures
            r == AppError::SanitizeError(SanitizeError::Empty),
    {
        AppError::SanitizeError(SanitizeError::Empty)
    }

    pub fn too_long_text_message(max: usize) -> (r: AppError)
        ensures
            r == AppError::SanitizeError(SanitizeError::TooLong { max }),
    {
        AppError::SanitizeError(SanitizeError::TooLong { max })
    }

    pub fn internal_error(message: String) -> (r: AppError)
        ensures
            r matches AppError::Internal { message: m, error_source } && m@ == message@
                && error_source is None,
    {
        AppError::Internal { message, error_source: None }
    }

    pub fn unsupported_room_type() -> (r: AppError)
        ensures
            bad_request_with(r, "Unsupported room type"@),
    {
        AppError::BadRequest { message: String::from_str("Unsupported room type") }
    }

    pub fn reconnect_not_allowed() -> (r: AppError)
        ensures
            bad_request_with(r, "Reconnection not allowed for this room type"@),
    {
        AppError::BadRequest {
            message: String::from_str("Reconnection not allowed for this room type"),
        }
    }

    /// A level outside 1..=10 was asked for.
    pub fn invalid_bot_level() -> (r: AppError)
        ensures
            is_invalid_bot_level(r),
    {
        AppError::Validation(
            ValidationError::InvalidFormat {
                field: String::from_str("level"),
                expected_format: String::from_str("an integer from 1 to 10"),
            },
        )
    }

    pub fn builder(self) -> (r: ErrorBuilder)
        ensures
            r.error() == self,
    {
        ErrorBuilder::new(self)
    }
}

} // verus!
