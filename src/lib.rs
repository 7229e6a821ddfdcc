//! Move search for Ultimate Tic-Tac-Toe, with the game's state transitions.
//!
//! - `board`: markers, statuses, sub-boards, the meta-board and the game state.
//! - `transition`: playing a move and recomputing every status.
//! - `movegen`: the legal moves of a state, in a fixed order.
//! - `difficulty`: the ten skill levels and what each one sets.
//! - `evaluator`: the weighted positional score of a state.
//! - `search`: alpha-beta minimax with move ordering, killer moves and
//!   deliberate weakening.
//! - `error`: the errors of the game and its rooms.

pub mod board;
pub mod difficulty;
pub mod error;
pub mod evaluator;
pub mod movegen;
pub mod search;
pub mod transition;

pub use board::{Board, GameState, MacroBoard, Marker, Move, Status};
pub use difficulty::{AIConfig, DifficultyLevel, EvaluationWeights};
pub use error::{
    AppError, ErrorBuilder, GameError, PlayerError, RoomError, SanitizeError, ValidationError,
};
pub use evaluator::StateEvaluator;
pub use movegen::MoveGenerator;
pub use search::{best_result, KillerMoves, MinimaxAI};
pub use transition::{GameStateManager, MoveError};
