use vstd::prelude::*;
use crate::error::{is_invalid_bot_level, AppError};

verus! {

/// A skill level from 1 (weak, fast) to 10 (strong, slow).
#[derive(Debug, Clone, Copy, PartialEq, Eq, Structural)]
pub struct DifficultyLevel(u8);

impl DifficultyLevel {
    pub closed spec fn value(self) -> u8 {
        self.0
    }

    pub open spec fn wf(self) -> bool {
        1 <= self.value() <= 10
    }

    /// The level `level`, refused unless it lies in 1..=10.
    pub fn new(level: u8) -> (r: Result<DifficultyLevel, AppError>)
        ensures
            r is Ok <==> 1 <= level <= 10,
            r is Ok ==> r->Ok_0.value() == level,
            r is Err ==> is_invalid_bot_level(r->Err_0),
    {
        if level < 1 || level > 10 {
            Err(AppError::invalid_bot_level())
        } else {
            Ok(DifficultyLevel(level))
        }
    }

    pub fn beginner() -> (r: DifficultyLevel)
        ensures
            r.value() == 1,
    {
        DifficultyLevel(1)
    }

    pub fn intermediate() -> (r: DifficultyLevel)
        ensures
            r.value() == 4,
    {
        DifficultyLevel(4)
    }

    pub fn advanced() -> (r: DifficultyLevel)
        ensures
            r.value() == 7,
    {
        DifficultyLevel(7)
    }

    pub fn level(&self) -> (r: u8)
        ensures
            r == self.value(),
    {
        self.0
    }
}

impl Default for DifficultyLevel {
    fn default() -> (r: DifficultyLevel)
        ensures
            r.value() == 4,
    {
        DifficultyLevel::intermediate()
    }
}

/// Weights of the evaluation features.
#[derive(Debug, Clone, Copy)]
pub struct EvaluationWeights {
    pub game_win: i32,
    pub game_loss: i32,
    pub center_board: i32,
    pub corner_board: i32,
    pub edge_board: i32,
    pub macro_two_in_row: i32,
    pub macro_one_in_row: i32,
    pub macro_block_two: i32,
    pub macro_block_one: i32,
    pub board_in_critical_line: i32,
    pub board_in_threat_line: i32,
    pub micro_two_in_row: i32,
    pub micro_one_in_row: i32,
    pub micro_center: i32,
    pub micro_corner: i32,
    pub fork_bonus: i32,
    pub next_board_penalty: i32,
    pub mobility_bonus: i32,
}

/// Largest weight of a positional feature.
pub const MAX_FEATURE_WEIGHT: i32 = 10000;

/// Largest magnitude of the win and loss scores.
pub const MAX_OUTCOME_WEIGHT: i32 = 1000000;

pub open spec fn feature_ok(w: i32) -> bool {
    0 <= w <= MAX_FEATURE_WEIGHT
}

impl EvaluationWeights {
    /// The weights keep every evaluation within `i32`, and the forced-board
    /// penalty divides.
    pub open spec fn wf(self) -> bool {
        &&& 0 <= self.game_win <= MAX_OUTCOME_WEIGHT
        &&& -MAX_OUTCOME_WEIGHT <= self.game_loss <= 0
        &&& feature_ok(self.center_board)
        &&& feature_ok(self.corner_board)
        &&& feature_ok(self.edge_board)
        &&& feature_ok(self.macro_two_in_row)
        &&& feature_ok(self.macro_one_in_row)
        &&& feature_ok(self.macro_block_two)
        &&& feature_ok(self.macro_block_one)
        &&& feature_ok(self.board_in_critical_line)
        &&& feature_ok(self.board_in_threat_line)
        &&& feature_ok(self.micro_two_in_row)
        &&& feature_ok(self.micro_one_in_row)
        &&& feature_ok(self.micro_center)
        &&& feature_ok(self.micro_corner)
        &&& feature_ok(self.fork_bonus)
        &&& 1 <= self.next_board_penalty <= MAX_FEATURE_WEIGHT
        &&& feature_ok(self.mobility_bonus)
    }

    /// The weights of a level: fixed outcome scores, features that grow with the level.
    pub open spec fn for_level(s: int) -> EvaluationWeights {
        EvaluationWeights {
            game_win: 100000i32,
            game_loss: -100000i32,
            center_board: (70 + s * 5) as i32,
            corner_board: (40 + s * 3) as i32,
            edge_board: (30 + s * 2) as i32,
            macro_two_in_row: (3000 + s * 400) as i32,
            macro_one_in_row: (500 + s * 70) as i32,
            macro_block_two: (2500 + s * 400) as i32,
            macro_block_one: (400 + s * 70) as i32,
            board_in_critical_line: (200 + s * 30) as i32,
            board_in_threat_line: (60 + s * 12) as i32,
            micro_two_in_row: (30 + s * 4) as i32,
            micro_one_in_row: (5 + s) as i32,
            micro_center: (3 + s / 2) as i32,
            micro_corner: (1 + s / 3) as i32,
            fork_bonus: (1000 + s * 150) as i32,
            next_board_penalty: (8 + s) as i32,
            mobility_bonus: (1 + s / 3) as i32,
        }
    }

    pub fn from_level(level: DifficultyLevel) -> (r: EvaluationWeights)
        requires
            level.wf(),
        ensures
            r == EvaluationWeights::for_level(level.value() as int),
            r.wf(),
    {
        let scale = level.0 as i32;
        EvaluationWeights {
            game_win: 100000,
            game_loss: -100000,
            center_board: 70 + scale * 5,
            corner_board: 40 + scale * 3,
            edge_board: 30 + scale * 2,
            macro_two_in_row: 3000 + scale * 400,
            macro_one_in_row: 500 + scale * 70,
            macro_block_two: 2500 + scale * 400,
            macro_block_one: 400 + scale * 70,
            board_in_critical_line: 200 + scale * 30,
            board_in_threat_line: 60 + scale * 12,
            micro_two_in_row: 30 + scale * 4,
            micro_one_in_row: 5 + scale,
            micro_center: 3 + (scale / 2),
            micro_corner: 1 + (scale / 3),
            fork_bonus: 1000 + scale * 150,
            next_board_penalty: 8 + scale,
            mobility_bonus: 1 + (scale / 3),
        }
    }
}

impl Default for EvaluationWeights {
    fn default() -> (r: EvaluationWeights)
        ensures
            r == EvaluationWeights::for_level(4),
            r.wf(),
    {
        EvaluationWeights::from_level(DifficultyLevel::intermediate())
    }
}

/// Search settings. Chances are in percent: a draw of 0..100 below the chance fires.
#[derive(Debug, Clone, Copy)]
pub struct AIConfig {
    pub max_depth: usize,
    /// Time budget of one search in milliseconds; `None` searches to full depth.
    pub max_time_ms: Option<u64>,
    pub weights: EvaluationWeights,
    pub use_move_ordering: bool,
    pub random_move_chance: u32,
    pub mistake_chance: u32,
    pub mistake_pool_size: usize,
    pub use_killer_moves: bool,
}

/// Time budget of each level, in milliseconds.
pub open spec fn time_budget_ms(l: int) -> u64 {
    if l <= 1 {
        100
    } else if l == 2 {
        200
    } else if l == 3 {
        500
    } else if l == 4 {
        1000
    } else if l == 5 {
        2000
    } else if l == 6 {
        3000
    } else if l == 7 {
        5000
    } else if l == 8 {
        8000
    } else if l == 9 {
        12000
    } else {
        20000
    }
}

/// Chance in percent of a fully random move at each level.
pub open spec fn random_chance_of(l: int) -> u32 {
    if l <= 1 {
        30
    } else if l == 2 {
        20
    } else if l == 3 {
        10
    } else if l == 4 {
        5
    } else if l == 5 {
        2
    } else {
        0
    }
}

/// Chance in percent of a deliberate mistake at each level.
pub open spec fn mistake_chance_of(l: int) -> u32 {
    if l <= 1 {
        50
    } else if l == 2 {
        35
    } else if l == 3 {
        20
    } else if l == 4 {
        12
    } else if l == 5 {
        8
    } else if l == 6 {
        5
    } else if l == 7 {
        2
    } else {
        0
    }
}

/// Size of the pool a mistake is drawn from at each level.
pub open spec fn mistake_pool_of(l: int) -> usize {
    if l <= 1 {
        5
    } else if l == 2 {
        4
    } else if l <= 4 {
        3
    } else if l <= 7 {
        2
    } else {
        1
    }
}

/// The whole search profile of level `l`.
pub open spec fn level_profile(l: int) -> AIConfig {
    AIConfig {
        max_depth: l as usize,
        max_time_ms: Some(time_budget_ms(l)),
        weights: EvaluationWeights::for_level(l),
        use_move_ordering: l >= 4,
        random_move_chance: random_chance_of(l),
        mistake_chance: mistake_chance_of(l),
        mistake_pool_size: mistake_pool_of(l),
        use_killer_moves: l >= 6,
    }
}

impl AIConfig {
    pub open spec fn wf(self) -> bool {
        &&& 1 <= self.max_depth <= 64
        &&& self.weights.wf()
        &&& self.random_move_chance <= 100
        &&& self.mistake_chance <= 100
    }

    /// The profile of a level: depth equal to the level, a time budget that
    /// grows with it, chances of weak play that fall to zero, move ordering
    /// from level 4 and killer moves from level 6.
    pub fn from_level(level: DifficultyLevel) -> (r: AIConfig)
        requires
            level.wf(),
        ensures
            r.wf(),
            r == level_profile(level.value() as int),
            r.max_depth == level.value() as usize,
            r.max_time_ms == Some(time_budget_ms(level.value() as int)),
            r.weights == EvaluationWeights::for_level(level.value() as int),
            r.use_move_ordering == (level.value() >= 4),
            r.use_killer_moves == (level.value() >= 6),
            r.random_move_chance == random_chance_of(level.value() as int),
            r.mistake_chance == mistake_chance_of(level.value() as int),
            r.mistake_pool_size == mistake_pool_of(level.value() as int),
    {
        let (depth, time_ms, random_chance, mistake_chance, pool_size, use_ordering, use_killer) =
            match level.0 {
            1 => (1usize, 100u64, 30u32, 50u32, 5usize, false, false),
            2 => (2, 200, 20, 35, 4, false, false),
            3 => (3, 500, 10, 20, 3, false, false),
            4 => (4, 1000, 5, 12, 3, true, false),
            5 => (5, 2000, 2, 8, 2, true, false),
            6 => (6, 3000, 0, 5, 2, true, true),
            7 => (7, 5000, 0, 2, 2, true, true),
            8 => (8, 8000, 0, 0, 1, true, true),
            9 => (9, 12000, 0, 0, 1, true, true),
            _ => (10, 20000, 0, 0, 1, true, true),
        };
        AIConfig {
            max_depth: depth,
            max_time_ms: Some(time_ms),
            weights: EvaluationWeights::from_level(level),
            use_move_ordering: use_ordering,
            random_move_chance: random_chance,
            mistake_chance,
            mistake_pool_size: pool_size,
            use_killer_moves: use_killer,
        }
    }
}

impl Default for AIConfig {
    fn default() -> (r: AIConfig)
        ensures
            r.wf(),
            r.max_depth == 4,
    {
        AIConfig::from_level(DifficultyLevel::intermediate())
    }
}

/// Stronger levels search at least as deep and as long, with weak play at
/// most as likely, and feature weights at least as high.
pub proof fn lemma_profile_monotone(l1: int, l2: int)
    requires
        1 <= l1 <= l2 <= 10,
    ensures
        time_budget_ms(l1) <= time_budget_ms(l2),
        random_chance_of(l1) >= random_chance_of(l2),
        mistake_chance_of(l1) >= mistake_chance_of(l2),
        mistake_pool_of(l1) >= mistake_pool_of(l2),
        EvaluationWeights::for_level(l1).center_board <= EvaluationWeights::for_level(l2).center_board,
        EvaluationWeights::for_level(l1).macro_two_in_row <= EvaluationWeights::for_level(l2).macro_two_in_row,
        EvaluationWeights::for_level(l1).fork_bonus <= EvaluationWeights::for_level(l2).fork_bonus,
        EvaluationWeights::for_level(l1).mobility_bonus <= EvaluationWeights::for_level(l2).mobility_bonus,
{
    assert(l1 / 3 <= l2 / 3) by (nonlinear_arith)
        requires
            l1 <= l2,
            l1 >= 1,
    ;
}

} // verus!
