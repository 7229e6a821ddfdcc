use ultimatexo::{AIConfig, AppError, DifficultyLevel, EvaluationWeights, ValidationError};

#[test]
fn levels_outside_one_to_ten_are_refused() {
    assert!(matches!(DifficultyLevel::new(0), Err(AppError::Validation(_))));
    assert!(matches!(DifficultyLevel::new(11), Err(AppError::Validation(_))));
    match DifficultyLevel::new(0) {
        Err(AppError::Validation(ValidationError::InvalidFormat { field, expected_format })) => {
            assert_eq!(field, "level");
            assert_eq!(expected_format, "an integer from 1 to 10");
        }
        other => panic!("unexpected {:?}", other),
    }
    assert_eq!(DifficultyLevel::new(1).unwrap().level(), 1);
    assert_eq!(DifficultyLevel::new(10).unwrap().level(), 10);
}

#[test]
fn named_levels() {
    assert_eq!(DifficultyLevel::beginner().level(), 1);
    assert_eq!(DifficultyLevel::intermediate().level(), 4);
    assert_eq!(DifficultyLevel::advanced().level(), 7);
    assert_eq!(DifficultyLevel::default().level(), 4);
}

#[test]
fn weakest_profile() {
    let c = AIConfig::from_level(DifficultyLevel::beginner());
    assert_eq!(c.max_depth, 1);
    assert_eq!(c.max_time_ms, Some(100));
    assert_eq!(c.random_move_chance, 30);
    assert_eq!(c.mistake_chance, 50);
    assert_eq!(c.mistake_pool_size, 5);
    assert!(!c.use_move_ordering);
    assert!(!c.use_killer_moves);
}

#[test]
fn strongest_profile() {
    let c = AIConfig::from_level(DifficultyLevel::new(10).unwrap());
    assert_eq!(c.max_depth, 10);
    assert_eq!(c.max_time_ms, Some(20000));
    assert_eq!(c.random_move_chance, 0);
    assert_eq!(c.mistake_chance, 0);
    assert_eq!(c.mistake_pool_size, 1);
    assert!(c.use_move_ordering);
    assert!(c.use_killer_moves);
    assert_eq!(c.weights.center_board, 120);
    assert_eq!(c.weights.macro_two_in_row, 7000);
    assert_eq!(c.weights.micro_center, 8);
    assert_eq!(c.weights.micro_corner, 4);
    assert_eq!(c.weights.next_board_penalty, 18);
    assert_eq!(c.weights.mobility_bonus, 4);
}

#[test]
fn profile_knobs_move_one_way() {
    let mut prev = AIConfig::from_level(DifficultyLevel::new(1).unwrap());
    for l in 2..=10u8 {
        let c = AIConfig::from_level(DifficultyLevel::new(l).unwrap());
        assert!(c.max_depth > prev.max_depth);
        assert!(c.max_time_ms > prev.max_time_ms);
        assert!(c.random_move_chance <= prev.random_move_chance);
        assert!(c.mistake_chance <= prev.mistake_chance);
        assert!(c.mistake_pool_size <= prev.mistake_pool_size);
        assert!(c.use_move_ordering >= prev.use_move_ordering);
        assert!(c.use_killer_moves >= prev.use_killer_moves);
        assert!(c.weights.fork_bonus > prev.weights.fork_bonus);
        prev = c;
    }
    assert!(AIConfig::from_level(DifficultyLevel::new(4).unwrap()).use_move_ordering);
    assert!(!AIConfig::from_level(DifficultyLevel::new(5).unwrap()).use_killer_moves);
    assert!(AIConfig::from_level(DifficultyLevel::new(6).unwrap()).use_killer_moves);
}

#[test]
fn default_weights_are_level_four() {
    let w = EvaluationWeights::default();
    assert_eq!(w.game_win, 100000);
    assert_eq!(w.game_loss, -100000);
    assert_eq!(w.center_board, 90);
    assert_eq!(w.corner_board, 52);
    assert_eq!(w.edge_board, 38);
    assert_eq!(w.board_in_threat_line, 108);
    assert_eq!(w.micro_one_in_row, 9);
    assert_eq!(AIConfig::default().max_depth, 4);
}
