use ultimatexo::{
    AIConfig, DifficultyLevel, EvaluationWeights, GameState, GameStateManager, KillerMoves, Marker,
    MinimaxAI, Move, MoveGenerator, StateEvaluator, Status,
};

fn started() -> GameState {
    let mut s = GameState::new(Some(5), None);
    s.board.status = Status::InProgress;
    s
}

fn quiet_config(depth: usize, ordering: bool, killers: bool) -> AIConfig {
    AIConfig {
        max_depth: depth,
        max_time_ms: None,
        weights: EvaluationWeights::from_level(DifficultyLevel::new(5).unwrap()),
        use_move_ordering: ordering,
        random_move_chance: 0,
        mistake_chance: 0,
        mistake_pool_size: 1,
        use_killer_moves: killers,
    }
}

fn is_legal(s: &GameState, m: Move) -> bool {
    MoveGenerator::generate_moves(s).contains(&m)
}

#[test]
fn search_without_chance_repeats_itself() {
    let mut s = started();
    GameStateManager::make_move(&mut s, Move::new(4, 4)).unwrap();
    GameStateManager::make_move(&mut s, Move::new(4, 0)).unwrap();
    let mut ai = MinimaxAI::new(quiet_config(3, true, true));
    let first = ai.find_best_move(&s, Marker::X);
    let second = ai.find_best_move(&s, Marker::X);
    let fresh = MinimaxAI::new(quiet_config(3, true, true)).find_best_move(&s, Marker::X);
    assert!(first.is_some());
    assert_eq!(first, second);
    assert_eq!(first, fresh);
    assert!(is_legal(&s, first.unwrap()));
    assert!(ai.nodes_searched() > 0);
}

#[test]
fn opening_move_is_legal_and_follows_the_forced_board() {
    let s = started();
    let m = MinimaxAI::new(quiet_config(2, true, false)).find_best_move(&s, Marker::X).unwrap();
    assert!(m.board_index < 9 && m.cell_index < 9);
    assert!(is_legal(&s, m));
    let mut t = started();
    GameStateManager::make_move(&mut t, Move::new(4, 2)).unwrap();
    let reply = MinimaxAI::new(quiet_config(2, false, false)).find_best_move(&t, Marker::O).unwrap();
    assert_eq!(reply.board_index, t.last_move.unwrap().cell_index);
    assert!(is_legal(&t, reply));
}

#[test]
fn search_completes_a_line_in_the_forced_board() {
    let mut s = started();
    s.board.boards[4].cells[0] = Marker::X;
    s.board.boards[4].cells[1] = Marker::X;
    s.board.boards[0].cells[4] = Marker::O;
    s.board.boards[1].cells[4] = Marker::O;
    s.next_board = Some(4);
    for ordering in [false, true] {
        let m = MinimaxAI::new(quiet_config(2, ordering, ordering)).find_best_move(&s, Marker::X);
        assert_eq!(m, Some(Move::new(4, 2)));
    }
}

#[test]
fn no_move_on_an_exhausted_board() {
    let mut s = started();
    for b in 0..9 {
        s.board.boards[b].status = Status::Draw;
    }
    s.board.status = GameStateManager::check_overall_status(&s.board);
    assert_eq!(MinimaxAI::new(quiet_config(2, true, true)).find_best_move(&s, Marker::X), None);
    assert_eq!(MinimaxAI::with_level(1).unwrap().find_random_move(&s), None);
}

#[test]
fn weak_levels_still_play_legal_moves() {
    let mut s = started();
    GameStateManager::make_move(&mut s, Move::new(0, 6)).unwrap();
    for _ in 0..20 {
        let mut ai = MinimaxAI::with_level(1).unwrap();
        let m = ai.find_best_move(&s, Marker::O).unwrap();
        assert_eq!(m.board_index, 6);
        assert!(is_legal(&s, m));
        let r = ai.find_random_move(&s).unwrap();
        assert!(is_legal(&s, r));
    }
}

#[test]
fn random_moves_cover_more_than_one_cell() {
    let s = started();
    let ai = MinimaxAI::with_level(2).unwrap();
    let mut seen = std::collections::HashSet::new();
    for _ in 0..50 {
        seen.insert(ai.find_random_move(&s).unwrap());
    }
    assert!(seen.len() > 1);
}

#[test]
fn spent_time_budget_still_yields_a_legal_move() {
    let mut c = quiet_config(4, true, true);
    c.max_time_ms = Some(0);
    let s = started();
    let m = MinimaxAI::new(c).find_best_move(&s, Marker::X).unwrap();
    assert!(is_legal(&s, m));
}

#[test]
fn engine_levels() {
    assert!(MinimaxAI::with_level(0).is_err());
    assert!(MinimaxAI::with_level(11).is_err());
    assert!(MinimaxAI::with_level(10).is_ok());
}

#[test]
fn killer_table_keeps_two_newest() {
    let mut k = KillerMoves::new();
    assert_eq!(k.get(3), (None, None));
    k.add(3, Move::new(1, 1));
    assert_eq!(k.get(3), (Some(Move::new(1, 1)), None));
    k.add(3, Move::new(2, 2));
    assert_eq!(k.get(3), (Some(Move::new(2, 2)), Some(Move::new(1, 1))));
    k.add(3, Move::new(2, 2));
    assert_eq!(k.get(3), (Some(Move::new(2, 2)), Some(Move::new(1, 1))));
    k.add(3, Move::new(5, 5));
    assert_eq!(k.get(3), (Some(Move::new(5, 5)), Some(Move::new(2, 2))));
    assert!(k.is_killer(3, Move::new(2, 2)));
    assert!(!k.is_killer(3, Move::new(1, 1)));
    assert!(!k.is_killer(2, Move::new(5, 5)));
}

#[test]
fn ordered_moves_put_killers_first_then_best_evaluations() {
    let mut s = started();
    GameStateManager::make_move(&mut s, Move::new(2, 4)).unwrap();
    let weights = EvaluationWeights::from_level(DifficultyLevel::new(5).unwrap());
    let mut e = StateEvaluator::new(weights);
    let mut k = KillerMoves::new();
    k.add(3, Move::new(4, 8));
    let ordered = MoveGenerator::generate_ordered_moves(&s, &mut e, Marker::O, Some(&k), 3);
    assert_eq!(ordered.len(), 9);
    assert_eq!(ordered[0], Move::new(4, 8));
    let scores: Vec<i32> = ordered[1..]
        .iter()
        .map(|m| {
            let mut t = s;
            GameStateManager::apply_move(&mut t, *m, Marker::O);
            e.evaluate(&t, Marker::O)
        })
        .collect();
    for w in scores.windows(2) {
        assert!(w[0] >= w[1]);
    }
    let plain = MoveGenerator::generate_ordered_moves(&s, &mut e, Marker::O, None, 3);
    let mut a = plain.clone();
    let mut b = MoveGenerator::generate_moves(&s);
    a.sort_by_key(|m| m.cell_index);
    b.sort_by_key(|m| m.cell_index);
    assert_eq!(a, b);
}

#[test]
fn best_result_takes_the_first_highest_score() {
    assert_eq!(ultimatexo::best_result(&vec![]), None);
    assert_eq!(ultimatexo::best_result(&vec![None, None]), None);
    let results = vec![
        Some((Move::new(0, 1), 5)),
        None,
        Some((Move::new(3, 4), 9)),
        Some((Move::new(6, 7), 9)),
        Some((Move::new(8, 8), -2)),
    ];
    assert_eq!(ultimatexo::best_result(&results), Some((Move::new(3, 4), 9)));
}

#[test]
fn search_without_budget_is_never_cut_short() {
    let s = started();
    let mut ai = MinimaxAI::new(quiet_config(2, true, true));
    assert!(!ai.was_cut_short());
    ai.find_best_move(&s, Marker::X).unwrap();
    assert!(!ai.was_cut_short());
}

#[test]
fn spent_budget_marks_the_search_cut_short() {
    let mut c = quiet_config(6, false, false);
    c.max_time_ms = Some(0);
    let mut s = started();
    GameStateManager::make_move(&mut s, Move::new(4, 4)).unwrap();
    let mut ai = MinimaxAI::new(c);
    let m = ai.find_best_move(&s, Marker::O).unwrap();
    assert!(is_legal(&s, m));
    assert!(ai.was_cut_short());
}

#[test]
fn level_engines_carry_their_profile() {
    let ai = MinimaxAI::with_level(8).unwrap();
    assert!(!ai.was_cut_short());
    assert_eq!(ai.nodes_searched(), 0);
}

#[test]
fn parallel_share_scores_each_move() {
    let mut s = started();
    GameStateManager::make_move(&mut s, Move::new(4, 4)).unwrap();
    let moves = MoveGenerator::generate_moves(&s);
    let mut ai = MinimaxAI::new(quiet_config(2, false, false));
    let (m, score) = ai.best_of_moves(&s, Marker::O, &moves).unwrap();
    assert!(moves.contains(&m));
    for other in &moves {
        let (_, sc) = ai.best_of_moves(&s, Marker::O, &vec![*other]).unwrap();
        assert!(sc <= score);
    }
    assert_eq!(ai.best_of_moves(&s, Marker::O, &vec![]), None);
}
