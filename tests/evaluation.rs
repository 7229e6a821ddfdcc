use ultimatexo::{DifficultyLevel, EvaluationWeights, GameState, Marker, StateEvaluator, Status};

fn started() -> GameState {
    let mut s = GameState::new(Some(1), None);
    s.board.status = Status::InProgress;
    s
}

fn evaluator(level: u8) -> StateEvaluator {
    StateEvaluator::new(EvaluationWeights::from_level(DifficultyLevel::new(level).unwrap()))
}

#[test]
fn decided_games_score_exactly() {
    let mut e = evaluator(3);
    let mut s = started();
    s.board.boards[2].cells[2] = Marker::O;
    s.board.status = Status::Won(Marker::X);
    assert_eq!(e.evaluate(&s, Marker::X), 100000);
    assert_eq!(e.evaluate(&s, Marker::O), -100000);
    s.board.status = Status::Draw;
    assert_eq!(e.evaluate(&s, Marker::X), 0);
    assert_eq!(e.evaluate(&s, Marker::O), 0);
}

#[test]
fn empty_board_scores_free_choice_and_mobility() {
    let s = started();
    assert_eq!(evaluator(1).evaluate(&s, Marker::X), 181);
    assert_eq!(evaluator(4).evaluate(&s, Marker::X), 262);
    let mut forced = s;
    forced.next_board = Some(4);
    assert_eq!(evaluator(1).evaluate(&forced, Marker::X), 9);
}

#[test]
fn center_mark_scores_by_the_formula() {
    let mut s = started();
    s.board.boards[4].cells[4] = Marker::X;
    s.next_board = Some(4);
    assert_eq!(evaluator(1).evaluate(&s, Marker::X), 31);
    assert_eq!(evaluator(1).evaluate(&s, Marker::O), -15);
}

#[test]
fn two_won_boards_on_a_line_beat_one() {
    let mut one = started();
    one.board.boards[0].status = Status::Won(Marker::X);
    let mut two = one;
    two.board.boards[1].status = Status::Won(Marker::X);
    let mut e = evaluator(5);
    let with_two = e.evaluate(&two, Marker::X);
    let with_one = e.evaluate(&one, Marker::X);
    assert!(with_two > with_one, "{} <= {}", with_two, with_one);
}

#[test]
fn opponent_threat_on_forced_board_costs() {
    let mut free = started();
    free.next_board = Some(3);
    let mut threatened = free;
    threatened.board.boards[3].cells[0] = Marker::O;
    threatened.board.boards[3].cells[1] = Marker::O;
    let mut e = evaluator(5);
    assert!(e.evaluate(&threatened, Marker::X) < e.evaluate(&free, Marker::X));
}
