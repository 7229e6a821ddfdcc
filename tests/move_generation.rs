use ultimatexo::{GameState, GameStateManager, Marker, Move, MoveGenerator, Status};

fn started() -> GameState {
    let mut s = GameState::new(Some(1), None);
    s.board.status = Status::InProgress;
    s
}

#[test]
fn forced_board_moves_stay_in_it() {
    let mut s = started();
    s.board.boards[4].cells[0] = Marker::X;
    s.board.boards[4].cells[5] = Marker::O;
    s.next_board = Some(4);
    let moves = MoveGenerator::generate_moves(&s);
    let cells: Vec<usize> = moves.iter().map(|m| m.cell_index).collect();
    assert!(moves.iter().all(|m| m.board_index == 4));
    assert_eq!(cells, vec![1, 2, 3, 4, 6, 7, 8]);
    assert_eq!(MoveGenerator::count_moves(&s), 7);
}

#[test]
fn free_moves_cover_every_empty_cell_once() {
    let mut s = started();
    assert_eq!(MoveGenerator::generate_moves(&s).len(), 81);
    s.board.boards[0].status = Status::Won(Marker::O);
    s.board.boards[8].cells[8] = Marker::X;
    s.next_board = Some(0);
    let moves = MoveGenerator::generate_moves(&s);
    assert_eq!(moves.len(), 71);
    assert_eq!(MoveGenerator::count_moves(&s), 71);
    assert_eq!(moves[0], Move::new(1, 0));
    assert_eq!(moves[70], Move::new(8, 7));
    for w in moves.windows(2) {
        let a = (w[0].board_index, w[0].cell_index);
        let b = (w[1].board_index, w[1].cell_index);
        assert!(a < b);
    }
    assert!(!moves.contains(&Move::new(8, 8)));
    assert!(moves.iter().all(|m| m.board_index != 0));
}

#[test]
fn exhausted_board_has_no_moves_and_is_over() {
    let mut s = started();
    for b in 0..9 {
        s.board.boards[b].status = if b == 4 { Status::Won(Marker::X) } else { Status::Draw };
    }
    s.board.status = GameStateManager::check_overall_status(&s.board);
    assert_eq!(MoveGenerator::generate_moves(&s), Vec::<Move>::new());
    assert_eq!(MoveGenerator::count_moves(&s), 0);
    assert_eq!(s.board.status, Status::Draw);
    for b in [0, 8] {
        s.board.boards[b].status = Status::Won(Marker::X);
    }
    s.board.status = GameStateManager::check_overall_status(&s.board);
    assert_eq!(s.board.status, Status::Won(Marker::X));
    assert!(MoveGenerator::generate_moves(&s).is_empty());
}
