use ultimatexo::{GameState, GameStateManager, MacroBoard, Marker, Move, MoveError, Status};

fn started() -> GameState {
    let mut s = GameState::new(Some(1), None);
    s.board.status = Status::InProgress;
    s
}

#[test]
fn new_game_is_empty_and_waiting() {
    let s = GameState::new(None, Some([2, 3]));
    assert_eq!(s.board.status, Status::WaitingForPlayers);
    assert_eq!(s.current_index, 0);
    assert_eq!(s.next_board, None);
    assert_eq!(s.last_move, None);
    assert_eq!(s.score, [2, 3]);
    assert_eq!(s.difficulty, 0);
    for b in 0..9 {
        assert_eq!(s.board.boards[b].status, Status::InProgress);
        for c in 0..9 {
            assert_eq!(s.board.boards[b].cells[c], Marker::Empty);
        }
    }
}

#[test]
fn make_move_writes_mark_and_forces_next_board() {
    let mut s = started();
    assert_eq!(GameStateManager::make_move(&mut s, Move::new(4, 0)), Ok(()));
    assert_eq!(s.board.boards[4].cells[0], Marker::X);
    assert_eq!(s.next_board, Some(0));
    assert_eq!(s.current_index, 1);
    assert_eq!(s.last_move, Some(Move::new(4, 0)));
    assert_eq!(GameStateManager::make_move(&mut s, Move::new(0, 8)), Ok(()));
    assert_eq!(s.board.boards[0].cells[8], Marker::O);
    assert_eq!(s.next_board, Some(8));
    assert_eq!(s.current_index, 0);
}

#[test]
fn make_move_rejects_occupied_cell() {
    let mut s = started();
    s.board.boards[3].cells[3] = Marker::O;
    let before = s;
    assert_eq!(GameStateManager::make_move(&mut s, Move::new(3, 3)), Err(MoveError::InvalidMove));
    assert_eq!(s.board.boards[3].cells[3], Marker::O);
    assert_eq!(s.current_index, before.current_index);
    assert_eq!(s.last_move, before.last_move);
}

#[test]
fn make_move_rejects_wrong_forced_board() {
    let mut s = started();
    s.next_board = Some(2);
    assert_eq!(GameStateManager::make_move(&mut s, Move::new(5, 0)), Err(MoveError::InvalidMove));
    assert_eq!(s.board.boards[5].cells[0], Marker::Empty);
    assert_eq!(s.next_board, Some(2));
    assert_eq!(GameStateManager::make_move(&mut s, Move::new(2, 0)), Ok(()));
}

#[test]
fn make_move_rejects_decided_sub_board() {
    let mut s = started();
    s.board.boards[6].status = Status::Draw;
    assert_eq!(GameStateManager::make_move(&mut s, Move::new(6, 1)), Err(MoveError::InvalidMove));
    assert_eq!(s.board.boards[6].cells[1], Marker::Empty);
}

#[test]
fn make_move_rejects_game_not_in_progress() {
    let mut s = GameState::new(None, None);
    assert_eq!(
        GameStateManager::make_move(&mut s, Move::new(0, 0)),
        Err(MoveError::GameNotInProgress)
    );
    s.board.status = Status::Won(Marker::O);
    assert_eq!(
        GameStateManager::make_move(&mut s, Move::new(0, 0)),
        Err(MoveError::GameNotInProgress)
    );
    assert_eq!(s.board.boards[0].cells[0], Marker::Empty);
}

#[test]
fn make_move_rejects_out_of_range() {
    let mut s = started();
    assert_eq!(GameStateManager::make_move(&mut s, Move::new(9, 0)), Err(MoveError::InvalidMove));
    assert_eq!(GameStateManager::make_move(&mut s, Move::new(0, 9)), Err(MoveError::InvalidMove));
}

#[test]
fn won_sub_board_never_changes() {
    let mut s = started();
    s.board.boards[0].cells = [
        Marker::X, Marker::X, Marker::X,
        Marker::Empty, Marker::O, Marker::Empty,
        Marker::Empty, Marker::O, Marker::Empty,
    ];
    s.board.boards[0].status = Status::Won(Marker::X);
    let before = s.board.boards[0];
    for cell in 0..9 {
        let _ = GameStateManager::make_move(&mut s, Move::new(0, cell));
        assert_eq!(s.board.boards[0].status, Status::Won(Marker::X));
        assert_eq!(s.board.boards[0].cells, before.cells);
    }
}

#[test]
fn completing_a_line_wins_the_sub_board() {
    let mut s = started();
    s.board.boards[1].cells[0] = Marker::X;
    s.board.boards[1].cells[4] = Marker::X;
    s.next_board = Some(1);
    assert_eq!(GameStateManager::make_move(&mut s, Move::new(1, 8)), Ok(()));
    assert_eq!(s.board.boards[1].status, Status::Won(Marker::X));
    assert_eq!(s.board.status, Status::InProgress);
}

#[test]
fn move_into_decided_target_frees_the_next_player() {
    let mut s = started();
    s.board.boards[7].status = Status::Won(Marker::O);
    assert_eq!(GameStateManager::make_move(&mut s, Move::new(0, 7)), Ok(()));
    assert_eq!(s.next_board, None);
}

#[test]
fn sub_board_status_rules() {
    let mut b = MacroBoard::new();
    assert_eq!(GameStateManager::check_board_status(&b), Status::InProgress);
    b.cells[2] = Marker::O;
    b.cells[4] = Marker::O;
    b.cells[6] = Marker::O;
    assert_eq!(GameStateManager::check_board_status(&b), Status::Won(Marker::O));
    let draw = MacroBoard {
        cells: [
            Marker::X, Marker::O, Marker::X,
            Marker::X, Marker::O, Marker::O,
            Marker::O, Marker::X, Marker::X,
        ],
        status: Status::InProgress,
    };
    assert_eq!(GameStateManager::check_board_status(&draw), Status::Draw);
}

#[test]
fn overall_status_from_sub_boards() {
    let mut s = started();
    s.board.boards[0].status = Status::Won(Marker::X);
    s.board.boards[4].status = Status::Won(Marker::X);
    assert_eq!(GameStateManager::check_overall_status(&s.board), Status::InProgress);
    s.board.boards[8].status = Status::Won(Marker::X);
    assert_eq!(GameStateManager::check_overall_status(&s.board), Status::Won(Marker::X));
    let mut t = started();
    for b in 0..9 {
        t.board.boards[b].status = if b % 2 == 0 { Status::Draw } else { Status::Won(Marker::O) };
    }
    assert_eq!(GameStateManager::check_overall_status(&t.board), Status::Draw);
}

#[test]
fn winning_the_meta_line_ends_the_game() {
    let mut s = started();
    s.board.boards[0].status = Status::Won(Marker::X);
    s.board.boards[1].status = Status::Won(Marker::X);
    s.board.boards[2].cells[0] = Marker::X;
    s.board.boards[2].cells[1] = Marker::X;
    s.next_board = Some(2);
    assert_eq!(GameStateManager::make_move(&mut s, Move::new(2, 2)), Ok(()));
    assert_eq!(s.board.status, Status::Won(Marker::X));
    assert!(GameStateManager::is_terminal(&s));
    assert_eq!(GameStateManager::make_move(&mut s, Move::new(3, 3)), Err(MoveError::GameNotInProgress));
}

#[test]
fn toggle_and_opponent() {
    let mut s = started();
    s.toggle_players();
    assert_eq!(s.current_index, 1);
    assert_eq!(s.active_marker(), Marker::O);
    s.toggle_players();
    assert_eq!(s.active_marker(), Marker::X);
    assert_eq!(Marker::X.opponent(), Marker::O);
    assert_eq!(Marker::O.opponent(), Marker::X);
    assert_eq!(Marker::Empty.opponent(), Marker::Empty);
}
