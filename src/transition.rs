use vstd::prelude::*;
use crate::board::{
    cells_status, line_at, meta_status, statuses, Board, GameState, MacroBoard, Marker, Move,
    Status, MAX_BOARDS, MAX_CELLS, cells_status_from, meta_status_from, line_complete, cells_full, all_decided, line_cells,
};

verus! {

broadcast use vstd::array::group_array_axioms;

/// Why a move was refused.
#[derive(Debug, Clone, Copy, PartialEq, Eq, Structural)]
pub enum MoveError {
    /// The game as a whole is not in progress.
    GameNotInProgress,
    /// Index out of range, wrong forced sub-board, decided sub-board or occupied cell.
    InvalidMove,
}

/// The state after `p` plays `m`: the mark is written, the sub-board's and the
/// game's statuses are recomputed, the forced sub-board and last move are set,
/// and the turn passes.
pub open spec fn apply_spec(s: GameState, m: Move, p: Marker) -> GameState {
    let b = m.board_index as int;
    let c = m.cell_index as int;
    let cells = vstd::array::spec_array_update(s.board.boards[b].cells, c, p);
    let sub = MacroBoard { cells, status: cells_status(cells@) };
    let boards = vstd::array::spec_array_update(s.board.boards, b, sub);
    GameState {
        board: Board { boards, status: meta_status(statuses(boards)) },
        next_board: if boards[c].status == Status::InProgress {
            Some(m.cell_index)
        } else {
            None
        },
        current_index: (1 - s.current_index) as usize,
        last_move: Some(m),
        ..s
    }
}

/// The move is legal in `s`: game in progress, indices in range, the forced
/// sub-board (if any) respected, the sub-board in progress, the cell empty.
pub open spec fn legal(s: GameState, m: Move) -> bool {
    &&& s.board.status == Status::InProgress
    &&& m.in_range()
    &&& (s.next_board matches Some(f) ==> f == m.board_index)
    &&& s.board.boards[m.board_index as int].status == Status::InProgress
    &&& s.board.boards[m.board_index as int].cells[m.cell_index as int] == Marker::Empty
}

proof fn lemma_in_progress_no_line(cells: Seq<Marker>, l: int)
    requires
        0 <= l <= 8,
        cells_status_from(cells, l) == Status::InProgress,
    ensures
        forall|k: int| l <= k < 8 ==> !line_complete(cells, k),
    decreases 8 - l,
{
    if l < 8 {
        lemma_in_progress_no_line(cells, l + 1);
    }
}

proof fn lemma_won_has_line(cells: Seq<Marker>, l: int, w: Marker)
    requires
        0 <= l <= 8,
        cells_status_from(cells, l) == Status::Won(w),
    ensures
        exists|k: int| l <= k < 8 && line_complete(cells, k) && cells[line_cells(k).0] == w,
    decreases 8 - l,
{
    if l < 8 && !line_complete(cells, l) {
        lemma_won_has_line(cells, l + 1, w);
    }
}

/// A mark written into a sub-board still in progress can win it only for the
/// one who wrote it: every line it completes passes through that cell.
pub proof fn lemma_only_mover_wins(cells: Seq<Marker>, c: int, p: Marker)
    requires
        cells.len() == 9,
        0 <= c < 9,
        p != Marker::Empty,
        cells_status(cells) == Status::InProgress,
    ensures
        cells_status(cells.update(c, p)) matches Status::Won(w) ==> w == p,
{
    let next = cells.update(c, p);
    lemma_in_progress_no_line(cells, 0);
    if cells_status(next) is Won {
        let w = cells_status(next)->Won_0;
        lemma_won_has_line(next, 0, w);
        let k = choose|k: int| 0 <= k < 8 && line_complete(next, k) && next[line_cells(k).0] == w;
        let (a, b, d) = line_cells(k);
        if a != c && b != c && d != c {
            assert(line_complete(cells, k));
        }
    }
}

/// After a move, the forced sub-board, if any, is one still in progress.
pub proof fn lemma_forced_board_in_progress(s: GameState, m: Move, p: Marker)
    requires
        m.in_range(),
    ensures
        apply_spec(s, m, p).next_board matches Some(i) ==> i < 9 && apply_spec(
            s,
            m,
            p,
        ).board.boards[i as int].status == Status::InProgress,
{
}

pub struct GameStateManager;

impl GameStateManager {
    /// `p` plays `m` in `state`, with no legality check (the search only plays
    /// generated moves).
    pub fn apply_move(state: &mut GameState, mov: Move, player: Marker)
        requires
            old(state).wf(),
            mov.in_range(),
        ensures
            final(state).wf(),
            *final(state) == apply_spec(*old(state), mov, player),
    {
        let b = mov.board_index;
        let c = mov.cell_index;
        state.board.boards[b].cells[c] = player;
        let st = Self::check_board_status(&state.board.boards[b]);
        state.board.boards[b].status = st;
        state.last_move = Some(mov);
        state.next_board = if state.board.boards[c].status.is_in_progress() {
            Some(c)
        } else {
            None
        };
        state.toggle_players();
        let overall = Self::check_overall_status(&state.board);
        state.board.status = overall;
        proof {
            let s0 = *old(state);
            let cells = vstd::array::spec_array_update(s0.board.boards[b as int].cells, c as int, player);
            assert(cells@ =~= s0.board.boards[b as int].cells@.update(c as int, player));
            assert(state.board.boards[b as int].cells =~= cells);
            let sub = MacroBoard { cells, status: cells_status(cells@) };
            let boards = vstd::array::spec_array_update(s0.board.boards, b as int, sub);
            assert(boards@ =~= s0.board.boards@.update(b as int, sub));
            assert(state.board.boards =~= boards);
        }
    }

    /// The game as a whole is over (or not running).
    pub fn is_terminal(state: &GameState) -> (r: bool)
        ensures
            r == !state.board.status.in_progress(),
    {
        !state.board.status.is_in_progress()
    }

    /// Status of a sub-board from its cells.
    pub fn check_board_status(board: &MacroBoard) -> (r: Status)
        ensures
            r == cells_status(board.cells@),
    {
        let cells = &board.cells;
        let mut l: usize = 0;
        while l < 8
            invariant
                l <= 8,
                cells@ == board.cells@,
                cells_status(cells@) == cells_status_from(cells@, l as int),
            decreases 8 - l,
        {
            let (a, b, c) = line_at(l);
            if !cells[a].is_empty() && cells[a] == cells[b] && cells[b] == cells[c] {
                assert(line_complete(cells@, l as int));
                assert(cells_status_from(cells@, l as int) == Status::Won(cells@[a as int]));
                return Status::Won(cells[a]);
            }
            l += 1;
        }
        let mut i: usize = 0;
        while i < 9
            invariant
                i <= 9,
                cells@ == board.cells@,
                forall|j: int| 0 <= j < i ==> cells[j] != Marker::Empty,
                cells_status(cells@) == cells_status_from(cells@, 8),
            decreases 9 - i,
        {
            if cells[i].is_empty() {
                assert(!cells_full(cells@));
                return Status::InProgress;
            }
            i += 1;
        }
        Status::Draw
    }

    /// Overall status from the sub-boards' statuses.
    pub fn check_overall_status(board: &Board) -> (r: Status)
        ensures
            r == meta_status(statuses(board.boards)),
    {
        let ghost st = statuses(board.boards);
        let mut l: usize = 0;
        while l < 8
            invariant
                l <= 8,
                st == statuses(board.boards),
                meta_status(st) == meta_status_from(st, l as int),
            decreases 8 - l,
        {
            let (a, b, c) = line_at(l);
            match board.boards[a].status {
                Status::Won(m) => {
                    if board.boards[b].status == Status::Won(m) && board.boards[c].status
                        == Status::Won(m) {
                        return Status::Won(m);
                    }
                },
                _ => {},
            }
            l += 1;
        }
        let mut i: usize = 0;
        while i < 9
            invariant
                i <= 9,
                st == statuses(board.boards),
                forall|j: int| 0 <= j < i ==> st[j] != Status::InProgress,
                meta_status(st) == meta_status_from(st, 8),
            decreases 9 - i,
        {
            if board.boards[i].status.is_in_progress() {
                assert(st[i as int] == Status::InProgress);
                assert(!all_decided(st));
                return Status::InProgress;
            }
            i += 1;
        }
        Status::Draw
    }

    /// The player to move plays `mov`, after every precondition is checked;
    /// a refused move leaves the state untouched.
    pub fn make_move(state: &mut GameState, mov: Move) -> (r: Result<(), MoveError>)
        requires
            old(state).wf(),
        ensures
            final(state).wf(),
            r is Err <==> !legal(*old(state), mov),
            r == Err::<(), MoveError>(MoveError::GameNotInProgress) <==> old(state).board.status
                != Status::InProgress,
            r is Err ==> *final(state) == *old(state),
            r is Ok ==> *final(state) == apply_spec(*old(state), mov, old(state).active()),
            forall|b: int|
                0 <= b < 9 && old(state).board.boards[b].status != Status::InProgress
                    ==> final(state).board.boards[b] == old(state).board.boards[b],
    {
        if !state.board.status.is_in_progress() {
            return Err(MoveError::GameNotInProgress);
        }
        if mov.board_index >= MAX_BOARDS || mov.cell_index >= MAX_CELLS {
            return Err(MoveError::InvalidMove);
        }
        match state.next_board {
            Some(f) => {
                if f != mov.board_index {
                    return Err(MoveError::InvalidMove);
                }
            },
            None => {},
        }
        let sub = &state.board.boards[mov.board_index];
        if !sub.status.is_in_progress() || !sub.cells[mov.cell_index].is_empty() {
            return Err(MoveError::InvalidMove);
        }
        let player = state.active_marker();
        Self::apply_move(state, mov, player);
        Ok(())
    }
}

} // verus!
