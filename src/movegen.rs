use vstd::prelude::*;
use crate::board::{
    all_decided, meta_line_complete, meta_status, meta_status_from, statuses, GameState, MacroBoard,
    Marker, Move, Status, MAX_BOARDS, MAX_CELLS,
};

verus! {

broadcast use vstd::array::group_array_axioms;

/// Moves into the empty cells among the first `n` cells of sub-board `b`, cell ascending.
pub open spec fn cell_moves(b: usize, cells: Seq<Marker>, n: int) -> Seq<Move>
    decreases n,
{
    if n <= 0 {
        Seq::empty()
    } else {
        let prev = cell_moves(b, cells, n - 1);
        if cells[n - 1] == Marker::Empty {
            prev.push(Move { board_index: b, cell_index: (n - 1) as usize })
        } else {
            prev
        }
    }
}

/// Moves into every empty cell of the in-progress sub-boards among the first
/// `n`, sub-board ascending, then cell ascending.
pub open spec fn board_moves(boards: [MacroBoard; 9], n: int) -> Seq<Move>
    decreases n,
{
    if n <= 0 {
        Seq::empty()
    } else {
        board_moves(boards, n - 1) + if boards[n - 1].status == Status::InProgress {
            cell_moves((n - 1) as usize, boards[n - 1].cells@, 9)
        } else {
            Seq::empty()
        }
    }
}

/// The sub-board the player to move is held to: the forced one, if it is in
/// range and still in progress.
pub open spec fn forced_board(s: GameState) -> Option<usize> {
    match s.next_board {
        Some(i) => if i < 9 && s.board.boards[i as int].status == Status::InProgress {
            Some(i)
        } else {
            None
        },
        None => None,
    }
}

/// The legal moves of `s`, in the order in which they are generated.
pub open spec fn gen_moves(s: GameState) -> Seq<Move> {
    match forced_board(s) {
        Some(i) => cell_moves(i, s.board.boards[i as int].cells@, 9),
        None => board_moves(s.board.boards, 9),
    }
}

/// `m1` comes strictly before `m2` (sub-board, then cell).
pub open spec fn move_before(m1: Move, m2: Move) -> bool {
    m1.board_index < m2.board_index || (m1.board_index == m2.board_index && m1.cell_index
        < m2.cell_index)
}

pub open spec fn strictly_ordered(s: Seq<Move>) -> bool {
    forall|i: int, j: int| 0 <= i < j < s.len() ==> move_before(s[i], s[j])
}

proof fn lemma_cell_moves(b: usize, cells: Seq<Marker>, n: int)
    requires
        0 <= n <= 9,
        cells.len() == 9,
    ensures
        cell_moves(b, cells, n).len() <= n,
        strictly_ordered(cell_moves(b, cells, n)),
        forall|k: int|
            0 <= k < cell_moves(b, cells, n).len() ==> {
                let m = #[trigger] cell_moves(b, cells, n)[k];
                m.board_index == b && m.cell_index < n && cells[m.cell_index as int]
                    == Marker::Empty
            },
        forall|c: int|
            0 <= c < n && cells[c] == Marker::Empty ==> cell_moves(b, cells, n).contains(
                Move { board_index: b, cell_index: c as usize },
            ),
    decreases n,
{
    if n > 0 {
        lemma_cell_moves(b, cells, n - 1);
        let prev = cell_moves(b, cells, n - 1);
        if cells[n - 1] == Marker::Empty {
            let cur = cell_moves(b, cells, n);
            assert(cur == prev.push(Move { board_index: b, cell_index: (n - 1) as usize }));
            assert forall|c: int|
                0 <= c < n && cells[c] == Marker::Empty implies cur.contains(
                Move { board_index: b, cell_index: c as usize },
            ) by {
                if c < n - 1 {
                    let k = choose|k: int|
                        0 <= k < prev.len() && prev[k] == Move {
                            board_index: b,
                            cell_index: c as usize,
                        };
                    assert(cur[k] == prev[k]);
                } else {
                    assert(cur[prev.len() as int] == Move {
                        board_index: b,
                        cell_index: c as usize,
                    });
                }
            }
        }
    }
}

proof fn lemma_board_moves(boards: [MacroBoard; 9], n: int)
    requires
        0 <= n <= 9,
    ensures
        strictly_ordered(board_moves(boards, n)),
        board_moves(boards, n).len() <= 9 * n,
        forall|k: int|
            0 <= k < board_moves(boards, n).len() ==> {
                let m = #[trigger] board_moves(boards, n)[k];
                m.board_index < n && m.cell_index < 9 && boards[m.board_index as int].status
                    == Status::InProgress && boards[m.board_index as int].cells[m.cell_index as int]
                    == Marker::Empty
            },
        forall|m: Move|
            m.board_index < n && m.cell_index < 9 && boards[m.board_index as int].status
                == Status::InProgress && boards[m.board_index as int].cells[m.cell_index as int]
                == Marker::Empty ==> board_moves(boards, n).contains(m),
    decreases n,
{
    if n > 0 {
        lemma_board_moves(boards, n - 1);
        let prev = board_moves(boards, n - 1);
        let b = (n - 1) as usize;
        let tail = if boards[n - 1].status == Status::InProgress {
            cell_moves(b, boards[n - 1].cells@, 9)
        } else {
            Seq::empty()
        };
        lemma_cell_moves(b, boards[n - 1].cells@, 9);
        let cur = board_moves(boards, n);
        assert(cur == prev + tail);
        assert forall|k: int| 0 <= k < cur.len() implies {
            let m = #[trigger] cur[k];
            m.board_index < n && m.cell_index < 9 && boards[m.board_index as int].status
                == Status::InProgress && boards[m.board_index as int].cells[m.cell_index as int]
                == Marker::Empty
        } by {
            if k >= prev.len() {
                assert(cur[k] == tail[k - prev.len()]);
            }
        }
        assert forall|i: int, j: int| 0 <= i < j < cur.len() implies move_before(
            cur[i],
            cur[j],
        ) by {
            if j < prev.len() {
            } else if i >= prev.len() {
                assert(cur[i] == tail[i - prev.len()]);
                assert(cur[j] == tail[j - prev.len()]);
            } else {
                assert(cur[i] == prev[i]);
                assert(cur[j] == tail[j - prev.len()]);
            }
        }
        assert forall|m: Move|
            m.board_index < n && m.cell_index < 9 && boards[m.board_index as int].status
                == Status::InProgress && boards[m.board_index as int].cells[m.cell_index as int]
                == Marker::Empty implies cur.contains(m) by {
            if m.board_index < n - 1 {
                assert(prev.contains(m));
                let k = choose|k: int| 0 <= k < prev.len() && prev[k] == m;
                assert(cur[k] == m);
            } else {
                assert(m == Move { board_index: b, cell_index: m.cell_index });
                assert(tail.contains(Move { board_index: b, cell_index: m.cell_index as int as usize }));
                let k = choose|k: int| 0 <= k < tail.len() && tail[k] == m;
                assert(cur[prev.len() + k] == m);
            }
        }
    }
}

/// When the sub-board forced on the player to move is in range and in progress,
/// every generated move lies in it.
pub proof fn lemma_forced_moves_in_forced_board(s: GameState, i: usize)
    requires
        s.next_board == Some(i),
        i < 9,
        s.board.boards[i as int].status == Status::InProgress,
    ensures
        forall|k: int| 0 <= k < gen_moves(s).len() ==> (#[trigger] gen_moves(s)[k]).board_index == i,
{
    lemma_cell_moves(i, s.board.boards[i as int].cells@, 9);
}

/// Without a forced sub-board in progress, the generated moves are exactly the
/// empty cells of the in-progress sub-boards, each once.
pub proof fn lemma_free_moves_cover_empty_cells(s: GameState)
    requires
        forced_board(s).is_none(),
    ensures
        gen_moves(s).no_duplicates(),
        forall|m: Move|
            gen_moves(s).contains(m) <==> (m.in_range() && s.board.boards[m.board_index as int].status
                == Status::InProgress && s.board.boards[m.board_index as int].cells[m.cell_index as int]
                == Marker::Empty),
{
    lemma_board_moves(s.board.boards, 9);
    let g = gen_moves(s);
    assert forall|m: Move| g.contains(m) implies (m.in_range() && s.board.boards[m.board_index as int].status
                == Status::InProgress && s.board.boards[m.board_index as int].cells[m.cell_index as int]
                == Marker::Empty) by {
        let k = choose|k: int| 0 <= k < g.len() && g[k] == m;
        assert(g[k] == m);
    }
    assert forall|i: int, j: int| 0 <= i < g.len() && 0 <= j < g.len() && i != j implies g[i]
        != g[j] by {
        if i < j {
            assert(move_before(g[i], g[j]));
        } else {
            assert(move_before(g[j], g[i]));
        }
    }
}

/// Every generated move is in range.
pub proof fn lemma_gen_moves_in_range(s: GameState)
    ensures
        forall|k: int| 0 <= k < gen_moves(s).len() ==> (#[trigger] gen_moves(s)[k]).in_range(),
{
    lemma_board_moves(s.board.boards, 9);
    match forced_board(s) {
        Some(i) => lemma_cell_moves(i, s.board.boards[i as int].cells@, 9),
        None => {},
    }
}

proof fn lemma_meta_status_decided(st: Seq<Status>, l: int)
    requires
        0 <= l <= 8,
        st.len() == 9,
        all_decided(st),
    ensures
        meta_status_from(st, l) == Status::Draw || meta_status_from(st, l) is Won,
    decreases 8 - l,
{
    if l < 8 && !meta_line_complete(st, l) {
        lemma_meta_status_decided(st, l + 1);
    }
}

/// When every sub-board is decided and the overall status agrees with them,
/// no move is left and the game is won or drawn.
pub proof fn lemma_exhausted_board(s: GameState)
    requires
        forall|b: int| 0 <= b < 9 ==> s.board.boards[b].status != Status::InProgress,
        s.board.status == meta_status(statuses(s.board.boards)),
    ensures
        gen_moves(s).len() == 0,
        s.board.status == Status::Draw || s.board.status is Won,
{
    lemma_board_moves(s.board.boards, 9);
    if gen_moves(s).len() > 0 {
        let m = gen_moves(s)[0];
        assert(s.board.boards[m.board_index as int].status == Status::InProgress);
    }
    lemma_meta_status_decided(statuses(s.board.boards), 0);
}

pub struct MoveGenerator;

impl MoveGenerator {
    /// The legal moves of `state`: the empty cells of the forced sub-board if it
    /// is in progress, else those of every in-progress sub-board.
    pub fn generate_moves(state: &GameState) -> (r: Vec<Move>)
        ensures
            r@ == gen_moves(*state),
            r@.len() <= 81,
    {
        let mut moves: Vec<Move> = Vec::with_capacity(MAX_CELLS);
        proof {
            lemma_board_moves(state.board.boards, 9);
        }
        match state.next_board {
            Some(board_idx) => {
                if board_idx < MAX_BOARDS && state.board.boards[board_idx].status.is_in_progress() {
                    proof {
                        lemma_cell_moves(board_idx, state.board.boards[board_idx as int].cells@, 9);
                    }
                    Self::add_board_moves(board_idx, &state.board.boards[board_idx], &mut moves);
                } else {
                    Self::add_all_moves(&state.board.boards, &mut moves);
                }
            },
            None => {
                Self::add_all_moves(&state.board.boards, &mut moves);
            },
        }
        assert(moves@ =~= gen_moves(*state));
        moves
    }

    /// The number of legal moves of `state`, without building them.
    pub fn count_moves(state: &GameState) -> (r: usize)
        ensures
            r == gen_moves(*state).len(),
            r <= 81,
    {
        proof {
            lemma_board_moves(state.board.boards, 9);
        }
        match state.next_board {
            Some(board_idx) => {
                if board_idx < MAX_BOARDS && state.board.boards[board_idx].status.is_in_progress() {
                    proof {
                        lemma_cell_moves(board_idx, state.board.boards[board_idx as int].cells@, 9);
                    }
                    return Self::count_board_moves(board_idx, &state.board.boards[board_idx]);
                }
            },
            None => {},
        }
        let mut total: usize = 0;
        let mut b: usize = 0;
        while b < MAX_BOARDS
            invariant
                b <= 9,
                total == board_moves(state.board.boards, b as int).len(),
                total <= 9 * b,
            decreases 9 - b,
        {
            proof {
                lemma_board_moves(state.board.boards, b as int + 1);
            }
            if state.board.boards[b].status.is_in_progress() {
                let n = Self::count_board_moves(b, &state.board.boards[b]);
                total = total + n;
            }
            b += 1;
        }
        total
    }

    fn count_board_moves(board_idx: usize, board: &MacroBoard) -> (r: usize)
        ensures
            r == cell_moves(board_idx, board.cells@, 9).len(),
            r <= 9,
    {
        let mut n: usize = 0;
        let mut c: usize = 0;
        while c < MAX_CELLS
            invariant
                c <= 9,
                n == cell_moves(board_idx, board.cells@, c as int).len(),
                n <= c,
            decreases 9 - c,
        {
            if board.cells[c].is_empty() {
                n += 1;
            }
            c += 1;
        }
        n
    }

    fn add_board_moves(board_idx: usize, board: &MacroBoard, moves: &mut Vec<Move>)
        ensures
            final(moves)@ == old(moves)@ + cell_moves(board_idx, board.cells@, 9),
    {
        let ghost start = old(moves)@;
        let mut c: usize = 0;
        while c < MAX_CELLS
            invariant
                c <= 9,
                moves@ == start + cell_moves(board_idx, board.cells@, c as int),
            decreases 9 - c,
        {
            if board.cells[c].is_empty() {
                moves.push(Move::new(board_idx, c));
            }
            c += 1;
            assert(moves@ =~= start + cell_moves(board_idx, board.cells@, c as int));
        }
    }

    fn add_all_moves(boards: &[MacroBoard; 9], moves: &mut Vec<Move>)
        ensures
            final(moves)@ == old(moves)@ + board_moves(*boards, 9),
    {
        let ghost start = old(moves)@;
        let mut b: usize = 0;
        while b < MAX_BOARDS
            invariant
                b <= 9,
                moves@ == start + board_moves(*boards, b as int),
            decreases 9 - b,
        {
            if boards[b].status.is_in_progress() {
                Self::add_board_moves(b, &boards[b], moves);
            }
            b += 1;
            assert(moves@ =~= start + board_moves(*boards, b as int));
        }
    }
}

} // verus!
