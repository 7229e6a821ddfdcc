use vstd::prelude::*;

verus! {

/// Number of sub-boards on the meta-board, and of cells in a sub-board.
pub const MAX_BOARDS: usize = 9;

pub const MAX_CELLS: usize = 9;

/// What a cell holds.
#[derive(Debug, Clone, Copy, PartialEq, Eq, Structural)]
pub enum Marker {
    Empty,
    X,
    O,
}

impl Marker {
    /// The other player's marker; `Empty` stays `Empty`.
    pub open spec fn opp(self) -> Marker {
        match self {
            Marker::X => Marker::O,
            Marker::O => Marker::X,
            Marker::Empty => Marker::Empty,
        }
    }

    pub fn opponent(self) -> (r: Marker)
        ensures
            r == self.opp(),
    {
        match self {
            Marker::X => Marker::O,
            Marker::O => Marker::X,
            Marker::Empty => Marker::Empty,
        }
    }

    pub fn is_empty(self) -> (r: bool)
        ensures
            r == (self == Marker::Empty),
    {
        match self {
            Marker::Empty => true,
            _ => false,
        }
    }
}

/// Status of a sub-board, or of the whole game.
#[derive(Debug, Clone, Copy, PartialEq, Eq, Structural)]
pub enum Status {
    WaitingForPlayers,
    InProgress,
    Paused,
    Won(Marker),
    Draw,
}

impl Status {
    pub open spec fn in_progress(self) -> bool {
        self == Status::InProgress
    }

    pub fn is_in_progress(self) -> (r: bool)
        ensures
            r == self.in_progress(),
    {
        match self {
            Status::InProgress => true,
            _ => false,
        }
    }
}

/// One of the nine local 3x3 boards.
#[derive(Debug, Clone, Copy)]
pub struct MacroBoard {
    pub cells: [Marker; 9],
    pub status: Status,
}

impl MacroBoard {
    pub fn new() -> (r: MacroBoard)
        ensures
            r.status == Status::InProgress,
            forall|i: int| 0 <= i < 9 ==> r.cells[i] == Marker::Empty,
    {
        MacroBoard { cells: [Marker::Empty; 9], status: Status::InProgress }
    }
}

/// The meta-board: nine sub-boards and the overall status.
#[derive(Debug, Clone, Copy)]
pub struct Board {
    pub boards: [MacroBoard; 9],
    pub status: Status,
}

impl Board {
    /// A fresh board, waiting for players, every sub-board empty and in progress.
    pub fn new() -> (r: Board)
        ensures
            r.status == Status::WaitingForPlayers,
            forall|b: int| 0 <= b < 9 ==> r.boards[b].status == Status::InProgress,
            forall|b: int, c: int| 0 <= b < 9 && 0 <= c < 9 ==> r.boards[b].cells[c] == Marker::Empty,
    {
        let sub = MacroBoard::new();
        Board { boards: [sub; 9], status: Status::WaitingForPlayers }
    }
}

/// A move: a sub-board and a cell within it.
#[derive(Debug, Clone, Copy, PartialEq, Eq, Hash, Structural)]
pub struct Move {
    pub board_index: usize,
    pub cell_index: usize,
}

impl Move {
    pub fn new(board_index: usize, cell_index: usize) -> (r: Move)
        ensures
            r.board_index == board_index,
            r.cell_index == cell_index,
    {
        Move { board_index, cell_index }
    }

    pub open spec fn in_range(self) -> bool {
        self.board_index < 9 && self.cell_index < 9
    }
}

/// The full state of one game.
#[derive(Debug, Clone, Copy)]
pub struct GameState {
    pub board: Board,
    /// The sub-board the player to move must play in; `None` means any.
    pub next_board: Option<usize>,
    /// Index of the player to move, 0 (X) or 1 (O).
    pub current_index: usize,
    pub last_move: Option<Move>,
    pub score: [usize; 2],
    pub difficulty: u8,
}

impl GameState {
    pub open spec fn wf(self) -> bool {
        self.current_index <= 1
    }

    /// A fresh game: X to move, no forced sub-board, the given score and difficulty.
    pub fn new(difficulty: Option<u8>, score: Option<[usize; 2]>) -> (r: GameState)
        ensures
            r.wf(),
            r.current_index == 0,
            r.next_board.is_none(),
            r.last_move.is_none(),
            r.board.status == Status::WaitingForPlayers,
            forall|b: int| 0 <= b < 9 ==> r.board.boards[b].status == Status::InProgress,
            forall|b: int, c: int|
                0 <= b < 9 && 0 <= c < 9 ==> r.board.boards[b].cells[c] == Marker::Empty,
            r.difficulty == match difficulty {
                Some(d) => d,
                None => 0u8,
            },
            r.score == match score {
                Some(s) => s,
                None => [0usize, 0usize],
            },
    {
        let d = match difficulty {
            Some(d) => d,
            None => 0u8,
        };
        let s = match score {
            Some(s) => s,
            None => [0usize, 0usize],
        };
        GameState {
            board: Board::new(),
            next_board: None,
            current_index: 0,
            last_move: None,
            score: s,
            difficulty: d,
        }
    }

    pub fn toggle_players(&mut self)
        requires
            old(self).wf(),
        ensures
            final(self).wf(),
            *final(self) == (GameState { current_index: (1 - old(self).current_index) as usize, ..*old(self) }),
    {
        self.current_index = 1 - self.current_index;
    }

    /// The marker of the player to move.
    pub open spec fn active(self) -> Marker {
        if self.current_index == 0 {
            Marker::X
        } else {
            Marker::O
        }
    }

    pub fn active_marker(&self) -> (r: Marker)
        ensures
            r == self.active(),
    {
        if self.current_index == 0 {
            Marker::X
        } else {
            Marker::O
        }
    }
}

/// The cells of winning line `l` (rows, columns, two diagonals).
pub open spec fn line_cells(l: int) -> (int, int, int) {
    if l == 0 {
        (0, 1, 2)
    } else if l == 1 {
        (3, 4, 5)
    } else if l == 2 {
        (6, 7, 8)
    } else if l == 3 {
        (0, 3, 6)
    } else if l == 4 {
        (1, 4, 7)
    } else if l == 5 {
        (2, 5, 8)
    } else if l == 6 {
        (0, 4, 8)
    } else {
        (2, 4, 6)
    }
}

pub fn line_at(l: usize) -> (r: (usize, usize, usize))
    requires
        l < 8,
    ensures
        (r.0 as int, r.1 as int, r.2 as int) == line_cells(l as int),
        r.0 < 9 && r.1 < 9 && r.2 < 9,
{
    if l == 0 {
        (0, 1, 2)
    } else if l == 1 {
        (3, 4, 5)
    } else if l == 2 {
        (6, 7, 8)
    } else if l == 3 {
        (0, 3, 6)
    } else if l == 4 {
        (1, 4, 7)
    } else if l == 5 {
        (2, 5, 8)
    } else if l == 6 {
        (0, 4, 8)
    } else {
        (2, 4, 6)
    }
}

/// Line `l` of a sub-board holds three equal non-empty markers.
pub open spec fn line_complete(cells: Seq<Marker>, l: int) -> bool {
    let (a, b, c) = line_cells(l);
    cells[a] != Marker::Empty && cells[a] == cells[b] && cells[b] == cells[c]
}

pub open spec fn cells_full(cells: Seq<Marker>) -> bool {
    forall|i: int| 0 <= i < 9 ==> cells[i] != Marker::Empty
}

/// Status of a sub-board from its cells, scanning lines from `l` on.
pub open spec fn cells_status_from(cells: Seq<Marker>, l: int) -> Status
    decreases 8 - l,
{
    if l >= 8 {
        if cells_full(cells) {
            Status::Draw
        } else {
            Status::InProgress
        }
    } else if line_complete(cells, l) {
        Status::Won(cells[line_cells(l).0])
    } else {
        cells_status_from(cells, l + 1)
    }
}

/// Status of a sub-board from its cells: the first complete line wins,
/// else a full board is drawn, else play goes on.
pub open spec fn cells_status(cells: Seq<Marker>) -> Status {
    cells_status_from(cells, 0)
}

/// The statuses of the nine sub-boards.
pub open spec fn statuses(boards: [MacroBoard; 9]) -> Seq<Status> {
    Seq::new(9, |i: int| boards[i].status)
}

/// Line `l` of the meta-board is three sub-boards won by one marker.
pub open spec fn meta_line_complete(st: Seq<Status>, l: int) -> bool {
    let (a, b, c) = line_cells(l);
    match st[a] {
        Status::Won(m) => st[b] == Status::Won(m) && st[c] == Status::Won(m),
        _ => false,
    }
}

pub open spec fn all_decided(st: Seq<Status>) -> bool {
    forall|i: int| 0 <= i < 9 ==> st[i] != Status::InProgress
}

pub open spec fn meta_status_from(st: Seq<Status>, l: int) -> Status
    decreases 8 - l,
{
    if l >= 8 {
        if all_decided(st) {
            Status::Draw
        } else {
            Status::InProgress
        }
    } else if meta_line_complete(st, l) {
        st[line_cells(l).0]
    } else {
        meta_status_from(st, l + 1)
    }
}

/// Overall status from the sub-boards' statuses, by the same rule as a sub-board.
pub open spec fn meta_status(st: Seq<Status>) -> Status {
    meta_status_from(st, 0)
}

} // verus!
