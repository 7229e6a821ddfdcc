use vstd::prelude::*;
use crate::board::{line_at, line_cells, Board, GameState, MacroBoard, Marker, Status, MAX_BOARDS};
use crate::difficulty::{EvaluationWeights, MAX_FEATURE_WEIGHT};
use crate::movegen::{gen_moves, MoveGenerator};

verus! {

broadcast use vstd::array::group_array_axioms;

pub open spec fn ind(b: bool) -> int {
    if b {
        1
    } else {
        0
    }
}

/// Rust's integer division, which truncates toward zero, for a positive divisor.
pub open spec fn tdiv(a: int, b: int) -> int {
    if a >= 0 {
        a / b
    } else {
        -((-a) / b)
    }
}

// ---- lines of the meta-board ----
pub open spec fn won_count(boards: [MacroBoard; 9], l: int, p: Marker) -> int {
    let (a, b, c) = line_cells(l);
    ind(boards[a].status == Status::Won(p)) + ind(boards[b].status == Status::Won(p)) + ind(
        boards[c].status == Status::Won(p),
    )
}

pub open spec fn other_win(st: Status, p: Marker) -> bool {
    st matches Status::Won(w) && w != p
}

pub open spec fn lost_count(boards: [MacroBoard; 9], l: int, p: Marker) -> int {
    let (a, b, c) = line_cells(l);
    ind(other_win(boards[a].status, p)) + ind(other_win(boards[b].status, p)) + ind(
        other_win(boards[c].status, p),
    )
}

pub open spec fn open_count(boards: [MacroBoard; 9], l: int) -> int {
    let (a, b, c) = line_cells(l);
    ind(boards[a].status == Status::InProgress) + ind(boards[b].status == Status::InProgress)
        + ind(boards[c].status == Status::InProgress)
}

// ---- a sub-board ----
pub open spec fn mine(c: Marker, p: Marker) -> bool {
    c == p
}

pub open spec fn theirs(c: Marker, p: Marker) -> bool {
    c != p && c == p.opp()
}

pub open spec fn blank(c: Marker, p: Marker) -> bool {
    c != p && c != p.opp() && c == Marker::Empty
}

pub open spec fn mine_count(cells: Seq<Marker>, l: int, p: Marker) -> int {
    let (a, b, c) = line_cells(l);
    ind(mine(cells[a], p)) + ind(mine(cells[b], p)) + ind(mine(cells[c], p))
}

pub open spec fn theirs_count(cells: Seq<Marker>, l: int, p: Marker) -> int {
    let (a, b, c) = line_cells(l);
    ind(theirs(cells[a], p)) + ind(theirs(cells[b], p)) + ind(theirs(cells[c], p))
}

pub open spec fn blank_count(cells: Seq<Marker>, l: int, p: Marker) -> int {
    let (a, b, c) = line_cells(l);
    ind(blank(cells[a], p)) + ind(blank(cells[b], p)) + ind(blank(cells[c], p))
}

/// Two or one in a row on an uncontested line of a sub-board, for or against `p`.
#[verifier::opaque]
pub open spec fn micro_line_score(w: EvaluationWeights, cells: Seq<Marker>, l: int, p: Marker) -> int {
    let m = mine_count(cells, l, p);
    let t = theirs_count(cells, l, p);
    let e = blank_count(cells, l, p);
    let gain = if t == 0 && m > 0 {
        if m == 2 && e == 1 {
            w.micro_two_in_row as int
        } else if m == 1 && e == 2 {
            w.micro_one_in_row as int
        } else {
            0
        }
    } else {
        0
    };
    let loss = if m == 0 && t > 0 {
        if t == 2 && e == 1 {
            w.micro_two_in_row as int
        } else if t == 1 && e == 2 {
            w.micro_one_in_row as int
        } else {
            0
        }
    } else {
        0
    };
    gain - loss
}

pub open spec fn micro_lines(w: EvaluationWeights, cells: Seq<Marker>, p: Marker, n: int) -> int
    decreases n,
{
    if n <= 0 {
        0
    } else {
        micro_lines(w, cells, p, n - 1) + micro_line_score(w, cells, n - 1, p)
    }
}

pub open spec fn cell_term(c: Marker, p: Marker, weight: i32) -> int {
    if c == p {
        weight as int
    } else if c == p.opp() {
        -(weight as int)
    } else {
        0
    }
}

/// Local score of a sub-board for `p`: its lines, then center and corner occupancy.
pub open spec fn micro_score(w: EvaluationWeights, cells: Seq<Marker>, p: Marker) -> int {
    micro_lines(w, cells, p, 8) + cell_term(cells[4], p, w.micro_center) + cell_term(
        cells[0],
        p,
        w.micro_corner,
    ) + cell_term(cells[2], p, w.micro_corner) + cell_term(cells[6], p, w.micro_corner)
        + cell_term(cells[8], p, w.micro_corner)
}

// ---- the meta-board ----
pub open spec fn in_line(pos: int, l: int) -> bool {
    let (a, b, c) = line_cells(l);
    pos == a || pos == b || pos == c
}

/// Change in worth of the in-progress sub-boards of line `l` where only one side
/// owns any of it: a bonus when that side is `p`, a penalty when it is another.
pub open spec fn line_bonus(w: EvaluationWeights, boards: [MacroBoard; 9], l: int, p: Marker) -> int {
    let a = won_count(boards, l, p);
    let o = lost_count(boards, l, p);
    (if a > 0 && o == 0 {
        if a == 2 {
            w.board_in_critical_line as int
        } else {
            w.board_in_threat_line as int
        }
    } else {
        0
    }) - (if o > 0 && a == 0 {
        if o == 2 {
            w.board_in_critical_line as int
        } else {
            w.board_in_threat_line as int / 2
        }
    } else {
        0
    })
}

pub open spec fn bonus_sum(w: EvaluationWeights, boards: [MacroBoard; 9], p: Marker, pos: int, n: int) -> int
    decreases n,
{
    if n <= 0 {
        0
    } else {
        bonus_sum(w, boards, p, pos, n - 1) + if in_line(pos, n - 1) && boards[pos].status
            == Status::InProgress {
            line_bonus(w, boards, n - 1, p)
        } else {
            0
        }
    }
}

/// Positional worth of a sub-board: center over corner over edge.
pub open spec fn base_value(w: EvaluationWeights, pos: int) -> int {
    if pos == 4 {
        w.center_board as int
    } else if pos % 2 == 0 {
        w.corner_board as int
    } else {
        w.edge_board as int
    }
}

pub open spec fn board_value(w: EvaluationWeights, boards: [MacroBoard; 9], p: Marker, pos: int) -> int {
    bonus_sum(w, boards, p, pos, 8) + base_value(w, pos)
}

/// What sub-board `i` adds: its worth if won, minus it if lost, its scaled
/// local score if in progress.
pub open spec fn board_term(w: EvaluationWeights, boards: [MacroBoard; 9], p: Marker, i: int) -> int {
    let v = board_value(w, boards, p, i);
    match boards[i].status {
        Status::Won(x) => if x == p {
            v
        } else if x == p.opp() {
            -v
        } else {
            0
        },
        Status::InProgress => tdiv(micro_score(w, boards[i].cells@, p) * v, 100),
        _ => 0,
    }
}

pub open spec fn boards_sum(w: EvaluationWeights, boards: [MacroBoard; 9], p: Marker, n: int) -> int
    decreases n,
{
    if n <= 0 {
        0
    } else {
        boards_sum(w, boards, p, n - 1) + board_term(w, boards, p, n - 1)
    }
}

/// Meta-lines with two or one sub-boards owned by one side and none by the other.
pub open spec fn macro_line_score(w: EvaluationWeights, boards: [MacroBoard; 9], l: int, p: Marker) -> int {
    let a = won_count(boards, l, p);
    let o = lost_count(boards, l, p);
    let i = open_count(boards, l);
    let gain = if o == 0 && a > 0 {
        if a == 2 && i == 1 {
            w.macro_two_in_row as int
        } else if a == 1 {
            w.macro_one_in_row as int
        } else {
            0
        }
    } else {
        0
    };
    let loss = if a == 0 && o > 0 {
        if o == 2 && i == 1 {
            w.macro_block_two as int
        } else if o == 1 {
            w.macro_block_one as int
        } else {
            0
        }
    } else {
        0
    };
    gain - loss
}

pub open spec fn macro_lines(w: EvaluationWeights, boards: [MacroBoard; 9], p: Marker, n: int) -> int
    decreases n,
{
    if n <= 0 {
        0
    } else {
        macro_lines(w, boards, p, n - 1) + macro_line_score(w, boards, n - 1, p)
    }
}

/// Line `l` is one sub-board away from a meta-win for `p`.
pub open spec fn threat_for(boards: [MacroBoard; 9], l: int, p: Marker) -> bool {
    won_count(boards, l, p) == 2 && lost_count(boards, l, p) == 0 && open_count(boards, l) == 1
}

/// Line `l` is one sub-board away from a meta-win against `p`.
pub open spec fn threat_against(boards: [MacroBoard; 9], l: int, p: Marker) -> bool {
    lost_count(boards, l, p) == 2 && won_count(boards, l, p) == 0 && open_count(boards, l) == 1
}

pub open spec fn threats_for(boards: [MacroBoard; 9], p: Marker, n: int) -> int
    decreases n,
{
    if n <= 0 {
        0
    } else {
        threats_for(boards, p, n - 1) + ind(threat_for(boards, n - 1, p))
    }
}

pub open spec fn threats_against(boards: [MacroBoard; 9], p: Marker, n: int) -> int
    decreases n,
{
    if n <= 0 {
        0
    } else {
        threats_against(boards, p, n - 1) + ind(threat_against(boards, n - 1, p))
    }
}

/// A bonus per threat when `p` has a fork (two threats or more), a penalty likewise.
pub open spec fn fork_score(w: EvaluationWeights, boards: [MacroBoard; 9], p: Marker) -> int {
    let mine = threats_for(boards, p, 8);
    let theirs = threats_against(boards, p, 8);
    (if mine >= 2 {
        w.fork_bonus as int * mine
    } else {
        0
    }) - (if theirs >= 2 {
        w.fork_bonus as int * theirs
    } else {
        0
    })
}

/// Free choice for the opponent is worth a flat bonus; otherwise the penalty
/// grows with the opponent's local score on the forced sub-board.
pub open spec fn next_board_term(w: EvaluationWeights, boards: [MacroBoard; 9], nb: int, opponent: Marker) -> int {
    if nb >= 9 || boards[nb].status != Status::InProgress {
        100
    } else {
        tdiv(-micro_score(w, boards[nb].cells@, opponent), w.next_board_penalty as int)
    }
}

/// The heuristic score of a state that is not decided.
pub open spec fn heuristic(w: EvaluationWeights, s: GameState, p: Marker) -> int {
    let boards = s.board.boards;
    boards_sum(w, boards, p, 9) + macro_lines(w, boards, p, 8) + fork_score(w, boards, p) + (
    match s.next_board {
        Some(nb) => next_board_term(w, boards, nb as int, p.opp()),
        None => 100,
    }) + gen_moves(s).len() * w.mobility_bonus
}

/// The score of `s` for `p`: the win or loss score, 0 for a draw, else the heuristic.
pub open spec fn eval_spec(w: EvaluationWeights, s: GameState, p: Marker) -> int {
    match s.board.status {
        Status::Won(x) => if x == p {
            w.game_win as int
        } else if x == p.opp() {
            w.game_loss as int
        } else {
            heuristic(w, s, p)
        },
        Status::Draw => 0,
        _ => heuristic(w, s, p),
    }
}

fn ind_exec(b: bool) -> (r: i64)
    ensures
        r == ind(b),
{
    if b {
        1
    } else {
        0
    }
}

fn div_trunc(a: i64, b: i64) -> (r: i64)
    requires
        b > 0,
        a > i64::MIN,
    ensures
        r == tdiv(a as int, b as int),
{
    if a >= 0 {
        a / b
    } else {
        -((-a) / b)
    }
}

fn cell_term_exec(c: Marker, p: Marker, weight: i32) -> (r: i64)
    requires
        0 <= weight <= MAX_FEATURE_WEIGHT,
    ensures
        r == cell_term(c, p, weight),
        -10000 <= r <= 10000,
{
    if c == p {
        weight as i64
    } else if c == p.opponent() {
        -(weight as i64)
    } else {
        0
    }
}

/// Scores game states from one player's side.
pub struct StateEvaluator {
    weights: EvaluationWeights,
}

impl StateEvaluator {
    pub closed spec fn weights(self) -> EvaluationWeights {
        self.weights
    }

    pub fn new(weights: EvaluationWeights) -> (r: StateEvaluator)
        ensures
            r.weights() == weights,
    {
        StateEvaluator { weights }
    }

    /// The score of `state` for `ai_player`: exactly the win score, the loss
    /// score or 0 when the game is won by `ai_player`, won by the opponent or
    /// drawn, else the weighted heuristic.
    pub fn evaluate(&mut self, state: &GameState, ai_player: Marker) -> (r: i32)
        requires
            old(self).weights().wf(),
        ensures
            *final(self) == *old(self),
            r as int == eval_spec(old(self).weights(), *state, ai_player),
            state.board.status == Status::Won(ai_player) ==> r == old(self).weights().game_win,
            state.board.status == Status::Won(ai_player.opp()) && ai_player != Marker::Empty ==> r
                == old(self).weights().game_loss,
            state.board.status == Status::Draw ==> r == 0,
            -HEURISTIC_BOUND <= r <= HEURISTIC_BOUND,
    {
        let opponent = ai_player.opponent();
        match state.board.status {
            Status::Won(winner) => {
                if winner == ai_player {
                    return self.weights.game_win;
                } else if winner == opponent {
                    return self.weights.game_loss;
                }
            },
            Status::Draw => {
                return 0;
            },
            _ => {},
        }
        let mut score: i64 = 0;
        let values = self.calculate_board_values(&state.board, ai_player);
        let mut i: usize = 0;
        while i < MAX_BOARDS
            invariant
                i <= 9,
                self.weights.wf(),
                forall|k: int|
                    0 <= k < 9 ==> values[k] == board_value(self.weights, state.board.boards, ai_player, k)
                        && -VALUE_BOUND <= values[k] <= VALUE_BOUND,
                score == boards_sum(self.weights, state.board.boards, ai_player, i as int),
                -(i as int) * TERM_BOUND <= score <= (i as int) * TERM_BOUND,
            decreases 9 - i,
        {
            let v = values[i];
            let t = self.board_term_exec(&state.board, i, ai_player, v);
            score = score + t;
            i += 1;
        }
        let macro_score = self.evaluate_macro_position(&state.board, ai_player);
        let forks = self.evaluate_forks(&state.board, ai_player);
        score = score + macro_score + forks;
        match state.next_board {
            Some(next_board) => {
                let nb = self.evaluate_next_board(&state.board, next_board, opponent);
                score = score + nb;
            },
            None => {
                score = score + 100;
            },
        }
        let move_count = MoveGenerator::count_moves(state);
        let mobility = self.weights.mobility_bonus as i64;
        proof {
            assert(0 <= move_count * mobility <= 81 * MAX_FEATURE_WEIGHT) by (nonlinear_arith)
                requires
                    0 <= move_count <= 81,
                    0 <= mobility <= MAX_FEATURE_WEIGHT,
            ;
        }
        score = score + (move_count as i64) * mobility;
        score as i32
    }

    /// The worth of each sub-board for `ai_player`.
    fn calculate_board_values(&self, board: &Board, ai_player: Marker) -> (r: [i64; 9])
        requires
            self.weights.wf(),
        ensures
            forall|k: int|
                0 <= k < 9 ==> r[k] == board_value(self.weights, board.boards, ai_player, k) && -VALUE_BOUND
                    <= r[k] <= VALUE_BOUND,
    {
        let w = &self.weights;
        let mut values: [i64; 9] = [0i64; 9];
        let mut l: usize = 0;
        while l < 8
            invariant
                l <= 8,
                w.wf(),
                w == self.weights,
                forall|k: int|
                    0 <= k < 9 ==> values[k] == bonus_sum(*w, board.boards, ai_player, k, l as int)
                        && -(l as int) * (2 * MAX_FEATURE_WEIGHT) <= values[k] <= (l as int) * (2 * MAX_FEATURE_WEIGHT),
            decreases 8 - l,
        {
            let (ai_won, opp_won, _) = self.count_line_status(board, l, ai_player);
            let (a, b, c) = line_at(l);
            let mut bonus: i64 = 0;
            if ai_won > 0 && opp_won == 0 {
                bonus = if ai_won == 2 {
                    w.board_in_critical_line as i64
                } else {
                    w.board_in_threat_line as i64
                };
            }
            if opp_won > 0 && ai_won == 0 {
                bonus = bonus - if opp_won == 2 {
                    w.board_in_critical_line as i64
                } else {
                    (w.board_in_threat_line / 2) as i64
                };
            }
            assert(bonus == line_bonus(*w, board.boards, l as int, ai_player));
            let ghost prev = values;
            if board.boards[a].status.is_in_progress() {
                values[a] = values[a] + bonus;
            }
            if board.boards[b].status.is_in_progress() {
                values[b] = values[b] + bonus;
            }
            if board.boards[c].status.is_in_progress() {
                values[c] = values[c] + bonus;
            }
            assert forall|k: int| 0 <= k < 9 implies values[k] == bonus_sum(
                *w,
                board.boards,
                ai_player,
                k,
                l as int + 1,
            ) && -(l as int + 1) * (2 * MAX_FEATURE_WEIGHT) <= values[k] <= (l as int + 1) * (2 * MAX_FEATURE_WEIGHT) by {
                assert(in_line(k, l as int) == (k == a || k == b || k == c));
            }
            l += 1;
        }
        let mut i: usize = 0;
        while i < MAX_BOARDS
            invariant
                i <= 9,
                w.wf(),
                w == self.weights,
                forall|k: int|
                    0 <= k < i ==> values[k] == board_value(*w, board.boards, ai_player, k) && -VALUE_BOUND
                        <= values[k] <= VALUE_BOUND,
                forall|k: int|
                    i <= k < 9 ==> values[k] == bonus_sum(*w, board.boards, ai_player, k, 8) && -8 * (2 * MAX_FEATURE_WEIGHT)
                        <= values[k] <= 8 * (2 * MAX_FEATURE_WEIGHT),
            decreases 9 - i,
        {
            let base = if i == 4 {
                w.center_board
            } else if i % 2 == 0 {
                w.corner_board
            } else {
                w.edge_board
            };
            values[i] = values[i] + base as i64;
            i += 1;
        }
        values
    }

    /// What sub-board `i`, of worth `v`, adds to the score.
    fn board_term_exec(&self, board: &Board, i: usize, ai_player: Marker, v: i64) -> (r: i64)
        requires
            self.weights.wf(),
            i < 9,
            v == board_value(self.weights, board.boards, ai_player, i as int),
            -VALUE_BOUND <= v <= VALUE_BOUND,
        ensures
            r == board_term(self.weights, board.boards, ai_player, i as int),
            -TERM_BOUND <= r <= TERM_BOUND,
    {
        match board.boards[i].status {
            Status::Won(winner) => {
                if winner == ai_player {
                    v
                } else if winner == ai_player.opponent() {
                    -v
                } else {
                    0
                }
            },
            Status::InProgress => {
                let micro = self.evaluate_micro_board(&board.boards[i], ai_player);
                proof {
                    lemma_product_bound(micro as int, v as int);
                    lemma_tdiv_bound(micro as int * v as int, 100, (MICRO_BOUND * VALUE_BOUND) as int);
                }
                div_trunc(micro * v, 100)
            },
            _ => 0,
        }
    }

    /// Score of line `l` of a sub-board for `ai_player`.
    fn micro_line_exec(&self, board: &MacroBoard, l: usize, ai_player: Marker) -> (r: i64)
        requires
            self.weights.wf(),
            l < 8,
        ensures
            r == micro_line_score(self.weights, board.cells@, l as int, ai_player),
            -MAX_FEATURE_WEIGHT <= r <= MAX_FEATURE_WEIGHT,
    {
        let w = &self.weights;
        let (ai_count, opp_count, empty_count) = self.count_micro_line(board, l, ai_player);
        proof {
            reveal(micro_line_score);
        }
        if opp_count == 0 && ai_count > 0 {
            if ai_count == 2 && empty_count == 1 {
                w.micro_two_in_row as i64
            } else if ai_count == 1 && empty_count == 2 {
                w.micro_one_in_row as i64
            } else {
                0
            }
        } else if ai_count == 0 && opp_count > 0 {
            if opp_count == 2 && empty_count == 1 {
                -(w.micro_two_in_row as i64)
            } else if opp_count == 1 && empty_count == 2 {
                -(w.micro_one_in_row as i64)
            } else {
                0
            }
        } else {
            0
        }
    }

    /// Meta-lines owned by one side: bonuses for `ai_player`'s, penalties for the opponent's.
    fn evaluate_macro_position(&self, board: &Board, ai_player: Marker) -> (r: i64)
        requires
            self.weights.wf(),
        ensures
            r == macro_lines(self.weights, board.boards, ai_player, 8),
            -8 * MAX_FEATURE_WEIGHT <= r <= 8 * MAX_FEATURE_WEIGHT,
    {
        let w = &self.weights;
        let mut score: i64 = 0;
        let mut l: usize = 0;
        while l < 8
            invariant
                l <= 8,
                w.wf(),
                w == self.weights,
                score == macro_lines(*w, board.boards, ai_player, l as int),
                -(l as int) * 10000 <= score <= (l as int) * 10000,
            decreases 8 - l,
        {
            let (ai_won, opp_won, in_progress) = self.count_line_status(board, l, ai_player);
            if opp_won == 0 && ai_won > 0 {
                if ai_won == 2 && in_progress == 1 {
                    score = score + w.macro_two_in_row as i64;
                } else if ai_won == 1 {
                    score = score + w.macro_one_in_row as i64;
                }
            }
            if ai_won == 0 && opp_won > 0 {
                if opp_won == 2 && in_progress == 1 {
                    score = score - w.macro_block_two as i64;
                } else if opp_won == 1 {
                    score = score - w.macro_block_one as i64;
                }
            }
            l += 1;
        }
        score
    }

    /// Forks: two or more meta-lines one sub-board from a win.
    fn evaluate_forks(&self, board: &Board, ai_player: Marker) -> (r: i64)
        requires
            self.weights.wf(),
        ensures
            r == fork_score(self.weights, board.boards, ai_player),
            -8 * MAX_FEATURE_WEIGHT <= r <= 8 * MAX_FEATURE_WEIGHT,
    {
        let mut ai_threats: i64 = 0;
        let mut opp_threats: i64 = 0;
        let mut l: usize = 0;
        while l < 8
            invariant
                l <= 8,
                ai_threats == threats_for(board.boards, ai_player, l as int),
                opp_threats == threats_against(board.boards, ai_player, l as int),
                0 <= ai_threats <= l,
                0 <= opp_threats <= l,
            decreases 8 - l,
        {
            let (ai_won, opp_won, available) = self.count_line_status(board, l, ai_player);
            if ai_won == 2 && opp_won == 0 && available == 1 {
                ai_threats += 1;
            }
            if opp_won == 2 && ai_won == 0 && available == 1 {
                opp_threats += 1;
            }
            l += 1;
        }
        let fork = self.weights.fork_bonus as i64;
        proof {
            assert(0 <= fork * ai_threats <= 8 * MAX_FEATURE_WEIGHT) by (nonlinear_arith)
                requires
                    0 <= fork <= MAX_FEATURE_WEIGHT,
                    0 <= ai_threats <= 8,
            ;
            assert(0 <= fork * opp_threats <= 8 * MAX_FEATURE_WEIGHT) by (nonlinear_arith)
                requires
                    0 <= fork <= MAX_FEATURE_WEIGHT,
                    0 <= opp_threats <= 8,
            ;
        }
        let fork_bonus = if ai_threats >= 2 {
            fork * ai_threats
        } else {
            0
        };
        let fork_penalty = if opp_threats >= 2 {
            fork * opp_threats
        } else {
            0
        };
        fork_bonus - fork_penalty
    }

    /// The term for the sub-board the opponent is sent to.
    fn evaluate_next_board(&self, board: &Board, next_board: usize, opponent: Marker) -> (r: i64)
        requires
            self.weights.wf(),
        ensures
            r == next_board_term(self.weights, board.boards, next_board as int, opponent),
            -MICRO_BOUND <= r <= MICRO_BOUND,
    {
        if next_board >= MAX_BOARDS || !board.boards[next_board].status.is_in_progress() {
            return 100;
        }
        let threat = self.evaluate_micro_board(&board.boards[next_board], opponent);
        let r = div_trunc(-threat, self.weights.next_board_penalty as i64);
        proof {
            lemma_tdiv_bound(-threat as int, self.weights.next_board_penalty as int, MICRO_BOUND as int);
        }
        r
    }

    /// Local score of one sub-board for `ai_player`.
    fn evaluate_micro_board(&self, board: &MacroBoard, ai_player: Marker) -> (r: i64)
        requires
            self.weights.wf(),
        ensures
            r == micro_score(self.weights, board.cells@, ai_player),
            -MICRO_BOUND <= r <= MICRO_BOUND,
    {
        let w = &self.weights;
        let mut score: i64 = 0;
        let mut l: usize = 0;
        while l < 8
            invariant
                l <= 8,
                w.wf(),
                w == self.weights,
                score == micro_lines(*w, board.cells@, ai_player, l as int),
                -(l as int) * 10000 <= score <= (l as int) * 10000,
            decreases 8 - l,
        {
            let line_score = self.micro_line_exec(board, l, ai_player);
            score = score + line_score;
            l += 1;
        }
        let t4 = cell_term_exec(board.cells[4], ai_player, w.micro_center);
        let t0 = cell_term_exec(board.cells[0], ai_player, w.micro_corner);
        let t2 = cell_term_exec(board.cells[2], ai_player, w.micro_corner);
        let t6 = cell_term_exec(board.cells[6], ai_player, w.micro_corner);
        let t8 = cell_term_exec(board.cells[8], ai_player, w.micro_corner);
        score + t4 + t0 + t2 + t6 + t8
    }

    /// Sub-boards of meta-line `l` won by `ai_player`, won by another, in progress.
    fn count_line_status(&self, board: &Board, l: usize, ai_player: Marker) -> (r: (i64, i64, i64))
        requires
            l < 8,
        ensures
            r.0 == won_count(board.boards, l as int, ai_player),
            r.1 == lost_count(board.boards, l as int, ai_player),
            r.2 == open_count(board.boards, l as int),
            0 <= r.0 <= 3 && 0 <= r.1 <= 3 && 0 <= r.2 <= 3,
    {
        let (a, b, c) = line_at(l);
        let sa = board.boards[a].status;
        let sb = board.boards[b].status;
        let sc = board.boards[c].status;
        let won = ind_exec(sa == Status::Won(ai_player)) + ind_exec(sb == Status::Won(ai_player))
            + ind_exec(sc == Status::Won(ai_player));
        let lost = ind_exec(Self::is_other_win(sa, ai_player)) + ind_exec(
            Self::is_other_win(sb, ai_player),
        ) + ind_exec(Self::is_other_win(sc, ai_player));
        let open = ind_exec(sa.is_in_progress()) + ind_exec(sb.is_in_progress()) + ind_exec(
            sc.is_in_progress(),
        );
        (won, lost, open)
    }

    fn is_other_win(st: Status, p: Marker) -> (r: bool)
        ensures
            r == other_win(st, p),
    {
        match st {
            Status::Won(w) => w != p,
            _ => false,
        }
    }

    /// Cells of line `l` held by `ai_player`, by the opponent, and empty.
    fn count_micro_line(&self, board: &MacroBoard, l: usize, ai_player: Marker) -> (r: (i64, i64, i64))
        requires
            l < 8,
        ensures
            r.0 == mine_count(board.cells@, l as int, ai_player),
            r.1 == theirs_count(board.cells@, l as int, ai_player),
            r.2 == blank_count(board.cells@, l as int, ai_player),
            0 <= r.0 <= 3 && 0 <= r.1 <= 3 && 0 <= r.2 <= 3,
    {
        let opponent = ai_player.opponent();
        let (a, b, c) = line_at(l);
        let ca = board.cells[a];
        let cb = board.cells[b];
        let cc = board.cells[c];
        let m = ind_exec(ca == ai_player) + ind_exec(cb == ai_player) + ind_exec(cc == ai_player);
        let t = ind_exec(ca != ai_player && ca == opponent) + ind_exec(
            cb != ai_player && cb == opponent,
        ) + ind_exec(cc != ai_player && cc == opponent);
        let e = ind_exec(ca != ai_player && ca != opponent && ca.is_empty()) + ind_exec(
            cb != ai_player && cb != opponent && cb.is_empty(),
        ) + ind_exec(cc != ai_player && cc != opponent && cc.is_empty());
        (m, t, e)
    }
}

/// Bound of a sub-board's local score.
pub const MICRO_BOUND: i64 = 130000;

/// Bound of a sub-board's worth.
pub const VALUE_BOUND: i64 = 170000;

/// Bound of what one sub-board adds to the score.
pub const TERM_BOUND: i64 = 221000000;

/// Bound of every score that `evaluate` returns.
pub const HEURISTIC_BOUND: i32 = 2100000000;

proof fn lemma_product_bound(m: int, v: int)
    requires
        -MICRO_BOUND <= m <= MICRO_BOUND,
        -VALUE_BOUND <= v <= VALUE_BOUND,
    ensures
        -MICRO_BOUND * VALUE_BOUND <= m * v <= MICRO_BOUND * VALUE_BOUND,
{
    assert(-MICRO_BOUND * VALUE_BOUND <= m * v <= MICRO_BOUND * VALUE_BOUND) by (nonlinear_arith)
        requires
            -MICRO_BOUND <= m <= MICRO_BOUND,
            -VALUE_BOUND <= v <= VALUE_BOUND,
    ;
}

proof fn lemma_tdiv_bound(a: int, b: int, bound: int)
    requires
        b >= 1,
        -bound <= a <= bound,
    ensures
        -(bound / b) <= tdiv(a, b) <= bound / b,
        -bound <= tdiv(a, b) <= bound,
{
    if a >= 0 {
        assert(a / b <= bound / b) by (nonlinear_arith)
            requires
                0 <= a <= bound,
                b >= 1,
        ;
        assert(a / b <= a) by (nonlinear_arith)
            requires
                0 <= a,
                b >= 1,
        ;
        assert(0 <= a / b) by (nonlinear_arith)
            requires
                0 <= a,
                b >= 1,
        ;
    } else {
        assert((-a) / b <= bound / b) by (nonlinear_arith)
            requires
                0 <= -a <= bound,
                b >= 1,
        ;
        assert((-a) / b <= -a) by (nonlinear_arith)
            requires
                0 <= -a,
                b >= 1,
        ;
        assert(0 <= (-a) / b) by (nonlinear_arith)
            requires
                0 <= -a,
                b >= 1,
        ;
    }
}

} // verus!
