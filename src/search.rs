use vstd::prelude::*;
use rand::Rng;
use std::collections::HashMap;
use std::time::Instant;
use crate::board::{GameState, Marker, Move, Status};
use crate::difficulty::{level_profile, AIConfig, DifficultyLevel, EvaluationWeights};
use crate::error::{is_invalid_bot_level, AppError};
use crate::evaluator::{eval_spec, StateEvaluator, HEURISTIC_BOUND};
use crate::movegen::{
    forced_board, gen_moves, lemma_forced_moves_in_forced_board, lemma_gen_moves_in_range,
    MoveGenerator,
};
use crate::transition::{apply_spec, GameStateManager};

verus! {

broadcast use vstd::std_specs::hash::group_hash_axioms;

#[verifier::external_type_specification]
#[verifier::external_body]
pub struct ExInstant(std::time::Instant);

/// Relies on `rand::rng().random_range(0..n)`: a draw that lies in `0..n`
/// (it panics on an empty range, which `requires` rules out).
#[verifier::external_body]
fn random_below(n: usize) -> (r: usize)
    requires
        n > 0,
    ensures
        r < n,
{
    rand::rng().random_range(0..n)
}

/// Relies on `std::time::Instant::now`: the current instant.
#[verifier::external_body]
fn clock_now() -> Instant {
    Instant::now()
}

/// Relies on `std::time::Instant::elapsed`: the time since `start`, in whole milliseconds.
#[verifier::external_body]
fn elapsed_millis(start: &Instant) -> u128 {
    start.elapsed().as_millis()
}

/// The two killer moves kept for one depth, most recent first.
pub type KillerPair = (Option<Move>, Option<Move>);

pub open spec fn killers_at(m: Map<usize, KillerPair>, depth: usize) -> KillerPair {
    if m.contains_key(depth) {
        m[depth]
    } else {
        (None, None)
    }
}

pub open spec fn is_killer_in(k: KillerPair, m: Move) -> bool {
    k.0 == Some(m) || k.1 == Some(m)
}

/// Moves that caused a cutoff, by depth; used only to order moves.
pub struct KillerMoves {
    moves: HashMap<usize, KillerPair>,
}

impl View for KillerMoves {
    type V = Map<usize, KillerPair>;

    closed spec fn view(&self) -> Map<usize, KillerPair> {
        self.moves@
    }
}

fn same_move(o: Option<Move>, m: Move) -> (r: bool)
    ensures
        r == (o == Some(m)),
{
    match o {
        Some(x) => x == m,
        None => false,
    }
}

impl KillerMoves {
    pub fn new() -> (r: KillerMoves)
        ensures
            r@ == Map::<usize, KillerPair>::empty(),
    {
        KillerMoves { moves: HashMap::new() }
    }

    /// Records `mov` as the newest killer at `depth`; the previous newest
    /// becomes the second, unless `mov` already is the newest.
    pub fn add(&mut self, depth: usize, mov: Move)
        ensures
            final(self)@ == old(self)@.insert(
                depth,
                if killers_at(old(self)@, depth).0 == Some(mov) {
                    killers_at(old(self)@, depth)
                } else {
                    (Some(mov), killers_at(old(self)@, depth).0)
                },
            ),
    {
        let entry = self.get(depth);
        let next = if same_move(entry.0, mov) {
            entry
        } else {
            (Some(mov), entry.0)
        };
        self.moves.insert(depth, next);
    }

    pub fn get(&self, depth: usize) -> (r: KillerPair)
        ensures
            r == killers_at(self@, depth),
    {
        match self.moves.get(&depth) {
            Some(k) => *k,
            None => (None, None),
        }
    }

    pub fn is_killer(&self, depth: usize, mov: Move) -> (r: bool)
        ensures
            r == is_killer_in(killers_at(self@, depth), mov),
    {
        let killers = self.get(depth);
        same_move(killers.0, mov) || same_move(killers.1, mov)
    }
}

// ---- a stable sort, best score first ----
/// Where a pair with score `key` goes in `s`: before the first lower score.
pub open spec fn insert_pos_from(s: Seq<(Move, i32)>, key: i32, j: int) -> int
    decreases s.len() - j,
{
    if j >= s.len() {
        s.len() as int
    } else if s[j].1 < key {
        j
    } else {
        insert_pos_from(s, key, j + 1)
    }
}

/// `s` sorted by score, highest first, pairs of equal score in their order in `s`.
pub open spec fn sort_desc(s: Seq<(Move, i32)>) -> Seq<(Move, i32)>
    decreases s.len(),
{
    if s.len() == 0 {
        s
    } else {
        let prev = sort_desc(s.drop_last());
        prev.insert(insert_pos_from(prev, s.last().1, 0), s.last())
    }
}

proof fn lemma_insert_pos_range(s: Seq<(Move, i32)>, key: i32, j: int)
    requires
        0 <= j <= s.len(),
    ensures
        j <= insert_pos_from(s, key, j) <= s.len(),
    decreases s.len() - j,
{
    if j < s.len() && s[j].1 >= key {
        lemma_insert_pos_range(s, key, j + 1);
    }
}

/// Sorting keeps the pairs: same length, same multiset.
pub proof fn lemma_sort_desc_perm(s: Seq<(Move, i32)>)
    ensures
        sort_desc(s).len() == s.len(),
        sort_desc(s).to_multiset() == s.to_multiset(),
    decreases s.len(),
{
    if s.len() > 0 {
        let prev = sort_desc(s.drop_last());
        lemma_sort_desc_perm(s.drop_last());
        let j = insert_pos_from(prev, s.last().1, 0);
        lemma_insert_pos_range(prev, s.last().1, 0);
        vstd::seq_lib::to_multiset_insert(prev, j, s.last());
        vstd::seq_lib::to_multiset_build(s.drop_last(), s.last());
        assert(s.drop_last().push(s.last()) =~= s);
    }
}

proof fn lemma_sort_desc_contains(s: Seq<(Move, i32)>, x: (Move, i32))
    ensures
        sort_desc(s).contains(x) <==> s.contains(x),
{
    lemma_sort_desc_perm(s);
    vstd::seq_lib::to_multiset_contains(sort_desc(s), x);
    vstd::seq_lib::to_multiset_contains(s, x);
}

/// The moves of `s`, in order.
pub open spec fn firsts(s: Seq<(Move, i32)>) -> Seq<Move> {
    s.map_values(|p: (Move, i32)| p.0)
}

/// Sorts pairs by score, highest first, keeping the order of equal scores.
fn sort_by_score(v: Vec<(Move, i32)>) -> (r: Vec<(Move, i32)>)
    ensures
        r@ == sort_desc(v@),
{
    let mut sorted: Vec<(Move, i32)> = Vec::new();
    let mut i: usize = 0;
    while i < v.len()
        invariant
            i <= v.len(),
            sorted@ == sort_desc(v@.take(i as int)),
        decreases v.len() - i,
    {
        let x = v[i];
        let mut j: usize = 0;
        while j < sorted.len() && sorted[j].1 >= x.1
            invariant
                j <= sorted.len(),
                insert_pos_from(sorted@, x.1, 0) == insert_pos_from(sorted@, x.1, j as int),
            decreases sorted.len() - j,
        {
            j += 1;
        }
        proof {
            assert(v@.take(i as int + 1).drop_last() =~= v@.take(i as int));
            assert(v@.take(i as int + 1).last() == x);
        }
        sorted.insert(j, x);
        i += 1;
    }
    assert(v@.take(v.len() as int) =~= v@);
    sorted
}

// ---- move ordering ----
/// Score used to order move `m`: killers first, the rest by a one-ply evaluation.
pub open spec fn order_key(w: EvaluationWeights, s: GameState, p: Marker, k: KillerPair, m: Move) -> i32 {
    if is_killer_in(k, m) {
        100000
    } else {
        eval_spec(w, apply_spec(s, m, p), p) as i32
    }
}

pub open spec fn keyed(w: EvaluationWeights, s: GameState, p: Marker, k: KillerPair, ms: Seq<Move>) -> Seq<(Move, i32)> {
    ms.map_values(|m: Move| (m, order_key(w, s, p, k, m)))
}

/// The legal moves of `s`, best-looking first for `p`.
pub open spec fn ordered_spec(w: EvaluationWeights, s: GameState, p: Marker, k: KillerPair) -> Seq<Move> {
    if gen_moves(s).len() <= 1 {
        gen_moves(s)
    } else {
        firsts(sort_desc(keyed(w, s, p, k, gen_moves(s))))
    }
}

/// `a` has as many entries as the legal moves of `s`, and holds exactly those moves.
pub open spec fn same_moves(a: Seq<Move>, s: GameState) -> bool {
    &&& a.len() == gen_moves(s).len()
    &&& forall|m: Move| a.contains(m) <==> gen_moves(s).contains(m)
}

proof fn lemma_ordered_same_moves(w: EvaluationWeights, s: GameState, p: Marker, k: KillerPair)
    ensures
        same_moves(ordered_spec(w, s, p, k), s),
{
    let g = gen_moves(s);
    if g.len() > 1 {
        let kd = keyed(w, s, p, k, g);
        let sd = sort_desc(kd);
        lemma_sort_desc_perm(kd);
        let o = firsts(sd);
        assert forall|m: Move| o.contains(m) <==> g.contains(m) by {
            if o.contains(m) {
                let i = choose|i: int| 0 <= i < o.len() && o[i] == m;
                lemma_sort_desc_contains(kd, sd[i]);
                let j = choose|j: int| 0 <= j < kd.len() && kd[j] == sd[i];
                assert(g[j] == m);
            }
            if g.contains(m) {
                let j = choose|j: int| 0 <= j < g.len() && g[j] == m;
                assert(kd[j] == (m, order_key(w, s, p, k, m)));
                lemma_sort_desc_contains(kd, kd[j]);
                let i = choose|i: int| 0 <= i < sd.len() && sd[i] == kd[j];
                assert(o[i] == m);
            }
        }
    }
}

impl MoveGenerator {
    /// The legal moves, ordered for search: killer moves at `current_depth`
    /// first, then by the evaluation for `player` after each move.
    pub fn generate_ordered_moves(
        state: &GameState,
        evaluator: &mut StateEvaluator,
        player: Marker,
        killers: Option<&KillerMoves>,
        current_depth: usize,
    ) -> (r: Vec<Move>)
        requires
            state.wf(),
            old(evaluator).weights().wf(),
        ensures
            *final(evaluator) == *old(evaluator),
            r@ == ordered_spec(
                old(evaluator).weights(),
                *state,
                player,
                match killers {
                    Some(k) => killers_at(k@, current_depth),
                    None => (None, None),
                },
            ),
            same_moves(r@, *state),
    {
        let ghost kp = match killers {
            Some(k) => killers_at(k@, current_depth),
            None => (None, None),
        };
        let ghost w = evaluator.weights();
        proof {
            lemma_ordered_same_moves(w, *state, player, kp);
        }
        let moves = Self::generate_moves(state);
        if moves.len() <= 1 {
            return moves;
        }
        proof {
            lemma_gen_moves_in_range(*state);
        }
        let mut move_scores: Vec<(Move, i32)> = Vec::new();
        let mut i: usize = 0;
        while i < moves.len()
            invariant
                i <= moves.len(),
                moves@ == gen_moves(*state),
                forall|k: int| 0 <= k < moves@.len() ==> (#[trigger] moves@[k]).in_range(),
                state.wf(),
                evaluator.weights() == w,
                *evaluator == *old(evaluator),
                kp == match killers {
                    Some(k) => killers_at(k@, current_depth),
                    None => (None, None),
                },
                w.wf(),
                move_scores@ == keyed(w, *state, player, kp, moves@.take(i as int)),
            decreases moves.len() - i,
        {
            let mov = moves[i];
            let is_killer = match killers {
                Some(k) => k.is_killer(current_depth, mov),
                None => false,
            };
            let mut score: i32 = if is_killer {
                100000
            } else {
                0
            };
            if score == 0 {
                let mut new_state = *state;
                GameStateManager::apply_move(&mut new_state, mov, player);
                score = evaluator.evaluate(&new_state, player);
            }
            assert(score == order_key(w, *state, player, kp, mov));
            move_scores.push((mov, score));
            proof {
                assert(moves@.take(i as int + 1) =~= moves@.take(i as int).push(mov));
                assert(move_scores@ =~= keyed(w, *state, player, kp, moves@.take(i as int + 1)));
            }
            i += 1;
        }
        assert(moves@.take(moves.len() as int) =~= moves@);
        let sorted = sort_by_score(move_scores);
        let mut result: Vec<Move> = Vec::new();
        let mut j: usize = 0;
        while j < sorted.len()
            invariant
                j <= sorted.len(),
                result@ == firsts(sorted@.take(j as int)),
            decreases sorted.len() - j,
        {
            result.push(sorted[j].0);
            proof {
                assert(sorted@.take(j as int + 1) =~= sorted@.take(j as int).push(sorted@[j as int]));
                assert(result@ =~= firsts(sorted@.take(j as int + 1)));
            }
            j += 1;
        }
        assert(sorted@.take(sorted.len() as int) =~= sorted@);
        result
    }
}

} // verus!

verus! {

// ---- the value that the search computes ----
/// The player who moves at a node: `p` at maximizing nodes, the opponent at the others.
pub open spec fn mover(maximizing: bool, p: Marker) -> Marker {
    if maximizing {
        p
    } else {
        p.opp()
    }
}

/// Depth-limited minimax value of `s` for `p`: the evaluation at depth 0, at a
/// decided game or without moves; else the best child value for the side to move.
pub open spec fn minimax_value(
    w: EvaluationWeights,
    s: GameState,
    depth: nat,
    maximizing: bool,
    p: Marker,
) -> int
    decreases depth, 0nat,
{
    if depth == 0 || s.board.status != Status::InProgress || gen_moves(s).len() == 0 {
        eval_spec(w, s, p)
    } else {
        best_among(w, s, gen_moves(s), (depth - 1) as nat, maximizing, p, gen_moves(s).len())
    }
}

/// The best value, for the side to move, among the children reached by the first `n` moves.
pub open spec fn best_among(
    w: EvaluationWeights,
    s: GameState,
    moves: Seq<Move>,
    cd: nat,
    maximizing: bool,
    p: Marker,
    n: nat,
) -> int
    decreases cd, n,
{
    if n == 0 {
        0
    } else {
        let v = minimax_value(w, apply_spec(s, moves[n - 1], mover(maximizing, p)), cd, !maximizing, p);
        if n == 1 {
            v
        } else {
            let prev = best_among(w, s, moves, cd, maximizing, p, (n - 1) as nat);
            if maximizing {
                if v > prev {
                    v
                } else {
                    prev
                }
            } else {
                if v < prev {
                    v
                } else {
                    prev
                }
            }
        }
    }
}

/// Value of the child reached by move `m`.
pub open spec fn child_value(
    w: EvaluationWeights,
    s: GameState,
    m: Move,
    cd: nat,
    maximizing: bool,
    p: Marker,
) -> int {
    minimax_value(w, apply_spec(s, m, mover(maximizing, p)), cd, !maximizing, p)
}

proof fn lemma_best_among(
    w: EvaluationWeights,
    s: GameState,
    moves: Seq<Move>,
    cd: nat,
    maximizing: bool,
    p: Marker,
    n: nat,
)
    requires
        1 <= n <= moves.len(),
    ensures
        forall|k: int|
            0 <= k < n ==> if maximizing {
                #[trigger] child_value(w, s, moves[k], cd, maximizing, p) <= best_among(
                    w,
                    s,
                    moves,
                    cd,
                    maximizing,
                    p,
                    n,
                )
            } else {
                child_value(w, s, moves[k], cd, maximizing, p) >= best_among(
                    w,
                    s,
                    moves,
                    cd,
                    maximizing,
                    p,
                    n,
                )
            },
        exists|k: int|
            0 <= k < n && #[trigger] child_value(w, s, moves[k], cd, maximizing, p) == best_among(
                w,
                s,
                moves,
                cd,
                maximizing,
                p,
                n,
            ),
    decreases n,
{
    if n == 1 {
        assert(child_value(w, s, moves[0], cd, maximizing, p) == best_among(w, s, moves, cd, maximizing, p, n));
    } else {
        lemma_best_among(w, s, moves, cd, maximizing, p, (n - 1) as nat);
        let prev = best_among(w, s, moves, cd, maximizing, p, (n - 1) as nat);
        let v = child_value(w, s, moves[n - 1], cd, maximizing, p);
        if (maximizing && v > prev) || (!maximizing && v < prev) {
            assert(child_value(w, s, moves[n - 1], cd, maximizing, p) == best_among(w, s, moves, cd, maximizing, p, n));
        } else {
            let k = choose|k: int|
                0 <= k < n - 1 && #[trigger] child_value(w, s, moves[k], cd, maximizing, p) == prev;
            assert(child_value(w, s, moves[k], cd, maximizing, p) == best_among(w, s, moves, cd, maximizing, p, n));
        }
    }
}

/// `r` is what fail-soft alpha-beta search owes for true value `v` in window
/// `(alpha, beta)`: `v` itself inside the window, and outside it a bound that
/// `v` lies beyond.
pub open spec fn ab_ok(r: int, v: int, alpha: int, beta: int) -> bool {
    &&& (alpha < r < beta ==> r == v)
    &&& (r <= alpha ==> v <= r)
    &&& (r >= beta ==> v >= r)
}

/// No random move and no deliberate mistake can be drawn.
pub open spec fn chance_free(c: AIConfig) -> bool {
    c.random_move_chance == 0 && c.mistake_chance == 0
}

/// Value for `p` of playing root move `m`, searched to the configured depth.
pub open spec fn root_value(c: AIConfig, s: GameState, p: Marker, m: Move) -> int {
    child_value(c.weights, s, m, (c.max_depth - 1) as nat, true, p)
}

/// The root moves in the order in which they are searched.
pub open spec fn root_moves(c: AIConfig, s: GameState, p: Marker) -> Seq<Move> {
    if c.use_move_ordering {
        ordered_spec(c.weights, s, p, (None, None))
    } else {
        gen_moves(s)
    }
}

pub open spec fn root_scored(c: AIConfig, s: GameState, p: Marker, ms: Seq<Move>) -> Seq<(Move, i32)> {
    ms.map_values(|m: Move| (m, root_value(c, s, p, m) as i32))
}

/// The root moves with their values, best first, ties in search order.
pub open spec fn root_ranking(c: AIConfig, s: GameState, p: Marker) -> Seq<(Move, i32)> {
    sort_desc(root_scored(c, s, p, root_moves(c, s, p)))
}

/// The move that a search without chance picks: the first root move, in search
/// order, of highest value.
pub open spec fn best_choice(c: AIConfig, s: GameState, p: Marker) -> Option<Move> {
    let ms = root_moves(c, s, p);
    if ms.len() == 0 {
        None
    } else if ms.len() == 1 {
        Some(ms[0])
    } else {
        Some(root_ranking(c, s, p)[0].0)
    }
}

/// `r` is a move that a search without random moves may pick: the best root
/// move, or, after a mistake, one of the first `mistake_pool_size` ranked.
pub open spec fn among_best(c: AIConfig, s: GameState, p: Marker, r: Option<Move>) -> bool {
    let ms = root_moves(c, s, p);
    if ms.len() == 0 {
        r is None
    } else if ms.len() == 1 {
        r == Some(ms[0])
    } else {
        exists|k: int|
            0 <= k < ms.len() && (k == 0 || k < c.mistake_pool_size) && r == Some(
                #[trigger] root_ranking(c, s, p)[k].0,
            )
    }
}

/// The node count after one more node, held at `usize::MAX`.
pub open spec fn one_more(n: usize) -> usize {
    if n < usize::MAX {
        (n + 1) as usize
    } else {
        n
    }
}

/// The first result of highest score among the results of several searches;
/// `None` when none of them found a move.
pub fn best_result(results: &Vec<Option<(Move, i32)>>) -> (r: Option<(Move, i32)>)
    ensures
        r is None <==> forall|k: int| 0 <= k < results@.len() ==> (#[trigger] results@[k]) is None,
        r matches Some(b) ==> results@.contains(Some(b)),
        r matches Some(b) ==> forall|k: int|
            0 <= k < results@.len() ==> ((#[trigger] results@[k]) matches Some(x) ==> x.1 <= b.1),
{
    let mut best: Option<(Move, i32)> = None;
    let mut i: usize = 0;
    while i < results.len()
        invariant
            i <= results.len(),
            best is None <==> forall|k: int| 0 <= k < i ==> (#[trigger] results@[k]) is None,
            best matches Some(b) ==> results@.contains(Some(b)),
            best matches Some(b) ==> forall|k: int|
                0 <= k < i ==> ((#[trigger] results@[k]) matches Some(x) ==> x.1 <= b.1),
        decreases results.len() - i,
    {
        let cur = results[i];
        assert(results@[i as int] == cur);
        best = match (best, cur) {
            (Some(b), Some(x)) => if x.1 > b.1 {
                Some(x)
            } else {
                Some(b)
            },
            (None, Some(x)) => Some(x),
            (b, None) => b,
        };
        i += 1;
    }
    best
}

/// Move search by depth-limited alpha-beta minimax, weakened on purpose at low levels.
pub struct MinimaxAI {
    config: AIConfig,
    evaluator: StateEvaluator,
    killer_moves: KillerMoves,
    nodes_searched: usize,
    cut: bool,
}

impl MinimaxAI {
    pub closed spec fn config(self) -> AIConfig {
        self.config
    }

    pub closed spec fn wf(self) -> bool {
        &&& self.config.wf()
        &&& self.evaluator.weights() == self.config.weights
        &&& forall|d: usize| #[trigger] self.killer_moves@.contains_key(d) ==> d < self.config.max_depth
    }

    /// The killer table.
    pub closed spec fn killers(self) -> Map<usize, KillerPair> {
        self.killer_moves@
    }

    /// The time budget cut the last search short.
    pub closed spec fn cut(self) -> bool {
        self.cut
    }

    pub closed spec fn nodes(self) -> usize {
        self.nodes_searched
    }

    /// An engine with the whole profile of level `level`, refused unless it lies in 1..=10.
    pub fn with_level(level: u8) -> (r: Result<MinimaxAI, AppError>)
        ensures
            r is Ok <==> 1 <= level <= 10,
            r matches Ok(ai) ==> ai.wf() && ai.config() == level_profile(level as int) && !ai.cut(),
            r matches Err(e) ==> is_invalid_bot_level(e),
    {
        let difficulty = match DifficultyLevel::new(level) {
            Ok(d) => d,
            Err(e) => {
                return Err(e);
            },
        };
        let config = AIConfig::from_level(difficulty);
        Ok(MinimaxAI::new(config))
    }

    pub fn new(config: AIConfig) -> (r: MinimaxAI)
        requires
            config.wf(),
        ensures
            r.wf(),
            r.config() == config,
            r.killers() == Map::<usize, KillerPair>::empty(),
            !r.cut(),
            r.nodes() == 0,
    {
        let evaluator = StateEvaluator::new(config.weights);
        MinimaxAI {
            config,
            evaluator,
            killer_moves: KillerMoves::new(),
            nodes_searched: 0,
            cut: false,
        }
    }

    /// Nodes visited by the last search, counted up to `usize::MAX`.
    pub fn nodes_searched(&self) -> (r: usize)
        ensures
            r == self.nodes(),
    {
        self.nodes_searched
    }

    /// Whether the time budget cut the last search short.
    pub fn was_cut_short(&self) -> (r: bool)
        ensures
            r == self.cut(),
    {
        self.cut
    }

    /// The move to play for `player`: a random legal move when the random-move
    /// chance fires; else the root moves are searched to the configured depth
    /// and the best is played, or one of the best few when the mistake chance fires.
    /// `None` exactly when there is no legal move. A search the time budget did
    /// not cut short and that drew no chance picks `best_choice`.
    pub fn find_best_move(&mut self, game_state: &GameState, player: Marker) -> (r: Option<Move>)
        requires
            old(self).wf(),
            game_state.wf(),
        ensures
            final(self).wf(),
            final(self).config() == old(self).config(),
            old(self).config().max_time_ms is None ==> !final(self).cut(),
            r is None <==> gen_moves(*game_state).len() == 0,
            r matches Some(m) ==> gen_moves(*game_state).contains(m),
            forced_board(*game_state) matches Some(f) ==> (r matches Some(m) ==> m.board_index == f),
            old(self).config().random_move_chance == 0 && !final(self).cut() ==> among_best(
                old(self).config(),
                *game_state,
                player,
                r,
            ),
            chance_free(old(self).config()) && !final(self).cut() ==> r == best_choice(
                old(self).config(),
                *game_state,
                player,
            ),
    {
        proof {
            match forced_board(*game_state) {
                Some(f) => lemma_forced_moves_in_forced_board(*game_state, f),
                None => {},
            }
        }
        let start_time = clock_now();
        self.nodes_searched = 0;
        self.cut = false;
        if self.should_make_random_move() {
            return self.find_random_move(game_state);
        }
        let ghost c = self.config;
        proof {
            assert(killers_at(self.killer_moves@, self.config.max_depth) == (None::<Move>, None::<Move>));
            lemma_ordered_same_moves(c.weights, *game_state, player, (None, None));
        }
        let moves = if self.config.use_move_ordering {
            let killers = if self.config.use_killer_moves {
                Some(&self.killer_moves)
            } else {
                None
            };
            MoveGenerator::generate_ordered_moves(
                game_state,
                &mut self.evaluator,
                player,
                killers,
                self.config.max_depth,
            )
        } else {
            MoveGenerator::generate_moves(game_state)
        };
        assert(moves@ == root_moves(c, *game_state, player));
        if moves.len() == 0 {
            return None;
        }
        if moves.len() == 1 {
            assert(moves@.contains(moves@[0]));
            assert(gen_moves(*game_state).contains(moves@[0]));
            return Some(moves[0]);
        }
        proof {
            lemma_gen_moves_in_range(*game_state);
        }
        let mut move_scores: Vec<(Move, i32)> = Vec::new();
        let mut i: usize = 0;
        while i < moves.len()
            invariant
                i <= moves.len(),
                self.wf(),
                self.config == c,
                c.max_time_ms is None ==> !self.cut,
                moves@ == root_moves(c, *game_state, player),
                same_moves(moves@, *game_state),
                game_state.wf(),
                forall|k: int| 0 <= k < gen_moves(*game_state).len() ==> (#[trigger] gen_moves(*game_state)[k]).in_range(),
                move_scores@.len() == i,
                forall|k: int| 0 <= k < i ==> (#[trigger] move_scores@[k]).0 == moves@[k],
                !self.cut ==> move_scores@ == root_scored(c, *game_state, player, moves@.take(i as int)),
            decreases moves.len() - i,
        {
            let mov = moves[i];
            assert(moves@[i as int] == mov);
            assert(moves@.contains(mov));
            assert(gen_moves(*game_state).contains(mov));
            let mut new_state = *game_state;
            GameStateManager::apply_move(&mut new_state, mov, player);
            let score = self.minimax(
                &new_state,
                self.config.max_depth - 1,
                false,
                player,
                i32::MIN,
                i32::MAX,
                &start_time,
            );
            move_scores.push((mov, score));
            proof {
                assert(moves@.take(i as int + 1) =~= moves@.take(i as int).push(mov));
                if !self.cut {
                    assert(score as int == root_value(c, *game_state, player, mov));
                    assert(move_scores@ =~= root_scored(c, *game_state, player, moves@.take(i as int + 1)));
                }
            }
            i += 1;
        }
        assert(moves@.take(moves.len() as int) =~= moves@);
        let ghost unsorted = move_scores@;
        let sorted = sort_by_score(move_scores);
        proof {
            lemma_sort_desc_perm(unsorted);
            assert forall|k: int| 0 <= k < sorted@.len() implies gen_moves(*game_state).contains(
                #[trigger] sorted@[k].0,
            ) by {
                lemma_sort_desc_contains(unsorted, sorted@[k]);
                let j = choose|j: int| 0 <= j < unsorted.len() && unsorted[j] == sorted@[k];
                assert(moves@[j] == sorted@[k].0);
                assert(moves@.contains(sorted@[k].0));
            }
            if !self.cut {
                assert(sorted@ == root_ranking(c, *game_state, player));
            }
        }
        if self.should_make_mistake() {
            let r = self.select_mistake_move(&sorted);
            proof {
                if !self.cut {
                    let k = choose|k: int|
                        0 <= k < sorted@.len() && (k == 0 || k < c.mistake_pool_size) && r == Some(
                            #[trigger] sorted@[k].0,
                        );
                    assert(r == Some(root_ranking(c, *game_state, player)[k].0));
                }
            }
            r
        } else {
            proof {
                if !self.cut {
                    assert(Some(sorted@[0].0) == Some(root_ranking(c, *game_state, player)[0].0));
                }
            }
            Some(sorted[0].0)
        }
    }

    /// Scores each of `moves` (legal root moves) by a full-window search for
    /// `player` and returns the first of highest score; `None` for no moves.
    /// This is one worker's share when root moves are searched in parallel.
    pub fn best_of_moves(&mut self, game_state: &GameState, player: Marker, moves: &Vec<Move>) -> (r: Option<(Move, i32)>)
        requires
            old(self).wf(),
            game_state.wf(),
            forall|k: int| 0 <= k < moves@.len() ==> gen_moves(*game_state).contains(#[trigger] moves@[k]),
        ensures
            final(self).wf(),
            final(self).config() == old(self).config(),
            old(self).config().max_time_ms is None ==> !final(self).cut(),
            r is None <==> moves@.len() == 0,
            r matches Some(best) ==> moves@.contains(best.0),
            !final(self).cut() ==> (r matches Some(best) ==> {
                &&& best.1 as int == root_value(old(self).config(), *game_state, player, best.0)
                &&& forall|k: int|
                    0 <= k < moves@.len() ==> root_value(old(self).config(), *game_state, player, #[trigger] moves@[k])
                        <= best.1
            }),
    {
        let start_time = clock_now();
        self.cut = false;
        let ghost c = self.config;
        proof {
            lemma_gen_moves_in_range(*game_state);
        }
        let mut best: Option<(Move, i32)> = None;
        let mut i: usize = 0;
        while i < moves.len()
            invariant
                i <= moves.len(),
                self.wf(),
                self.config == c,
                c == old(self).config,
                c.max_time_ms is None ==> !self.cut,
                game_state.wf(),
                forall|k: int| 0 <= k < moves@.len() ==> gen_moves(*game_state).contains(#[trigger] moves@[k]),
                forall|k: int| 0 <= k < gen_moves(*game_state).len() ==> (#[trigger] gen_moves(*game_state)[k]).in_range(),
                best is None <==> i == 0,
                best matches Some(b) ==> moves@.contains(b.0),
                !self.cut ==> (best matches Some(b) ==> {
                    &&& b.1 as int == root_value(c, *game_state, player, b.0)
                    &&& forall|k: int| 0 <= k < i ==> root_value(c, *game_state, player, #[trigger] moves@[k]) <= b.1
                }),
            decreases moves.len() - i,
        {
            let mov = moves[i];
            assert(gen_moves(*game_state).contains(mov));
            let mut new_state = *game_state;
            GameStateManager::apply_move(&mut new_state, mov, player);
            let score = self.minimax(
                &new_state,
                self.config.max_depth - 1,
                false,
                player,
                i32::MIN,
                i32::MAX,
                &start_time,
            );
            best = match best {
                Some(b) => if score > b.1 {
                    Some((mov, score))
                } else {
                    Some(b)
                },
                None => Some((mov, score)),
            };
            assert(moves@[i as int] == mov);
            i += 1;
        }
        best
    }

    /// Fail-soft alpha-beta minimax below the root. Each node counts itself.
    /// At depth 0, at a decided game, without legal moves, or once the time
    /// budget is spent, the node is evaluated statically and the killer table
    /// is left alone. Unless the budget cut the search short, the result is
    /// bound to the minimax value as `ab_ok` states.
    fn minimax(
        &mut self,
        state: &GameState,
        depth: usize,
        is_maximizing: bool,
        ai_player: Marker,
        alpha: i32,
        beta: i32,
        start_time: &Instant,
    ) -> (r: i32)
        requires
            old(self).wf(),
            state.wf(),
            depth < old(self).config.max_depth,
            alpha < beta,
        ensures
            final(self).wf(),
            final(self).config == old(self).config,
            old(self).cut ==> final(self).cut,
            old(self).config.max_time_ms is None ==> final(self).cut == old(self).cut,
            -HEURISTIC_BOUND <= r <= HEURISTIC_BOUND,
            !final(self).cut ==> ab_ok(
                r as int,
                minimax_value(old(self).config.weights, *state, depth as nat, is_maximizing, ai_player),
                alpha as int,
                beta as int,
            ),
            old(self).cut || depth == 0 || state.board.status != Status::InProgress || gen_moves(
                *state,
            ).len() == 0 ==> {
                &&& r as int == eval_spec(old(self).config.weights, *state, ai_player)
                &&& final(self).killer_moves@ == old(self).killer_moves@
                &&& final(self).nodes_searched == one_more(old(self).nodes_searched)
            },
        decreases depth, 1nat,
    {
        if self.nodes_searched < usize::MAX {
            self.nodes_searched = self.nodes_searched + 1;
        }
        if self.cut {
            return self.evaluator.evaluate(state, ai_player);
        }
        match self.config.max_time_ms {
            Some(max_time) => {
                if elapsed_millis(start_time) > max_time as u128 {
                    self.cut = true;
                    return self.evaluator.evaluate(state, ai_player);
                }
            },
            None => {},
        }
        if depth == 0 || GameStateManager::is_terminal(state) {
            return self.evaluator.evaluate(state, ai_player);
        }
        let current_player = if is_maximizing {
            ai_player
        } else {
            ai_player.opponent()
        };
        let valid_moves = if self.config.use_move_ordering {
            let killers = if self.config.use_killer_moves {
                Some(&self.killer_moves)
            } else {
                None
            };
            MoveGenerator::generate_ordered_moves(
                state,
                &mut self.evaluator,
                current_player,
                killers,
                depth,
            )
        } else {
            MoveGenerator::generate_moves(state)
        };
        if valid_moves.len() == 0 {
            return self.evaluator.evaluate(state, ai_player);
        }
        proof {
            lemma_gen_moves_in_range(*state);
        }
        if is_maximizing {
            self.max_node(state, valid_moves, depth, ai_player, alpha, beta, start_time)
        } else {
            self.min_node(state, valid_moves, depth, ai_player, alpha, beta, start_time)
        }
    }

    /// A maximizing node: children searched in the order of `valid_moves`, the window
    /// narrowed after each, siblings cut off once it closes.
    fn max_node(
        &mut self,
        state: &GameState,
        valid_moves: Vec<Move>,
        depth: usize,
        ai_player: Marker,
        alpha: i32,
        beta: i32,
        start_time: &Instant,
    ) -> (r: i32)
        requires
            old(self).wf(),
            state.wf(),
            1 <= depth < old(self).config.max_depth,
            alpha < beta,
            valid_moves@.len() > 0,
            same_moves(valid_moves@, *state),
        ensures
            final(self).wf(),
            final(self).config == old(self).config,
            old(self).cut ==> final(self).cut,
            old(self).config.max_time_ms is None ==> final(self).cut == old(self).cut,
            -HEURISTIC_BOUND <= r <= HEURISTIC_BOUND,
            !final(self).cut ==> ab_ok(
                r as int,
                best_among(
                    old(self).config.weights,
                    *state,
                    gen_moves(*state),
                    (depth - 1) as nat,
                    true,
                    ai_player,
                    gen_moves(*state).len(),
                ),
                alpha as int,
                beta as int,
            ),
        decreases depth, 0nat,
    {
        let current_player = ai_player;
        let ghost w = self.config.weights;
        let ghost c = self.config;
        let ghost g = gen_moves(*state);
        let ghost cd = (depth - 1) as nat;
        let ghost v = best_among(w, *state, g, cd, true, ai_player, g.len());
        proof {
            lemma_best_among(w, *state, g, cd, true, ai_player, g.len());
            lemma_gen_moves_in_range(*state);
        }
        let mut a = alpha;
        let mut max_eval = i32::MIN;
        let mut best_move: Option<Move> = None;
        let mut i: usize = 0;
        while i < valid_moves.len()
            invariant
                i <= valid_moves.len(),
                self.wf(),
                self.config == c,
                c == old(self).config,
                old(self).cut ==> self.cut,
                c.max_time_ms is None ==> self.cut == old(self).cut,
                w == c.weights,
                state.wf(),
                depth >= 1,
                depth < c.max_depth,
                g == gen_moves(*state),
                cd == (depth - 1) as nat,
                v == best_among(w, *state, g, cd, true, ai_player, g.len()),
                same_moves(valid_moves@, *state),
                forall|k: int| 0 <= k < g.len() ==> (#[trigger] g[k]).in_range(),
                current_player == ai_player,
                alpha <= a < beta,
                max_eval <= a,
                a > alpha ==> a == max_eval,
                i == 0 ==> max_eval == i32::MIN,
                i > 0 ==> -HEURISTIC_BOUND <= max_eval <= HEURISTIC_BOUND,
                !self.cut ==> forall|k: int|
                    0 <= k < i ==> #[trigger] child_value(w, *state, valid_moves@[k], cd, true, ai_player) <= max_eval,
                !self.cut && max_eval > alpha ==> exists|k: int|
                    0 <= k < i && #[trigger] child_value(w, *state, valid_moves@[k], cd, true, ai_player) == max_eval,
            decreases valid_moves.len() - i,
        {
            let mov = valid_moves[i];
            assert(valid_moves@[i as int] == mov);
            assert(valid_moves@.contains(mov));
            assert(g.contains(mov));
            let mut new_state = *state;
            GameStateManager::apply_move(&mut new_state, mov, current_player);
            let ghost was_cut = self.cut;
            let eval = self.minimax(&new_state, depth - 1, false, ai_player, a, beta, start_time);
            let ghost a_old = a;
            let ghost max_old = max_eval;
            proof {
                if !self.cut {
                    assert(new_state == apply_spec(*state, mov, mover(true, ai_player)));
                    assert(!was_cut);
                    assert(ab_ok(eval as int, child_value(w, *state, mov, cd, true, ai_player), a_old as int, beta as int));
                }
            }
            if eval > max_eval {
                max_eval = eval;
                best_move = Some(mov);
            }
            if eval > a {
                a = eval;
            }
            if beta <= a {
                proof {
                    if !self.cut {
                        lemma_best_among(w, *state, g, cd, true, ai_player, g.len());
                        let k = choose|k: int| 0 <= k < g.len() && g[k] == mov;
                        assert(child_value(w, *state, g[k], cd, true, ai_player) <= v);
                        assert(max_eval == eval);
                    }
                }
                if self.config.use_killer_moves {
                    match best_move {
                        Some(m) => {
                            self.killer_moves.add(depth, m);
                        },
                        None => {},
                    }
                }
                return max_eval;
            }
            proof {
                if !self.cut {
                    let cv = child_value(w, *state, mov, cd, true, ai_player);
                    assert(child_value(w, *state, valid_moves@[i as int], cd, true, ai_player) == cv);
                    assert(cv <= max_eval);
                    if max_eval > alpha {
                        if max_eval == max_old {
                            let k = choose|k: int|
                                0 <= k < i && #[trigger] child_value(w, *state, valid_moves@[k], cd, true, ai_player) == max_old;
                            assert(child_value(w, *state, valid_moves@[k], cd, true, ai_player) == max_eval);
                        } else {
                            assert(cv == max_eval);
                        }
                    }
                }
            }
            i += 1;
        }
        proof {
            if !self.cut {
                let k0 = choose|k: int| 0 <= k < g.len() && #[trigger] child_value(w, *state, g[k], cd, true, ai_player) == v;
                assert(valid_moves@.contains(g[k0]));
                let j = choose|j: int| 0 <= j < valid_moves@.len() && valid_moves@[j] == g[k0];
                assert(child_value(w, *state, valid_moves@[j], cd, true, ai_player) <= max_eval);
                if max_eval > alpha {
                    let k1 = choose|k: int| 0 <= k < i && #[trigger] child_value(w, *state, valid_moves@[k], cd, true, ai_player) == max_eval;
                    assert(valid_moves@.contains(valid_moves@[k1]));
                    assert(g.contains(valid_moves@[k1]));
                    let j1 = choose|j: int| 0 <= j < g.len() && g[j] == valid_moves@[k1];
                    assert(child_value(w, *state, g[j1], cd, true, ai_player) <= v);
                }
            }
        }
        max_eval
    }

    /// A minimizing node: children searched in the order of `valid_moves`, the window
    /// narrowed after each, siblings cut off once it closes.
    fn min_node(
        &mut self,
        state: &GameState,
        valid_moves: Vec<Move>,
        depth: usize,
        ai_player: Marker,
        alpha: i32,
        beta: i32,
        start_time: &Instant,
    ) -> (r: i32)
        requires
            old(self).wf(),
            state.wf(),
            1 <= depth < old(self).config.max_depth,
            alpha < beta,
            valid_moves@.len() > 0,
            same_moves(valid_moves@, *state),
        ensures
            final(self).wf(),
            final(self).config == old(self).config,
            old(self).cut ==> final(self).cut,
            old(self).config.max_time_ms is None ==> final(self).cut == old(self).cut,
            -HEURISTIC_BOUND <= r <= HEURISTIC_BOUND,
            !final(self).cut ==> ab_ok(
                r as int,
                best_among(
                    old(self).config.weights,
                    *state,
                    gen_moves(*state),
                    (depth - 1) as nat,
                    false,
                    ai_player,
                    gen_moves(*state).len(),
                ),
                alpha as int,
                beta as int,
            ),
        decreases depth, 0nat,
    {
        let current_player = ai_player.opponent();
        let ghost w = self.config.weights;
        let ghost c = self.config;
        let ghost g = gen_moves(*state);
        let ghost cd = (depth - 1) as nat;
        let ghost v = best_among(w, *state, g, cd, false, ai_player, g.len());
        proof {
            lemma_best_among(w, *state, g, cd, false, ai_player, g.len());
            lemma_gen_moves_in_range(*state);
        }
        let mut b = beta;
        let mut min_eval = i32::MAX;
        let mut best_move: Option<Move> = None;
        let mut i: usize = 0;
        while i < valid_moves.len()
            invariant
                i <= valid_moves.len(),
                self.wf(),
                self.config == c,
                c == old(self).config,
                old(self).cut ==> self.cut,
                c.max_time_ms is None ==> self.cut == old(self).cut,
                w == c.weights,
                state.wf(),
                depth >= 1,
                depth < c.max_depth,
                g == gen_moves(*state),
                cd == (depth - 1) as nat,
                v == best_among(w, *state, g, cd, false, ai_player, g.len()),
                same_moves(valid_moves@, *state),
                forall|k: int| 0 <= k < g.len() ==> (#[trigger] g[k]).in_range(),
                current_player == ai_player.opp(),
                alpha < b <= beta,
                min_eval >= b,
                b < beta ==> b == min_eval,
                i == 0 ==> min_eval == i32::MAX,
                i > 0 ==> -HEURISTIC_BOUND <= min_eval <= HEURISTIC_BOUND,
                !self.cut ==> forall|k: int|
                    0 <= k < i ==> #[trigger] child_value(w, *state, valid_moves@[k], cd, false, ai_player) >= min_eval,
                !self.cut && min_eval < beta ==> exists|k: int|
                    0 <= k < i && #[trigger] child_value(w, *state, valid_moves@[k], cd, false, ai_player) == min_eval,
            decreases valid_moves.len() - i,
        {
            let mov = valid_moves[i];
            assert(valid_moves@[i as int] == mov);
            assert(valid_moves@.contains(mov));
            assert(g.contains(mov));
            let mut new_state = *state;
            GameStateManager::apply_move(&mut new_state, mov, current_player);
            let ghost was_cut = self.cut;
            let eval = self.minimax(&new_state, depth - 1, true, ai_player, alpha, b, start_time);
            let ghost b_old = b;
            let ghost min_old = min_eval;
            proof {
                if !self.cut {
                    assert(new_state == apply_spec(*state, mov, mover(false, ai_player)));
                    assert(!was_cut);
                    assert(ab_ok(eval as int, child_value(w, *state, mov, cd, false, ai_player), alpha as int, b_old as int));
                }
            }
            if eval < min_eval {
                min_eval = eval;
                best_move = Some(mov);
            }
            if eval < b {
                b = eval;
            }
            if b <= alpha {
                proof {
                    if !self.cut {
                        lemma_best_among(w, *state, g, cd, false, ai_player, g.len());
                        let k = choose|k: int| 0 <= k < g.len() && g[k] == mov;
                        assert(child_value(w, *state, g[k], cd, false, ai_player) >= v);
                        assert(min_eval == eval);
                    }
                }
                if self.config.use_killer_moves {
                    match best_move {
                        Some(m) => {
                            self.killer_moves.add(depth, m);
                        },
                        None => {},
                    }
                }
                return min_eval;
            }
            proof {
                if !self.cut {
                    let cv = child_value(w, *state, mov, cd, false, ai_player);
                    assert(child_value(w, *state, valid_moves@[i as int], cd, false, ai_player) == cv);
                    assert(cv >= min_eval);
                    if min_eval < beta {
                        if min_eval == min_old {
                            let k = choose|k: int|
                                0 <= k < i && #[trigger] child_value(w, *state, valid_moves@[k], cd, false, ai_player) == min_old;
                            assert(child_value(w, *state, valid_moves@[k], cd, false, ai_player) == min_eval);
                        } else {
                            assert(cv == min_eval);
                        }
                    }
                }
            }
            i += 1;
        }
        proof {
            if !self.cut {
                let k0 = choose|k: int| 0 <= k < g.len() && #[trigger] child_value(w, *state, g[k], cd, false, ai_player) == v;
                assert(valid_moves@.contains(g[k0]));
                let j = choose|j: int| 0 <= j < valid_moves@.len() && valid_moves@[j] == g[k0];
                assert(child_value(w, *state, valid_moves@[j], cd, false, ai_player) >= min_eval);
                if min_eval < beta {
                    let k1 = choose|k: int| 0 <= k < i && #[trigger] child_value(w, *state, valid_moves@[k], cd, false, ai_player) == min_eval;
                    assert(valid_moves@.contains(valid_moves@[k1]));
                    assert(g.contains(valid_moves@[k1]));
                    let j1 = choose|j: int| 0 <= j < g.len() && g[j] == valid_moves@[k1];
                    assert(child_value(w, *state, g[j1], cd, false, ai_player) >= v);
                }
            }
        }
        min_eval
    }

    /// Whether to skip the search for a random move: never when the chance is 0.
    fn should_make_random_move(&self) -> (r: bool)
        ensures
            self.config.random_move_chance == 0 ==> !r,
    {
        self.config.random_move_chance > 0 && (random_below(100) as u32)
            < self.config.random_move_chance
    }

    /// Whether to pick among the best few instead of the best: never when the chance is 0.
    fn should_make_mistake(&self) -> (r: bool)
        ensures
            self.config.mistake_chance == 0 ==> !r,
    {
        self.config.mistake_chance > 0 && (random_below(100) as u32) < self.config.mistake_chance
    }

    /// One of the first `mistake_pool_size` scored moves (at least the first), at random.
    fn select_mistake_move(&self, move_scores: &Vec<(Move, i32)>) -> (r: Option<Move>)
        requires
            move_scores@.len() > 0,
        ensures
            exists|k: int|
                0 <= k < move_scores@.len() && (k == 0 || k < self.config.mistake_pool_size) && r
                    == Some(#[trigger] move_scores@[k].0),
    {
        let pool_size = if self.config.mistake_pool_size < move_scores.len() {
            self.config.mistake_pool_size
        } else {
            move_scores.len()
        };
        if pool_size <= 1 {
            return Some(move_scores[0].0);
        }
        let index = random_below(pool_size);
        Some(move_scores[index].0)
    }

    /// A legal move drawn at random; `None` exactly when there is none.
    pub fn find_random_move(&self, game_state: &GameState) -> (r: Option<Move>)
        ensures
            r is None <==> gen_moves(*game_state).len() == 0,
            r matches Some(m) ==> gen_moves(*game_state).contains(m),
    {
        let valid_moves = MoveGenerator::generate_moves(game_state);
        if valid_moves.len() == 0 {
            return None;
        }
        let index = random_below(valid_moves.len());
        assert(gen_moves(*game_state)[index as int] == valid_moves@[index as int]);
        Some(valid_moves[index])
    }
}

} // verus!
