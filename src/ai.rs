//! The search-node adapter: successor generation and the static evaluator
//! that a depth-bounded minimax search runs on.

use vstd::prelude::*;
use crate::rules::{
    all_jumps, black_removals, chain_len_from, jump_next, jumps_from, jumps_upto, removal_next, row_jumps,
    rows_jumps, views, white_removals, Jump, JumpView, Rules,
};
use crate::player::PlayerInput;
use crate::state::{BoardModel, GameModel, GamePhase, GameState, PieceColor, Position};

verus! {

/// An action of the search: an opening removal or a jump.
#[derive(Debug)]
pub enum KonaneAction {
    OpeningRemoval(Position),
    Jump(Jump),
}

/// The mathematical content of an action.
pub enum ActionView {
    Removal(Position),
    Jump(JumpView),
}

impl View for KonaneAction {
    type V = ActionView;

    open spec fn view(&self) -> ActionView {
        match self {
            KonaneAction::OpeningRemoval(p) => ActionView::Removal(*p),
            KonaneAction::Jump(j) => ActionView::Jump(j@),
        }
    }
}

impl Clone for KonaneAction {
    fn clone(&self) -> (r: Self)
        ensures
            r@ == self@,
    {
        match self {
            KonaneAction::OpeningRemoval(p) => KonaneAction::OpeningRemoval(*p),
            KonaneAction::Jump(j) => KonaneAction::Jump(j.clone()),
        }
    }
}

/// The game that `action` leads to, as the rules define it.
#[verifier::opaque]
pub open spec fn action_next(s: GameModel, action: ActionView) -> GameModel {
    match action {
        ActionView::Removal(p) => removal_next(s, p),
        ActionView::Jump(j) => jump_next(s, j),
    }
}

/// A search node: a game state and the action that produced it (`None` at
/// the root).
pub struct KonaneState {
    pub inner: GameState,
    pub last_action: Option<KonaneAction>,
}

impl KonaneState {
    pub open spec fn wf(&self) -> bool {
        self.inner.wf()
    }

    pub open spec fn last_action_view(&self) -> Option<ActionView> {
        match self.last_action {
            Some(a) => Some(a@),
            None => None,
        }
    }

    /// The fingerprint of the node's position.
    pub fn fingerprint(&self) -> (r: u64)
        requires
            self.wf(),
        ensures
            r == self.inner.spec_fingerprint(),
    {
        self.inner.fingerprint()
    }

    pub fn is_terminal(&self) -> (r: bool)
        ensures
            r == (self.inner.phase is GameOver),
    {
        match self.inner.current_phase() {
            GamePhase::GameOver { .. } => true,
            _ => false,
        }
    }

    /// The node that `action` leads to; an action that the rules refuse
    /// leaves the position as it was.
    pub fn apply(&self, action: &KonaneAction) -> (r: KonaneState)
        requires
            self.wf(),
        ensures
            r.wf(),
            r.inner.model() == action_next(self.inner.model(), action@),
            r.last_action_view() == Some(action@),
    {
        reveal(action_next);
        let mut new_state = self.inner.clone();
        match action {
            KonaneAction::OpeningRemoval(pos) => {
                let _ = Rules::apply_opening_removal(&mut new_state, *pos);
            },
            KonaneAction::Jump(jump) => {
                let _ = Rules::apply_jump(&mut new_state, jump);
            },
        }
        KonaneState { inner: new_state, last_action: Some(action.clone()) }
    }
}

/// Score of a position won by Black, the first player.
pub const ALICE_WINS: i32 = 1000;

/// Score of a position won by White.
pub const BOB_WINS: i32 = -1000;

/// Number of jumps that `color` would have in `s` if it were to move.
pub open spec fn mobility(s: GameModel, color: PieceColor) -> int {
    match s.phase {
        GamePhase::Play | GamePhase::GameOver { .. } => all_jumps(s.board, color).len() as int,
        _ => 0,
    }
}

/// The static score of a position, from Black's side: a won game scores
/// `ALICE_WINS` or `BOB_WINS`; a side to move without a jump has lost;
/// otherwise Black's mobility minus White's.
pub open spec fn score(s: GameModel) -> int {
    match s.phase {
        GamePhase::GameOver { winner } => if winner == PieceColor::Black {
            ALICE_WINS as int
        } else {
            BOB_WINS as int
        },
        _ => if s.current_player == PieceColor::Black && mobility(s, PieceColor::Black) == 0 {
            BOB_WINS as int
        } else if s.current_player == PieceColor::White && mobility(s, PieceColor::White) == 0 {
            ALICE_WINS as int
        } else {
            mobility(s, PieceColor::Black) - mobility(s, PieceColor::White)
        },
    }
}

proof fn lemma_chain_len_bound(b: BoardModel, p: Position, d: crate::state::Direction, color: PieceColor, k: nat)
    requires
        2 * k <= b.n(),
    ensures
        chain_len_from(b, p, d, color, k) * 2 <= b.n(),
    decreases b.n() - 2 * k,
{
    if 2 * k + 2 <= b.n() && crate::rules::hop_ok(b, p, d, color, k) {
        lemma_chain_len_bound(b, p, d, color, k + 1);
    }
}

proof fn lemma_jumps_from_len(b: BoardModel, p: Position, color: PieceColor)
    requires
        b.wf(),
    ensures
        jumps_from(b, p, color).len() <= 32,
{
    reveal_with_fuel(jumps_upto, 5);
    let ds = crate::state::all_directions();
    lemma_chain_len_bound(b, p, ds[0], color, 0);
    lemma_chain_len_bound(b, p, ds[1], color, 0);
    lemma_chain_len_bound(b, p, ds[2], color, 0);
    lemma_chain_len_bound(b, p, ds[3], color, 0);
}

proof fn lemma_row_jumps_len(b: BoardModel, color: PieceColor, row: nat, c: nat)
    requires
        b.wf(),
    ensures
        row_jumps(b, color, row, c).len() <= 32 * c,
    decreases c,
{
    if c > 0 {
        lemma_row_jumps_len(b, color, row, (c - 1) as nat);
        lemma_jumps_from_len(b, Position { row: row as usize, col: (c - 1) as usize }, color);
    }
}

proof fn lemma_rows_jumps_len(b: BoardModel, color: PieceColor, r: nat)
    requires
        b.wf(),
    ensures
        rows_jumps(b, color, r).len() <= 512 * r,
    decreases r,
{
    if r > 0 {
        lemma_rows_jumps_len(b, color, (r - 1) as nat);
        lemma_row_jumps_len(b, color, (r - 1) as nat, b.n());
    }
}

/// A side never has more than 8192 jumps.
pub proof fn lemma_all_jumps_len(b: BoardModel, color: PieceColor)
    requires
        b.wf(),
    ensures
        all_jumps(b, color).len() <= 8192,
{
    lemma_rows_jumps_len(b, color, b.n());
}

/// Number of jumps `color` would have in `state` if it were to move: zero
/// outside play.
fn count_mobility_for(state: &GameState, color: PieceColor) -> (r: i32)
    requires
        state.wf(),
    ensures
        r == mobility(state.model(), color),
{
    let mut temp_state = state.clone();
    temp_state.set_current_player(color);
    match temp_state.current_phase() {
        GamePhase::Play | GamePhase::GameOver { .. } => {
            let jumps = Rules::all_valid_jumps(&temp_state);
            proof {
                lemma_all_jumps_len(temp_state.board@, color);
                assert(views(jumps@).len() == jumps@.len());
            }
            jumps.len() as i32
        },
        _ => 0,
    }
}

/// The static evaluator of the search.
pub struct KonaneEvaluator;

impl KonaneEvaluator {
    /// Scores a node from Black's side; see `score`.
    pub fn evaluate(&self, state: &KonaneState) -> (r: i32)
        requires
            state.wf(),
        ensures
            r == score(state.inner.model()),
    {
        if let GamePhase::GameOver { winner } = state.inner.current_phase() {
            return if winner == PieceColor::Black {
                self.alice_wins_value()
            } else {
                self.bob_wins_value()
            };
        }
        let black_mobility = count_mobility_for(&state.inner, PieceColor::Black);
        if state.inner.current_player() == PieceColor::Black && black_mobility == 0 {
            return self.bob_wins_value();
        }
        let white_mobility = count_mobility_for(&state.inner, PieceColor::White);
        if state.inner.current_player() == PieceColor::White && white_mobility == 0 {
            return self.alice_wins_value();
        }
        black_mobility - white_mobility
    }

    pub fn alice_wins_value(&self) -> (r: i32)
        ensures
            r == ALICE_WINS,
    {
        ALICE_WINS
    }

    pub fn bob_wins_value(&self) -> (r: i32)
        ensures
            r == BOB_WINS,
    {
        BOB_WINS
    }
}

/// The actions available in `s`, in the order the rules list them: the
/// opening candidates in an opening phase, every jump in play, none else.
pub open spec fn candidate_actions(s: GameModel) -> Seq<ActionView> {
    match s.phase {
        GamePhase::OpeningBlackRemoval => black_removals(s.board).map_values(|p: Position| ActionView::Removal(p)),
        GamePhase::OpeningWhiteRemoval => white_removals(s.board, s.first_removal_pos).map_values(
            |p: Position| ActionView::Removal(p),
        ),
        GamePhase::Play => all_jumps(s.board, s.current_player).map_values(|j: JumpView| ActionView::Jump(j)),
        _ => Seq::empty(),
    }
}

/// Successor generation for the search.
pub struct KonaneMoveGenerator;

impl KonaneMoveGenerator {
    /// One successor per available action of `state`, in the order of
    /// `candidate_actions`, each carrying the action that produced it.
    pub fn generate(&self, state: &KonaneState, _depth: i32) -> (r: Vec<KonaneState>)
        requires
            state.wf(),
        ensures
            r.len() == candidate_actions(state.inner.model()).len(),
            forall|i: int|
                0 <= i < r.len() ==> {
                    &&& (#[trigger] r[i]).wf()
                    &&& r[i].last_action_view() == Some(candidate_actions(state.inner.model())[i])
                    &&& r[i].inner.model() == action_next(state.inner.model(), candidate_actions(state.inner.model())[i])
                },
    {
        let inner = &state.inner;
        match inner.current_phase() {
            GamePhase::OpeningBlackRemoval => {
                let positions = Rules::valid_black_opening_removals(inner);
                successors_of_removals(state, &positions)
            },
            GamePhase::OpeningWhiteRemoval => {
                let positions = Rules::valid_white_opening_removals(inner);
                successors_of_removals(state, &positions)
            },
            GamePhase::Play => {
                let jumps = Rules::all_valid_jumps(inner);
                let mut out: Vec<KonaneState> = Vec::new();
                let ghost acts = candidate_actions(state.inner.model());
                let mut i: usize = 0;
                while i < jumps.len()
                    invariant
                        state.wf(),
                        state.inner.phase == GamePhase::Play,
                        acts == candidate_actions(state.inner.model()),
                        views(jumps@) == all_jumps(state.inner.board@, state.inner.current_player),
                        i <= jumps.len(),
                        out.len() == i,
                        forall|k: int|
                            0 <= k < i ==> {
                                &&& (#[trigger] out[k]).wf()
                                &&& out[k].last_action_view() == Some(acts[k])
                                &&& out[k].inner.model() == action_next(state.inner.model(), acts[k])
                            },
                    decreases jumps.len() - i,
                {
                    let action = KonaneAction::Jump(jumps[i].clone());
                    assert(action@ == acts[i as int]) by {
                        assert(views(jumps@)[i as int] == jumps@[i as int]@);
                    }
                    out.push(state.apply(&action));
                    i = i + 1;
                }
                out
            },
            _ => Vec::new(),
        }
    }
}

/// The successors of `state` for each opening removal in `positions`.
fn successors_of_removals(state: &KonaneState, positions: &Vec<Position>) -> (r: Vec<KonaneState>)
    requires
        state.wf(),
    ensures
        r.len() == positions.len(),
        forall|i: int|
            0 <= i < r.len() ==> {
                &&& (#[trigger] r[i]).wf()
                &&& r[i].last_action_view() == Some(ActionView::Removal(positions@[i]))
                &&& r[i].inner.model() == action_next(state.inner.model(), ActionView::Removal(positions@[i]))
            },
{
    let mut out: Vec<KonaneState> = Vec::new();
    let mut i: usize = 0;
    while i < positions.len()
        invariant
            state.wf(),
            i <= positions.len(),
            out.len() == i,
            forall|k: int|
                0 <= k < i ==> {
                    &&& (#[trigger] out[k]).wf()
                    &&& out[k].last_action_view() == Some(ActionView::Removal(positions@[k]))
                    &&& out[k].inner.model() == action_next(state.inner.model(), ActionView::Removal(positions@[k]))
                },
        decreases positions.len() - i,
    {
        let action = KonaneAction::OpeningRemoval(positions[i]);
        out.push(state.apply(&action));
        i = i + 1;
    }
    out
}

/// An engine player; its moves come from a depth-bounded search over
/// `KonaneState` nodes.
pub struct AiPlayer {
    color: PieceColor,
    depth: i32,
}

impl AiPlayer {
    pub closed spec fn spec_color(&self) -> PieceColor {
        self.color
    }

    pub closed spec fn spec_depth(&self) -> i32 {
        self.depth
    }

    pub fn new(color: PieceColor, depth: i32) -> (r: Self)
        ensures
            r.spec_color() == color,
            r.spec_depth() == depth,
    {
        AiPlayer { color, depth }
    }

    pub fn color(&self) -> (r: PieceColor)
        ensures
            r == self.spec_color(),
    {
        self.color
    }

    /// The search depth.
    pub fn depth(&self) -> (r: i32)
        ensures
            r == self.spec_depth(),
    {
        self.depth
    }

    /// An engine is always ready to move.
    pub fn is_ready(&self) -> (r: bool)
        ensures
            r,
    {
        true
    }

    /// The engine ignores interface input.
    pub fn receive_input(&mut self, _input: PlayerInput)
        ensures
            final(self).spec_color() == old(self).spec_color(),
            final(self).spec_depth() == old(self).spec_depth(),
    {
    }
}

} // verus!
