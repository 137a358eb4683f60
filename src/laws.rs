//! Properties of the rules that hold for every input, stated and proved.

use vstd::prelude::*;
use crate::grid::checkerboard;
use crate::rules::{
    after_jump, black_removals, chain_jump, chain_len, chain_len_from, dir_jumps, holds, hop_ok, jumps_from,
    jumps_upto,
};
use crate::state::{
    all_directions, on_board, shifted, shifted_col, shifted_row, Board, BoardModel, Cell, Direction,
    GameState, PieceColor, Position,
};
use crate::zhash::{
    cells_hash, lemma_cells_hash_update, lemma_xor, phase_index, phase_key, piece_key, pos_index, position_hash,
    turn_key, turn_part,
};
use crate::ai::{action_next, ActionView};
use crate::import::{find_jump, first_off_board, initial_model, replay, replay_step, turn_matches_phase, MoveError};
use crate::rules::{
    jump_next, lemma_chain_hops, lemma_in_jumps_upto, legal_jump, legal_removal, removal_next, JumpView,
};
use crate::state::{valid_board_size, GameModel, GamePhase, MoveView};

verus! {

/// On a fresh board of any supported size, Black's opening candidates are
/// exactly the two Black centre cells and the two Black corners, in that
/// order, and Black is the side that moves first.  (Of the 2x2 centre block
/// and of the four corners, the cells with an odd coordinate sum are White.)
pub proof fn lemma_fresh_opening_candidates(n: nat)
    requires
        4 <= n <= 16,
        n % 2 == 0,
    ensures
        ({
            let b = BoardModel { size: n, cells: checkerboard(n) };
            let m = (n / 2) as usize;
            let last = (n - 1) as usize;
            &&& black_removals(b) == seq![
                Position { row: (m - 1) as usize, col: (m - 1) as usize },
                Position { row: m, col: m },
                Position { row: 0, col: 0 },
                Position { row: last, col: last },
            ]
            &&& forall|i: int| 0 <= i < 4 ==> b.color_at(#[trigger] black_removals(b)[i]) == Some(PieceColor::Black)
        }),
        GameState::initial_mover() == PieceColor::Black,
{
    let b = BoardModel { size: n, cells: checkerboard(n) };
    let m = n / 2;
    assert(n == 2 * m);
    let pred = holds(b, PieceColor::Black);
    let c = Board::centers(n as int);
    let k = Board::corners(n as int);
    let e = Seq::<Position>::empty();
    assert(c =~= e.push(c[0]).push(c[1]).push(c[2]).push(c[3]));
    assert(k =~= e.push(k[0]).push(k[1]).push(k[2]).push(k[3]));
    assert(e.filter(pred) =~= e) by {
        reveal(Seq::filter);
    }
    e.lemma_filter_push(c[0], pred);
    e.push(c[0]).lemma_filter_push(c[1], pred);
    e.push(c[0]).push(c[1]).lemma_filter_push(c[2], pred);
    e.push(c[0]).push(c[1]).push(c[2]).lemma_filter_push(c[3], pred);
    e.lemma_filter_push(k[0], pred);
    e.push(k[0]).lemma_filter_push(k[1], pred);
    e.push(k[0]).push(k[1]).lemma_filter_push(k[2], pred);
    e.push(k[0]).push(k[1]).push(k[2]).lemma_filter_push(k[3], pred);
    assert((2 * m - 2) % 2 == 0);
    assert((2 * m - 1) % 2 == 1);
    assert(black_removals(b) =~= seq![c[0], c[3], k[0], k[3]]);
}

/// The fingerprint that a game state carries always equals the one
/// computed from scratch from its board, phase and turn.
pub proof fn lemma_fingerprint_in_sync(s: GameState)
    requires
        s.wf(),
    ensures
        s.hash@ == position_hash(s.board@.cells, s.board.n(), s.phase, s.current_player),
{
}

/// A straight chain: with the mover's piece on `p` and, along `d`, an
/// opposing piece, an empty cell, an opposing piece and an empty cell, and
/// no further hop nor any jump in another direction, the legal jumps from
/// `p` are exactly the one-capture and the two-capture jump.  The
/// two-capture jump empties the origin, both captured cells and the
/// intermediate landing cell, and puts the piece on the far empty cell.
pub proof fn lemma_straight_chain(b: BoardModel, p: Position, d: Direction, color: PieceColor)
    requires
        b.wf(),
        b.color_at(p) == Some(color),
        on_board(shifted_row(p, d, 4), shifted_col(p, d, 4), b.n() as int),
        b.at(shifted(p, d, 1)) == Cell::Occupied(color.opp()),
        b.at(shifted(p, d, 2)) == Cell::Empty,
        b.at(shifted(p, d, 3)) == Cell::Occupied(color.opp()),
        b.at(shifted(p, d, 4)) == Cell::Empty,
        !hop_ok(b, p, d, color, 2),
        forall|e: Direction| e != d ==> chain_len(b, p, e, color) == 0,
    ensures
        jumps_from(b, p, color) == seq![chain_jump(p, d, 1), chain_jump(p, d, 2)],
        chain_jump(p, d, 2).captured == seq![shifted(p, d, 1), shifted(p, d, 3)],
        chain_jump(p, d, 2).to == shifted(p, d, 4),
        ({
            let after = BoardModel {
                size: b.size,
                cells: after_jump(b.cells, p, shifted(p, d, 4), seq![shifted(p, d, 1), shifted(p, d, 3)], color),
            };
            &&& after.at(p) == Cell::Empty
            &&& after.at(shifted(p, d, 1)) == Cell::Empty
            &&& after.at(shifted(p, d, 2)) == Cell::Empty
            &&& after.at(shifted(p, d, 3)) == Cell::Empty
            &&& after.at(shifted(p, d, 4)) == Cell::Occupied(color)
        }),
{
    crate::rules::lemma_shift_compose(p, d, 2, 1);
    crate::rules::lemma_shift_compose(p, d, 2, 2);
    assert(shifted(p, d, 0) == p);
    assert(hop_ok(b, p, d, color, 0));
    assert(hop_ok(b, p, d, color, 1));
    assert(chain_len_from(b, p, d, color, 2) == 2);
    assert(chain_len_from(b, p, d, color, 1) == 2);
    assert(chain_len(b, p, d, color) == 2);
    let dj = dir_jumps(b, p, d, color);
    assert(dj =~= seq![chain_jump(p, d, 1), chain_jump(p, d, 2)]);
    let ds = all_directions();
    assert(jumps_upto(b, p, color, 4) =~= dir_jumps(b, p, ds[0], color) + dir_jumps(b, p, ds[1], color)
        + dir_jumps(b, p, ds[2], color) + dir_jumps(b, p, ds[3], color)) by {
        reveal_with_fuel(jumps_upto, 5);
        assert(jumps_upto(b, p, color, 0) =~= Seq::<crate::rules::JumpView>::empty());
    }
    assert forall|e: Direction| e != d implies dir_jumps(b, p, e, color) =~= Seq::<crate::rules::JumpView>::empty() by {}
    match d {
        Direction::Up => {},
        Direction::Down => {},
        Direction::Left => {},
        Direction::Right => {},
    }
    assert(jumps_from(b, p, color) =~= seq![chain_jump(p, d, 1), chain_jump(p, d, 2)]);
    assert(chain_jump(p, d, 2).captured =~= seq![shifted(p, d, 1), shifted(p, d, 3)]);
    let caps = seq![shifted(p, d, 1), shifted(p, d, 3)];
    assert(caps[0] == shifted(p, d, 1));
    assert(caps[1] == shifted(p, d, 3));
    assert(caps.contains(shifted(p, d, 1)));
    assert(caps.contains(shifted(p, d, 3)));
    assert(!caps.contains(shifted(p, d, 2)));
    assert(!caps.contains(shifted(p, d, 4)));
    assert(!caps.contains(p));
}

} // verus!

verus! {

/// The record that taking action `a` in `m` leaves in a move log.
pub open spec fn record_of(m: GameModel, a: ActionView) -> MoveView {
    match a {
        ActionView::Removal(p) => MoveView::Removal { color: m.current_player, position: p },
        ActionView::Jump(j) => MoveView::Jump { color: m.current_player, from: j.from, to: j.to, captured: j.captured },
    }
}

pub open spec fn legal_action(m: GameModel, a: ActionView) -> bool {
    match a {
        ActionView::Removal(p) => legal_removal(m, p),
        ActionView::Jump(j) => legal_jump(m, j),
    }
}

/// The game after taking the first `k` of `actions` on a fresh board.
pub open spec fn play(n: nat, actions: Seq<ActionView>, k: nat) -> GameModel
    decreases k,
{
    if k == 0 {
        initial_model(n)
    } else {
        action_next(play(n, actions, (k - 1) as nat), actions[k - 1])
    }
}

/// Every one of the first `k` actions was legal when it was taken.
pub open spec fn legal_run(n: nat, actions: Seq<ActionView>, k: nat) -> bool {
    forall|i: nat| i < k ==> legal_action(play(n, actions, i), #[trigger] actions[i as int])
}

/// The move log of the first `k` actions.
pub open spec fn records(n: nat, actions: Seq<ActionView>, k: nat) -> Seq<MoveView> {
    Seq::new(k, |i: int| record_of(play(n, actions, i as nat), actions[i]))
}

proof fn lemma_listed_jump(b: BoardModel, p: Position, color: PieceColor, j: JumpView)
    requires
        b.wf(),
        jumps_from(b, p, color).contains(j),
    ensures
        j.from == p,
        b.in_bounds(p),
        b.in_bounds(j.to),
        j.captured.len() > 0,
        forall|i: int| 0 <= i < j.captured.len() ==> b.in_bounds(#[trigger] j.captured[i]),
        exists|m: nat| m < chain_len(b, p, j.direction, color) && j == #[trigger] chain_jump(p, j.direction, m + 1),
{
    let d = j.direction;
    lemma_in_jumps_upto(b, p, color, 4, j);
    let m = choose|m: nat| m < chain_len(b, p, d, color) && j == #[trigger] chain_jump(p, d, m + 1);
    lemma_chain_hops(b, p, d, color, 0, m);
    crate::rules::lemma_shift_compose(p, d, 2 * m as int, 2);
    assert forall|i: int| 0 <= i < j.captured.len() implies b.in_bounds(#[trigger] j.captured[i]) by {
        lemma_chain_hops(b, p, d, color, 0, i as nat);
        crate::rules::lemma_shift_compose(p, d, 2 * i, 1);
    }
}

/// Two listed jumps from one cell with the same landing cell and captures
/// are the same jump.
proof fn lemma_listed_jump_unique(b: BoardModel, p: Position, color: PieceColor, j: JumpView, c: JumpView)
    requires
        b.wf(),
        jumps_from(b, p, color).contains(j),
        jumps_from(b, p, color).contains(c),
        c.to == j.to,
    ensures
        c == j,
{
    lemma_listed_jump(b, p, color, j);
    lemma_listed_jump(b, p, color, c);
    let mj = choose|m: nat| m < chain_len(b, p, j.direction, color) && j == #[trigger] chain_jump(p, j.direction, m + 1);
    let mc = choose|m: nat| m < chain_len(b, p, c.direction, color) && c == #[trigger] chain_jump(p, c.direction, m + 1);
    lemma_chain_hops(b, p, j.direction, color, 0, mj);
    lemma_chain_hops(b, p, c.direction, color, 0, mc);
    crate::rules::lemma_shift_compose(p, j.direction, 2 * mj as int, 2);
    crate::rules::lemma_shift_compose(p, c.direction, 2 * mc as int, 2);
    assert(j.direction == c.direction);
    assert(c.captured =~= j.captured);
}

proof fn lemma_find_unique(cands: Seq<JumpView>, j: JumpView)
    requires
        cands.contains(j),
        forall|i: int| 0 <= i < cands.len() && (#[trigger] cands[i]).to == j.to ==> cands[i] == j,
    ensures
        find_jump(cands, j.to, j.captured) == Some(j),
    decreases cands.len(),
{
    if !(cands[0].to == j.to && cands[0].captured.to_set() == j.captured.to_set()) {
        let i = choose|i: int| 0 <= i < cands.len() && cands[i] == j;
        assert(i > 0);
        assert(cands.drop_first()[i - 1] == j);
        assert forall|x: int| 0 <= x < cands.drop_first().len() && (#[trigger] cands.drop_first()[x]).to == j.to
            implies cands.drop_first()[x] == j by {
            assert(cands.drop_first()[x] == cands[x + 1]);
        }
        lemma_find_unique(cands.drop_first(), j);
    }
}

proof fn lemma_all_on_board(b: BoardModel, ps: Seq<Position>)
    requires
        forall|i: int| 0 <= i < ps.len() ==> b.in_bounds(#[trigger] ps[i]),
    ensures
        first_off_board(b, ps) is None,
    decreases ps.len(),
{
    if ps.len() > 0 {
        assert(b.in_bounds(ps[0]));
        assert forall|i: int| 0 <= i < ps.drop_first().len() implies b.in_bounds(#[trigger] ps.drop_first()[i]) by {
            assert(ps.drop_first()[i] == ps[i + 1]);
        }
        lemma_all_on_board(b, ps.drop_first());
    }
}

proof fn lemma_kept_holds(s: Seq<Position>, b: BoardModel, color: PieceColor, p: Position)
    requires
        s.filter(holds(b, color)).contains(p),
    ensures
        b.color_at(p) == Some(color),
{
    let f = s.filter(holds(b, color));
    let i = choose|i: int| 0 <= i < f.len() && f[i] == p;
    s.lemma_filter_pred(holds(b, color), i);
}

/// The board of a successor keeps the shape of the board.
proof fn lemma_next_wf(m: GameModel, a: ActionView)
    requires
        m.board.wf(),
    ensures
        action_next(m, a).board.wf(),
        action_next(m, a).board.size == m.board.size,
{
    reveal(action_next);
    let nb = action_next(m, a).board;
    assert forall|r: int| 0 <= r < nb.size implies #[trigger] nb.cells[r].len() == nb.size by {
        assert(m.board.cells[r].len() == m.board.size);
    }
}

/// Replaying the record of a legal action takes the same step.
proof fn lemma_record_step(m: GameModel, a: ActionView)
    requires
        m.board.wf(),
        turn_matches_phase(m),
        legal_action(m, a),
    ensures
        replay_step(m, record_of(m, a)) == Ok::<GameModel, MoveError>(action_next(m, a)),
        turn_matches_phase(action_next(m, a)),
{
    reveal(replay_step);
    reveal(action_next);
    match a {
        ActionView::Removal(p) => {
            let b = m.board;
            if m.phase == GamePhase::OpeningBlackRemoval {
                let c = Board::centers(b.n() as int).filter(holds(b, PieceColor::Black));
                let k = Board::corners(b.n() as int).filter(holds(b, PieceColor::Black));
                let i = choose|i: int| 0 <= i < (c + k).len() && (c + k)[i] == p;
                if i < c.len() {
                    assert(c[i] == p);
                    lemma_kept_holds(Board::centers(b.n() as int), b, PieceColor::Black, p);
                } else {
                    assert(k[i - c.len()] == p);
                    lemma_kept_holds(Board::corners(b.n() as int), b, PieceColor::Black, p);
                }
            } else if m.phase == GamePhase::OpeningWhiteRemoval {
                let e = m.first_removal_pos->0;
                lemma_kept_holds(Board::neighbors(e, b.n() as int), b, PieceColor::White, p);
            }
        },
        ActionView::Jump(j) => {
            lemma_listed_jump(m.board, j.from, m.current_player, j);
            lemma_all_on_board(m.board, j.captured);
            let cands = jumps_from(m.board, j.from, m.current_player);
            assert forall|i: int| 0 <= i < cands.len() && (#[trigger] cands[i]).to == j.to implies cands[i] == j by {
                lemma_listed_jump_unique(m.board, j.from, m.current_player, j, cands[i]);
            }
            lemma_find_unique(cands, j);
        },
    }
}

proof fn lemma_legal_run_prefix(n: nat, actions: Seq<ActionView>, k: nat, j: nat)
    requires
        j <= k,
        legal_run(n, actions, k),
    ensures
        legal_run(n, actions, j),
{
    assert forall|i: nat| i < j implies legal_action(play(n, actions, i), #[trigger] actions[i as int]) by {
        assert(legal_action(play(n, actions, i), actions[i as int]));
    }
}

proof fn lemma_log_entry(n: nat, actions: Seq<ActionView>, j: nat)
    requires
        j < actions.len(),
    ensures
        records(n, actions, actions.len())[j as int] == record_of(play(n, actions, j), actions[j as int]),
{
}

/// Replaying the move log of a legal game from a fresh board reproduces the
/// game: the same board, cell for cell, and the same phase and turn.
pub proof fn lemma_replay_reproduces(n: nat, actions: Seq<ActionView>, k: nat)
    requires
        valid_board_size(n as int),
        k <= actions.len(),
        legal_run(n, actions, k),
    ensures
        replay(n, records(n, actions, actions.len()), k) == Ok::<GameModel, (nat, MoveError)>(
            play(n, actions, k),
        ),
        play(n, actions, k).board.wf(),
        turn_matches_phase(play(n, actions, k)),
    decreases k,
{
    if k == 0 {
        let b = play(n, actions, 0).board;
        assert forall|r: int| 0 <= r < b.size implies #[trigger] b.cells[r].len() == b.size by {}
    } else {
        let j = (k - 1) as nat;
        lemma_legal_run_prefix(n, actions, k, j);
        lemma_replay_reproduces(n, actions, j);
        let m = play(n, actions, j);
        let a = actions[j as int];
        assert(legal_action(m, a));
        lemma_log_entry(n, actions, j);
        lemma_record_step(m, a);
        lemma_next_wf(m, a);
        assert(play(n, actions, k) == action_next(m, a));
    }
}

/// A move that leaves the side to move next without a jump ends the game,
/// won by the side that just moved: White's opening removal when Black
/// then has no jump, and any jump when the opponent then has none.
pub proof fn lemma_no_reply_ends_game(m: GameModel, a: ActionView)
    requires
        turn_matches_phase(m),
        legal_action(m, a),
        m.phase == GamePhase::OpeningWhiteRemoval || m.phase == GamePhase::Play,
        crate::rules::all_jumps(action_next(m, a).board, m.current_player.opp()).len() == 0,
    ensures
        action_next(m, a).phase == (GamePhase::GameOver { winner: m.current_player }),
        action_next(m, a).current_player == m.current_player.opp(),
{
    reveal(action_next);
}

/// Every listed jump has the shape of a jump: it lands `2k` steps from its
/// origin along its direction, where `k` is the number of captures, and its
/// `i`-th capture is the cell `2i + 1` steps along, between two landings.
pub proof fn lemma_jump_shape(b: BoardModel, p: Position, color: PieceColor, j: JumpView)
    requires
        b.wf(),
        jumps_from(b, p, color).contains(j),
    ensures
        j.from == p,
        j.captured.len() > 0,
        j.to == shifted(p, j.direction, 2 * j.captured.len() as int),
        forall|i: int| 0 <= i < j.captured.len() ==> #[trigger] j.captured[i] == shifted(p, j.direction, 2 * i + 1),
{
    lemma_listed_jump(b, p, color, j);
}

/// The fingerprint of a game, computed from scratch.
pub open spec fn model_hash(m: GameModel) -> u64 {
    position_hash(m.board.cells, m.board.size, m.phase, m.current_player)
}

proof fn lemma_xor_chain(c: u64, k: u64, t: u64, tk: u64, p: u64, q: u64)
    ensures
        ((c ^ k) ^ (t ^ tk)) ^ q == (((((c ^ t) ^ p) ^ k) ^ tk) ^ p) ^ q,
{
    assert(((c ^ k) ^ (t ^ tk)) ^ q == (((((c ^ t) ^ p) ^ k) ^ tk) ^ p) ^ q) by (bit_vector);
}

/// Passing the turn toggles the turn key.
proof fn lemma_turn_part_flip(c: PieceColor)
    ensures
        turn_part(c.opp()) == turn_part(c) ^ turn_key(),
{
    lemma_xor(0, turn_key(), turn_key());
    lemma_xor(turn_key(), turn_key(), 0);
}

/// A legal opening removal takes a piece off the board.
proof fn lemma_removal_holds(m: GameModel, p: Position)
    requires
        legal_removal(m, p),
    ensures
        m.board.color_at(p) is Some,
{
    let b = m.board;
    if m.phase == GamePhase::OpeningBlackRemoval {
        let c = Board::centers(b.n() as int).filter(holds(b, PieceColor::Black));
        let k = Board::corners(b.n() as int).filter(holds(b, PieceColor::Black));
        let i = choose|i: int| 0 <= i < (c + k).len() && (c + k)[i] == p;
        if i < c.len() {
            assert(c[i] == p);
            lemma_kept_holds(Board::centers(b.n() as int), b, PieceColor::Black, p);
        } else {
            assert(k[i - c.len()] == p);
            lemma_kept_holds(Board::corners(b.n() as int), b, PieceColor::Black, p);
        }
    } else if m.phase == GamePhase::OpeningWhiteRemoval {
        let e = m.first_removal_pos->0;
        lemma_kept_holds(Board::neighbors(e, b.n() as int), b, PieceColor::White, p);
    }
}

/// The fingerprint after a legal opening removal is the fingerprint before
/// with the removed cell, the turn, and the old and new phases toggled, in
/// the order `remove_stone`, `end_turn`, `change_phase` toggle them.
pub proof fn lemma_removal_hash(m: GameModel, pos: Position)
    requires
        m.board.wf(),
        turn_matches_phase(m),
        legal_removal(m, pos),
    ensures
        model_hash(removal_next(m, pos)) == (((model_hash(m) ^ piece_key(pos_index(pos))) ^ turn_key())
            ^ phase_key(phase_index(m.phase))) ^ phase_key(phase_index(removal_next(m, pos).phase)),
{
    let b = m.board;
    let n = b.size;
    lemma_removal_holds(m, pos);
    lemma_cells_hash_update(b.cells, n, n, pos.row as int, pos.col as int, Cell::Empty);
    lemma_turn_part_flip(m.current_player);
    let m2 = removal_next(m, pos);
    assert(m2.current_player == m.current_player.opp());
    lemma_xor_chain(
        cells_hash(b.cells, n, n),
        piece_key(pos_index(pos)),
        turn_part(m.current_player),
        turn_key(),
        phase_key(phase_index(m.phase)),
        phase_key(phase_index(m2.phase)),
    );
}

/// `h` with the key of each of `ps` folded in, in order, as one
/// `remove_stone` per cell does.
pub open spec fn fold_keys(h: u64, ps: Seq<Position>) -> u64
    decreases ps.len(),
{
    if ps.len() == 0 {
        h
    } else {
        fold_keys(h, ps.drop_last()) ^ piece_key(pos_index(ps.last()))
    }
}

proof fn lemma_fold_shift(x: u64, y: u64, ps: Seq<Position>)
    ensures
        fold_keys(x ^ y, ps) == fold_keys(x, ps) ^ y,
    decreases ps.len(),
{
    if ps.len() == 0 {
    } else {
        lemma_fold_shift(x, y, ps.drop_last());
        lemma_xor(fold_keys(x, ps.drop_last()), y, piece_key(pos_index(ps.last())));
    }
}

proof fn lemma_xor_jump_chain(c: u64, kf: u64, kt: u64, t: u64, p: u64, tk: u64, q: u64, f: u64)
    ensures
        (((c ^ t) ^ p) ^ kf) ^ kt == ((c ^ kf) ^ kt) ^ (t ^ p),
        (((f ^ (t ^ p)) ^ tk) ^ p) ^ q == (f ^ (t ^ tk)) ^ q,
{
    assert((((c ^ t) ^ p) ^ kf) ^ kt == ((c ^ kf) ^ kt) ^ (t ^ p)) by (bit_vector);
    assert((((f ^ (t ^ p)) ^ tk) ^ p) ^ q == (f ^ (t ^ tk)) ^ q) by (bit_vector);
}

/// Cells at different distances along a line of the board are different.
proof fn lemma_shift_distinct(p: Position, d: Direction, a: int, b: int, n: int)
    requires
        a != b,
        n <= 16,
        on_board(shifted_row(p, d, a), shifted_col(p, d, a), n),
        on_board(shifted_row(p, d, b), shifted_col(p, d, b), n),
    ensures
        shifted(p, d, a) != shifted(p, d, b),
{
    match d {
        Direction::Up => assert(shifted(p, d, a).row != shifted(p, d, b).row),
        Direction::Down => assert(shifted(p, d, a).row != shifted(p, d, b).row),
        Direction::Left => assert(shifted(p, d, a).col != shifted(p, d, b).col),
        Direction::Right => assert(shifted(p, d, a).col != shifted(p, d, b).col),
    }
}

/// Capturing one more cell empties it and changes nothing else.
proof fn lemma_after_jump_step(
    cells: Seq<Seq<Cell>>,
    from: Position,
    to: Position,
    caps: Seq<Position>,
    i: int,
    color: PieceColor,
)
    requires
        0 <= i < caps.len(),
        cells.len() <= 16,
        forall|r: int| 0 <= r < cells.len() ==> #[trigger] cells[r].len() <= 16,
        caps[i].row < cells.len(),
        caps[i].col < cells[caps[i].row as int].len(),
    ensures
        after_jump(cells, from, to, caps.take(i + 1), color) =~~= after_jump(cells, from, to, caps.take(i), color).update(
            caps[i].row as int,
            after_jump(cells, from, to, caps.take(i), color)[caps[i].row as int].update(
                caps[i].col as int,
                Cell::Empty,
            ),
        ),
{
    let t0 = caps.take(i);
    let t1 = caps.take(i + 1);
    let c = caps[i];
    assert(t1 =~= t0.push(c));
    assert forall|q: Position| #[trigger] t1.contains(q) <==> (t0.contains(q) || q == c) by {
        if t1.contains(q) {
            let k = choose|k: int| 0 <= k < t1.len() && t1[k] == q;
            if k < i {
                assert(t0[k] == q);
            }
        }
        if t0.contains(q) {
            let k = choose|k: int| 0 <= k < t0.len() && t0[k] == q;
            assert(t1[k] == q);
        }
        if q == c {
            assert(t1[i] == q);
        }
    }
    let before = after_jump(cells, from, to, t0, color);
    let after = after_jump(cells, from, to, t1, color);
    assert forall|r: int| 0 <= r < cells.len() implies after[r] =~= before.update(
        c.row as int,
        before[c.row as int].update(c.col as int, Cell::Empty),
    )[r] by {
        assert forall|c2: int| 0 <= c2 < cells[r].len() implies after[r][c2] == before.update(
            c.row as int,
            before[c.row as int].update(c.col as int, Cell::Empty),
        )[r][c2] by {
            let q = Position { row: r as usize, col: c2 as usize };
            if q == c {
                assert(r == c.row && c2 == c.col);
            } else {
                assert(!(r == c.row && c2 == c.col));
            }
        }
    }
}

/// The fingerprint after a legal jump is the fingerprint before with the
/// start and landing cells, each captured cell in order, the turn, and the
/// old and new phases toggled, in the order `move_stone`, `remove_stone`
/// per capture, `end_turn` and `change_phase` toggle them.
pub proof fn lemma_jump_hash(m: GameModel, j: JumpView)
    requires
        m.board.wf(),
        legal_jump(m, j),
    ensures
        model_hash(jump_next(m, j)) == ((fold_keys(
            (model_hash(m) ^ piece_key(pos_index(j.from))) ^ piece_key(pos_index(j.to)),
            j.captured,
        ) ^ turn_key()) ^ phase_key(phase_index(m.phase))) ^ phase_key(phase_index(jump_next(m, j).phase)),
{
    let b = m.board;
    let n = b.size;
    let cells = b.cells;
    let color = m.current_player;
    let p = j.from;
    let d = j.direction;
    let caps = j.captured;
    lemma_listed_jump(b, p, color, j);
    let mm = choose|x: nat| x < chain_len(b, p, d, color) && j == #[trigger] chain_jump(p, d, x + 1);
    assert(shifted(p, d, 0) == p);
    // The cells the jump touches, and what they held.
    lemma_chain_hops(b, p, d, color, 0, mm);
    crate::rules::lemma_shift_compose(p, d, 2 * mm as int, 2);
    assert(on_board(shifted_row(p, d, 0), shifted_col(p, d, 0), n as int));
    assert forall|i: int| 0 <= i < caps.len() implies {
        &&& on_board(shifted_row(p, d, 2 * i + 1), shifted_col(p, d, 2 * i + 1), n as int)
        &&& #[trigger] caps[i] == shifted(p, d, 2 * i + 1)
        &&& b.at(caps[i]) == Cell::Occupied(color.opp())
    } by {
        lemma_chain_hops(b, p, d, color, 0, i as nat);
        crate::rules::lemma_shift_compose(p, d, 2 * i, 1);
    }
    let kf = piece_key(pos_index(p));
    let kt = piece_key(pos_index(j.to));
    // Start and landing cells.
    let c0 = cells;
    let c1 = c0.update(p.row as int, c0[p.row as int].update(p.col as int, Cell::Empty));
    let c2 = c1.update(j.to.row as int, c1[j.to.row as int].update(j.to.col as int, Cell::Occupied(color)));
    lemma_shift_distinct(p, d, 0, (2 * (mm + 1)) as int, n as int);
    lemma_cells_hash_update(c0, n, n, p.row as int, p.col as int, Cell::Empty);
    assert(c1.len() == n);
    assert forall|r: int| 0 <= r < n implies #[trigger] c1[r].len() == n by {
        assert(cells[r].len() == n);
    }
    lemma_cells_hash_update(c1, n, n, j.to.row as int, j.to.col as int, Cell::Occupied(color));
    assert(c2 =~~= after_jump(cells, p, j.to, caps.take(0), color));
    assert(caps.take(0) =~= Seq::<Position>::empty());
    let base = (cells_hash(cells, n, n) ^ kf) ^ kt;
    lemma_capture_hash(cells, n, p, d, j.to, caps, color, base, caps.len());
    assert(caps.take(caps.len() as int) =~= caps);
    let m2 = jump_next(m, j);
    assert(m2.board.cells == after_jump(cells, p, j.to, caps, color));
    lemma_turn_part_flip(color);
    let t = turn_part(color);
    let ph = phase_key(phase_index(m.phase));
    let q = phase_key(phase_index(m2.phase));
    lemma_xor_jump_chain(cells_hash(cells, n, n), kf, kt, t, ph, turn_key(), q, fold_keys(base, caps));
    lemma_fold_shift(base, t ^ ph, caps);
}

/// Each capture, in order, toggles the key of its cell.
proof fn lemma_capture_hash(
    cells: Seq<Seq<Cell>>,
    n: nat,
    p: Position,
    d: Direction,
    to: Position,
    caps: Seq<Position>,
    color: PieceColor,
    base: u64,
    i: nat,
)
    requires
        i <= caps.len(),
        n <= 16,
        cells.len() == n,
        forall|r: int| 0 <= r < n ==> #[trigger] cells[r].len() == n,
        on_board(shifted_row(p, d, 0), shifted_col(p, d, 0), n as int),
        shifted(p, d, 0) == p,
        on_board(shifted_row(p, d, 2 * caps.len() as int), shifted_col(p, d, 2 * caps.len() as int), n as int),
        to == shifted(p, d, 2 * caps.len() as int),
        forall|k: int|
            0 <= k < caps.len() ==> {
                &&& on_board(shifted_row(p, d, 2 * k + 1), shifted_col(p, d, 2 * k + 1), n as int)
                &&& #[trigger] caps[k] == shifted(p, d, 2 * k + 1)
                &&& cells[caps[k].row as int][caps[k].col as int] is Occupied
            },
        cells_hash(after_jump(cells, p, to, caps.take(0), color), n, n) == base,
    ensures
        cells_hash(after_jump(cells, p, to, caps.take(i as int), color), n, n) == fold_keys(base, caps.take(i as int)),
    decreases i,
{
    if i == 0 {
        assert(caps.take(0) =~= Seq::<Position>::empty());
    } else {
        let k = (i - 1) as int;
        lemma_capture_hash(cells, n, p, d, to, caps, color, base, (i - 1) as nat);
        let c = caps[k];
        assert(c == shifted(p, d, 2 * k + 1));
        lemma_after_jump_step(cells, p, to, caps, k, color);
        let prev = after_jump(cells, p, to, caps.take(k), color);
        assert(prev.len() == n);
        assert forall|r: int| 0 <= r < n implies #[trigger] prev[r].len() == n by {
            assert(cells[r].len() == n);
        }
        // The captured cell still holds its piece before it is captured.
        assert(!caps.take(k).contains(c)) by {
            if caps.take(k).contains(c) {
                let x = choose|x: int| 0 <= x < caps.take(k).len() && caps.take(k)[x] == c;
                assert(caps[x] == shifted(p, d, 2 * x + 1));
                lemma_shift_distinct(p, d, 2 * x + 1, 2 * k + 1, n as int);
            }
        }
        lemma_shift_distinct(p, d, 2 * k + 1, 2 * caps.len() as int, n as int);
        lemma_shift_distinct(p, d, 2 * k + 1, 0, n as int);
        assert(prev[c.row as int][c.col as int] == cells[c.row as int][c.col as int]);
        lemma_cells_hash_update(prev, n, n, c.row as int, c.col as int, Cell::Empty);
        assert(caps.take(i as int).drop_last() =~= caps.take(k));
        assert(caps.take(i as int).last() == c);
    }
}

} // verus!
