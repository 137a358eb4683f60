//! The rules engine: opening removals, jump enumeration with chained
//! captures, and applying moves to a game state.

use vstd::prelude::*;
use crate::state::{
    all_directions, on_board, shifted, shifted_col, shifted_row, Board, BoardModel, Cell, Direction, GameModel, GamePhase,
    GameState, MoveRecord, PieceColor, Position,
};

verus! {

/// A jump: a piece hops from `from` to `to` along `direction`, capturing
/// the pieces in `captured`, in the order they are jumped.
#[derive(Debug)]
pub struct Jump {
    pub from: Position,
    pub to: Position,
    pub direction: Direction,
    pub captured: Vec<Position>,
}

/// The mathematical content of a jump.
pub struct JumpView {
    pub from: Position,
    pub to: Position,
    pub direction: Direction,
    pub captured: Seq<Position>,
}

impl View for Jump {
    type V = JumpView;

    open spec fn view(&self) -> JumpView {
        JumpView { from: self.from, to: self.to, direction: self.direction, captured: self.captured@ }
    }
}

impl Clone for Jump {
    fn clone(&self) -> (r: Self)
        ensures
            r@ == self@,
    {
        let captured = self.captured.clone();
        assert(captured@ =~= self.captured@);
        Jump { from: self.from, to: self.to, direction: self.direction, captured }
    }
}

/// Error of a move that the rules do not allow; the state is left unchanged.
#[derive(Debug, Clone, Copy, PartialEq, Eq, Structural)]
pub enum RuleError {
    InvalidBlackRemoval,
    InvalidWhiteRemoval,
    NotInOpening,
    InvalidJump,
}

pub open spec fn rule_text(e: RuleError) -> Seq<char> {
    match e {
        RuleError::InvalidBlackRemoval => "Invalid removal position for Black"@,
        RuleError::InvalidWhiteRemoval => "Invalid removal position for White"@,
        RuleError::NotInOpening => "Not in opening phase"@,
        RuleError::InvalidJump => "Invalid jump"@,
    }
}

impl RuleError {
    pub fn message(&self) -> (r: &'static str)
        ensures
            r@ == rule_text(*self),
    {
        match self {
            RuleError::InvalidBlackRemoval => "Invalid removal position for Black",
            RuleError::InvalidWhiteRemoval => "Invalid removal position for White",
            RuleError::NotInOpening => "Not in opening phase",
            RuleError::InvalidJump => "Invalid jump",
        }
    }
}

// ---------------------------------------------------------------------------
// Specification of legal moves
// ---------------------------------------------------------------------------

/// A single hop from `q` along `d`: an opposing piece next to `q`, then an
/// empty cell just beyond it.
pub open spec fn single_hop(b: BoardModel, q: Position, d: Direction, color: PieceColor) -> bool {
    let n = b.n() as int;
    &&& on_board(shifted_row(q, d, 1), shifted_col(q, d, 1), n)
    &&& on_board(shifted_row(q, d, 2), shifted_col(q, d, 2), n)
    &&& b.at(shifted(q, d, 1)) == Cell::Occupied(color.opp())
    &&& b.at(shifted(q, d, 2)) == Cell::Empty
}

/// The `k+1`-th hop of a chain from `p` along `d` is possible.
pub open spec fn hop_ok(b: BoardModel, p: Position, d: Direction, color: PieceColor, k: nat) -> bool {
    &&& on_board(shifted_row(p, d, 2 * k as int), shifted_col(p, d, 2 * k as int), b.n() as int)
    &&& single_hop(b, shifted(p, d, 2 * k as int), d, color)
}

/// Number of hops a chain from `p` along `d` can make, counting from `k`.
pub open spec fn chain_len_from(b: BoardModel, p: Position, d: Direction, color: PieceColor, k: nat) -> nat
    decreases b.n() - 2 * k,
{
    if 2 * k + 2 <= b.n() && hop_ok(b, p, d, color, k) {
        chain_len_from(b, p, d, color, k + 1)
    } else {
        k
    }
}

/// The longest capture chain from `p` along `d`.
pub open spec fn chain_len(b: BoardModel, p: Position, d: Direction, color: PieceColor) -> nat {
    chain_len_from(b, p, d, color, 0)
}

/// The jump from `p` along `d` that makes `k` captures.
pub open spec fn chain_jump(p: Position, d: Direction, k: nat) -> JumpView {
    JumpView {
        from: p,
        to: shifted(p, d, 2 * k as int),
        direction: d,
        captured: Seq::new(k, |i: int| shifted(p, d, 2 * i + 1)),
    }
}

/// The jumps from `p` along `d`: one per chain length, shortest first.
pub open spec fn dir_jumps(b: BoardModel, p: Position, d: Direction, color: PieceColor) -> Seq<JumpView> {
    Seq::new(chain_len(b, p, d, color), |i: int| chain_jump(p, d, (i + 1) as nat))
}

/// The jumps from `p` along the first `i` directions of `all_directions()`.
pub open spec fn jumps_upto(b: BoardModel, p: Position, color: PieceColor, i: nat) -> Seq<JumpView>
    decreases i,
{
    if i == 0 {
        Seq::empty()
    } else {
        jumps_upto(b, p, color, (i - 1) as nat) + dir_jumps(b, p, all_directions()[i - 1], color)
    }
}

/// Every legal jump of a `color` piece standing on `p`: Up, Down, Left,
/// Right, and within a direction by the number of captures.  None unless
/// `p` holds a piece of `color`.
pub open spec fn jumps_from(b: BoardModel, p: Position, color: PieceColor) -> Seq<JumpView> {
    if b.color_at(p) == Some(color) {
        jumps_upto(b, p, color, 4)
    } else {
        Seq::empty()
    }
}

pub open spec fn views(js: Seq<Jump>) -> Seq<JumpView> {
    js.map_values(|j: Jump| j@)
}

/// The jumps of the first `c` cells of row `row`, left to right.
pub open spec fn row_jumps(b: BoardModel, color: PieceColor, row: nat, c: nat) -> Seq<JumpView>
    decreases c,
{
    if c == 0 {
        Seq::empty()
    } else {
        row_jumps(b, color, row, (c - 1) as nat) + jumps_from(
            b,
            Position { row: row as usize, col: (c - 1) as usize },
            color,
        )
    }
}

/// The jumps of the first `r` rows, bottom to top.
pub open spec fn rows_jumps(b: BoardModel, color: PieceColor, r: nat) -> Seq<JumpView>
    decreases r,
{
    if r == 0 {
        Seq::empty()
    } else {
        rows_jumps(b, color, (r - 1) as nat) + row_jumps(b, color, (r - 1) as nat, b.n())
    }
}

/// Every legal jump of `color`, cell by cell in row-major order.
pub open spec fn all_jumps(b: BoardModel, color: PieceColor) -> Seq<JumpView> {
    rows_jumps(b, color, b.n())
}

/// The cells of the first `c` of row `row` whose piece can jump.
pub open spec fn row_movable(b: BoardModel, color: PieceColor, row: nat, c: nat) -> Seq<Position>
    decreases c,
{
    if c == 0 {
        Seq::empty()
    } else {
        let pre = row_movable(b, color, row, (c - 1) as nat);
        let q = Position { row: row as usize, col: (c - 1) as usize };
        if jumps_from(b, q, color).len() > 0 {
            pre.push(q)
        } else {
            pre
        }
    }
}

pub open spec fn rows_movable(b: BoardModel, color: PieceColor, r: nat) -> Seq<Position>
    decreases r,
{
    if r == 0 {
        Seq::empty()
    } else {
        rows_movable(b, color, (r - 1) as nat) + row_movable(b, color, (r - 1) as nat, b.n())
    }
}

/// The cells, in row-major order, whose piece of `color` has a jump.
pub open spec fn movable(b: BoardModel, color: PieceColor) -> Seq<Position> {
    rows_movable(b, color, b.n())
}

pub open spec fn holds(b: BoardModel, color: PieceColor) -> spec_fn(Position) -> bool {
    |p: Position| b.color_at(p) == Some(color)
}

/// Black's opening candidates: the centre cells, then the corners, that
/// hold a Black piece.
pub open spec fn black_removals(b: BoardModel) -> Seq<Position> {
    Board::centers(b.n() as int).filter(holds(b, PieceColor::Black)) + Board::corners(
        b.n() as int,
    ).filter(holds(b, PieceColor::Black))
}

/// White's opening candidates: the White-held neighbours of the cell that
/// Black vacated; none before Black's removal.
pub open spec fn white_removals(b: BoardModel, first: Option<Position>) -> Seq<Position> {
    match first {
        Some(e) => Board::neighbors(e, b.n() as int).filter(holds(b, PieceColor::White)),
        None => Seq::empty(),
    }
}

/// The opening candidates of the side to move in an opening phase.
pub open spec fn removals(s: GameModel) -> Seq<Position> {
    match s.phase {
        GamePhase::OpeningBlackRemoval => black_removals(s.board),
        GamePhase::OpeningWhiteRemoval => white_removals(s.board, s.first_removal_pos),
        _ => Seq::empty(),
    }
}

/// Whether the side to move has a legal move.
pub open spec fn has_move(s: GameModel) -> bool {
    match s.phase {
        GamePhase::OpeningBlackRemoval => black_removals(s.board).len() > 0,
        GamePhase::OpeningWhiteRemoval => white_removals(s.board, s.first_removal_pos).len() > 0,
        GamePhase::Play => all_jumps(s.board, s.current_player).len() > 0,
        _ => false,
    }
}
/// The board after a jump by `color` from `from` to `to` over `captured`:
/// the captured cells empty, the landing cell holding the mover, the
/// starting cell empty.
pub open spec fn after_jump(
    cells: Seq<Seq<Cell>>,
    from: Position,
    to: Position,
    captured: Seq<Position>,
    color: PieceColor,
) -> Seq<Seq<Cell>> {
    Seq::new(
        cells.len(),
        |r: int|
            Seq::new(
                cells[r].len(),
                |c: int|
                    {
                        let q = Position { row: r as usize, col: c as usize };
                        if captured.contains(q) {
                            Cell::Empty
                        } else if q == to {
                            Cell::Occupied(color)
                        } else if q == from {
                            Cell::Empty
                        } else {
                            cells[r][c]
                        }
                    },
            ),
    )
}

/// The board with the cell at `p` emptied.
pub open spec fn emptied(b: BoardModel, p: Position) -> Seq<Seq<Cell>> {
    b.with(p, Cell::Empty)
}

/// A legal jump for the side to move.
pub open spec fn legal_jump(s: GameModel, j: JumpView) -> bool {
    s.phase == GamePhase::Play && jumps_from(s.board, j.from, s.current_player).contains(j)
}

/// Whether `pos` is a legal opening removal for the side to move.
pub open spec fn legal_removal(s: GameModel, pos: Position) -> bool {
    removals(s).contains(pos)
}

/// The game after an opening removal at `pos`: Black's removal records the
/// vacated cell and hands the move to White; White's starts play with Black
/// to move, or ends the game in White's favour when Black has no jump.  A
/// removal that is not legal changes nothing.
pub open spec fn removal_next(s: GameModel, pos: Position) -> GameModel {
    if !legal_removal(s, pos) {
        s
    } else {
        let board = BoardModel { size: s.board.size, cells: emptied(s.board, pos) };
        if s.phase == GamePhase::OpeningBlackRemoval {
            GameModel {
                board,
                phase: GamePhase::OpeningWhiteRemoval,
                current_player: PieceColor::White,
                first_removal_pos: Some(pos),
            }
        } else {
            GameModel {
                board,
                phase: if all_jumps(board, PieceColor::Black).len() > 0 {
                    GamePhase::Play
                } else {
                    GamePhase::GameOver { winner: PieceColor::White }
                },
                current_player: PieceColor::Black,
                first_removal_pos: s.first_removal_pos,
            }
        }
    }
}

/// What an opening removal at `pos` returns: the record of the removal, or
/// the error of the phase.
pub open spec fn removal_result(s: GameModel, pos: Position, r: Result<MoveRecord, RuleError>) -> bool {
    match s.phase {
        GamePhase::OpeningBlackRemoval => if legal_removal(s, pos) {
            r matches Ok(MoveRecord::OpeningRemoval { color, position }) && color == PieceColor::Black
                && position == pos
        } else {
            r == Err::<MoveRecord, RuleError>(RuleError::InvalidBlackRemoval)
        },
        GamePhase::OpeningWhiteRemoval => if legal_removal(s, pos) {
            r matches Ok(MoveRecord::OpeningRemoval { color, position }) && color == PieceColor::White
                && position == pos
        } else {
            r == Err::<MoveRecord, RuleError>(RuleError::InvalidWhiteRemoval)
        },
        _ => r == Err::<MoveRecord, RuleError>(RuleError::NotInOpening),
    }
}

/// The game after jump `j`: the board of `after_jump`, the turn passed, and
/// the game over in the mover's favour when the opponent has no jump.  A
/// jump that is not legal changes nothing.
pub open spec fn jump_next(s: GameModel, j: JumpView) -> GameModel {
    if !legal_jump(s, j) {
        s
    } else {
        let board = BoardModel {
            size: s.board.size,
            cells: after_jump(s.board.cells, j.from, j.to, j.captured, s.current_player),
        };
        let next = s.current_player.opp();
        GameModel {
            board,
            phase: if all_jumps(board, next).len() > 0 {
                GamePhase::Play
            } else {
                GamePhase::GameOver { winner: s.current_player }
            },
            current_player: next,
            first_removal_pos: s.first_removal_pos,
        }
    }
}

/// What applying jump `j` returns.
pub open spec fn jump_result(s: GameModel, j: JumpView, r: Result<MoveRecord, RuleError>) -> bool {
    if legal_jump(s, j) {
        r matches Ok(MoveRecord::Jump { color, from, to, captured }) && color == s.current_player
            && from == j.from && to == j.to && captured@ == j.captured
    } else {
        r == Err::<MoveRecord, RuleError>(RuleError::InvalidJump)
    }
}

// ---------------------------------------------------------------------------
// Lemmas
// ---------------------------------------------------------------------------

pub proof fn lemma_shift_compose(p: Position, d: Direction, a: int, m: int)
    requires
        on_board(shifted_row(p, d, a), shifted_col(p, d, a), 17),
    ensures
        shifted_row(shifted(p, d, a), d, m) == shifted_row(p, d, a + m),
        shifted_col(shifted(p, d, a), d, m) == shifted_col(p, d, a + m),
        shifted(shifted(p, d, a), d, m) == shifted(p, d, a + m),
{
    match d {
        Direction::Up => {},
        Direction::Down => {},
        Direction::Left => {},
        Direction::Right => {},
    }
}

pub proof fn lemma_chain_hops(b: BoardModel, p: Position, d: Direction, color: PieceColor, k: nat, m: nat)
    requires
        k <= m < chain_len_from(b, p, d, color, k),
    ensures
        hop_ok(b, p, d, color, m),
        2 * m + 2 <= b.n(),
    decreases b.n() - 2 * k,
{
    if 2 * k + 2 <= b.n() && hop_ok(b, p, d, color, k) {
        if m > k {
            lemma_chain_hops(b, p, d, color, k + 1, m);
        }
    }
}

/// A jump listed for the first `i` directions is a chain jump along its
/// own direction.
pub proof fn lemma_in_jumps_upto(b: BoardModel, p: Position, color: PieceColor, i: nat, j: JumpView)
    requires
        i <= 4,
        jumps_upto(b, p, color, i).contains(j),
    ensures
        exists|m: nat| m < chain_len(b, p, j.direction, color) && j == #[trigger] chain_jump(p, j.direction, m + 1),
    decreases i,
{
    if i > 0 {
        let pre = jumps_upto(b, p, color, (i - 1) as nat);
        let d = all_directions()[i - 1];
        let dj = dir_jumps(b, p, d, color);
        let idx = choose|idx: int| 0 <= idx < pre.len() + dj.len() && (pre + dj)[idx] == j;
        if idx < pre.len() {
            assert(pre[idx] == j);
            lemma_in_jumps_upto(b, p, color, (i - 1) as nat, j);
        } else {
            let x = idx - pre.len();
            assert(dj[x] == j);
            assert(j == chain_jump(p, d, (x + 1) as nat));
            assert(j.direction == d);
            assert((x as nat) < chain_len(b, p, j.direction, color) && j == chain_jump(p, j.direction, x as nat + 1));
        }
    }
}

/// Every jump listed from `p` starts at `p`.
pub proof fn lemma_jump_from_origin(b: BoardModel, p: Position, color: PieceColor, j: JumpView)
    requires
        jumps_from(b, p, color).contains(j),
    ensures
        j.from == p,
{
    lemma_in_jumps_upto(b, p, color, 4, j);
}

/// The cells that a legal jump touches are all on the board.
proof fn lemma_jump_on_board(s: GameState, j: JumpView)
    requires
        s.wf(),
        legal_jump(s.model(), j),
    ensures
        s.board.in_bounds(j.from),
        s.board.in_bounds(j.to),
        forall|i: int| 0 <= i < j.captured.len() ==> s.board.in_bounds(#[trigger] j.captured[i]),
{
    let b = s.board@;
    let color = s.current_player;
    let p = j.from;
    let d = j.direction;
    assert(b.color_at(p) == Some(color));
    lemma_in_jumps_upto(b, p, color, 4, j);
    let m = choose|m: nat| m < chain_len(b, p, d, color) && j == #[trigger] chain_jump(p, d, m + 1);
    lemma_chain_hops(b, p, d, color, 0, m);
    lemma_shift_compose(p, d, 2 * m as int, 2);
    assert forall|i: int| 0 <= i < j.captured.len() implies b.in_bounds(#[trigger] j.captured[i]) by {
        lemma_chain_hops(b, p, d, color, 0, i as nat);
        lemma_shift_compose(p, d, 2 * i, 1);
    }
}

// ---------------------------------------------------------------------------
// Executable rules
// ---------------------------------------------------------------------------

/// Appends to `out` the cells of `cands` that hold a piece of `color`.
fn push_holding(board: &Board, out: &mut Vec<Position>, cands: &Vec<Position>, color: PieceColor)
    requires
        board.wf(),
    ensures
        final(out)@ == old(out)@ + cands@.filter(holds(board@, color)),
{
    let ghost start = out@;
    let mut i: usize = 0;
    assert(cands@.take(0).filter(holds(board@, color)) =~= Seq::<Position>::empty());
    assert(out@ =~= start + cands@.take(0).filter(holds(board@, color)));
    while i < cands.len()
        invariant
            board.wf(),
            i <= cands.len(),
            out@ == start + cands@.take(i as int).filter(holds(board@, color)),
        decreases cands.len() - i,
    {
        let p = cands[i];
        proof {
            assert(cands@.take(i as int + 1) =~= cands@.take(i as int).push(p));
            cands@.take(i as int).lemma_filter_push(p, holds(board@, color));
        }
        if board.get_piece_color(p) == Some(color) {
            out.push(p);
        }
        assert(out@ =~= start + cands@.take(i as int + 1).filter(holds(board@, color)));
        i = i + 1;
    }
    assert(cands@.take(cands.len() as int) =~= cands@);
}

/// Whether `p` is one of `v`'s elements.
pub fn contains_position(v: &Vec<Position>, p: Position) -> (r: bool)
    ensures
        r == v@.contains(p),
{
    let mut i: usize = 0;
    while i < v.len()
        invariant
            i <= v.len(),
            forall|j: int| 0 <= j < i ==> v@[j] != p,
        decreases v.len() - i,
    {
        if v[i] == p {
            assert(v@[i as int] == p);
            return true;
        }
        i = i + 1;
    }
    false
}

/// Whether two jumps are the same, field by field.
fn same_jump(a: &Jump, b: &Jump) -> (r: bool)
    ensures
        r == (a@ == b@),
{
    if a.from != b.from || a.to != b.to || a.direction != b.direction {
        return false;
    }
    if a.captured.len() != b.captured.len() {
        return false;
    }
    let mut i: usize = 0;
    while i < a.captured.len()
        invariant
            i <= a.captured.len(),
            a.captured.len() == b.captured.len(),
            forall|k: int| 0 <= k < i ==> a.captured@[k] == b.captured@[k],
        decreases a.captured.len() - i,
    {
        if a.captured[i] != b.captured[i] {
            return false;
        }
        i = i + 1;
    }
    assert(a.captured@ =~= b.captured@);
    true
}

/// A candidate kept by the colour filter holds a piece of that colour.
proof fn lemma_candidate_holds(b: BoardModel, kept: Seq<Position>, color: PieceColor, p: Position)
    requires
        kept.contains(p),
        forall|i: int| 0 <= i < kept.len() ==> b.color_at(#[trigger] kept[i]) == Some(color),
    ensures
        b.in_bounds(p),
{
    let i = choose|i: int| 0 <= i < kept.len() && kept[i] == p;
    assert(b.color_at(kept[i]) == Some(color));
}

pub struct Rules;

impl Rules {
    /// Every legal jump of the piece on `from`, for the side to move only:
    /// for each direction, one jump per length of the capture chain, the
    /// shortest first (a chain may stop after any capture; it never turns).
    pub fn valid_jumps_from(state: &GameState, from: Position) -> (r: Vec<Jump>)
        requires
            state.wf(),
        ensures
            views(r@) == jumps_from(state.board@, from, state.current_player),
    {
        let board = &state.board;
        let player = state.current_player;
        if board.get_piece_color(from) != Some(player) {
            let r: Vec<Jump> = Vec::new();
            assert(views(r@) =~= Seq::<JumpView>::empty());
            return r;
        }
        let dirs = Direction::all();
        let mut jumps: Vec<Jump> = Vec::new();
        assert(views(jumps@) =~= jumps_upto(board@, from, player, 0));
        let mut i: usize = 0;
        while i < 4
            invariant
                board.wf(),
                i <= 4,
                dirs@ == all_directions(),
                board.in_bounds(from),
                board@.color_at(from) == Some(player),
                views(jumps@) == jumps_upto(board@, from, player, i as nat),
            decreases 4 - i,
        {
            let direction = dirs[i];
            let mut captured: Vec<Position> = Vec::new();
            let mut current = from;
            let mut k: usize = 0;
            let ghost base = views(jumps@);
            assert(captured@ =~= Seq::new(0, |j: int| shifted(from, direction, 2 * j + 1)));
            assert(views(jumps@) =~= base + Seq::new(0, |j: int| chain_jump(from, direction, (j + 1) as nat)));
            loop
                invariant
                    board.wf(),
                    board.in_bounds(from),
                    i < 4,
                    direction == all_directions()[i as int],
                    base == jumps_upto(board@, from, player, i as nat),
                    2 * k <= board.n(),
                    current == shifted(from, direction, 2 * k as int),
                    on_board(
                        shifted_row(from, direction, 2 * k as int),
                        shifted_col(from, direction, 2 * k as int),
                        board.n() as int,
                    ),
                    captured@ == Seq::new(k as nat, |j: int| shifted(from, direction, 2 * j + 1)),
                    chain_len(board@, from, direction, player) == chain_len_from(
                        board@,
                        from,
                        direction,
                        player,
                        k as nat,
                    ),
                    views(jumps@) == base + Seq::new(
                        k as nat,
                        |j: int| chain_jump(from, direction, (j + 1) as nat),
                    ),
                ensures
                    views(jumps@) == base + dir_jumps(board@, from, direction, player),
                decreases board.n() - 2 * k,
            {
                proof {
                    assert(shifted(from, direction, 0) == from);
                }
                match Self::is_valid_single_jump(board, current, direction, player) {
                    Some((over, to)) => {
                        proof {
                            lemma_shift_compose(from, direction, 2 * k as int, 1);
                            lemma_shift_compose(from, direction, 2 * k as int, 2);
                            assert(hop_ok(board@, from, direction, player, k as nat));
                        }
                        let ghost old_views = views(jumps@);
                        let ghost old_captured = captured@;
                        captured.push(over);
                        current = to;
                        k = k + 1;
                        let c = captured.clone();
                        assert(c@ =~= captured@);
                        let jump = Jump { from, to: current, direction, captured: c };
                        assert(jump@ == chain_jump(from, direction, k as nat)) by {
                            assert(captured@ =~= Seq::new(
                                k as nat,
                                |j: int| shifted(from, direction, 2 * j + 1),
                            ));
                        }
                        jumps.push(jump);
                        assert(captured@ =~= Seq::new(k as nat, |j: int| shifted(from, direction, 2 * j + 1)));
                        assert(views(jumps@) =~= base + Seq::new(
                            k as nat,
                            |j: int| chain_jump(from, direction, (j + 1) as nat),
                        )) by {
                            assert(views(jumps@) =~= old_views.push(jump@));
                        }
                    },
                    None => {
                        assert(views(jumps@) =~= base + dir_jumps(board@, from, direction, player));
                        break;
                    },
                }
            }
            i = i + 1;
        }
        jumps
    }

    /// Black's opening candidates: centre cells, then corners, holding Black.
    pub fn valid_black_opening_removals(state: &GameState) -> (r: Vec<Position>)
        requires
            state.wf(),
        ensures
            r@ == black_removals(state.board@),
    {
        let mut positions = Vec::new();
        let centers = state.board.center_positions();
        push_holding(&state.board, &mut positions, &centers, PieceColor::Black);
        let corners = state.board.corner_positions();
        push_holding(&state.board, &mut positions, &corners, PieceColor::Black);
        assert(positions@ =~= black_removals(state.board@));
        positions
    }

    /// White's opening candidates: White pieces next to the vacated cell.
    pub fn valid_white_opening_removals(state: &GameState) -> (r: Vec<Position>)
        requires
            state.wf(),
        ensures
            r@ == white_removals(state.board@, state.first_removal_pos),
    {
        let mut positions = Vec::new();
        if let Some(empty_pos) = state.first_removal_pos {
            let neighbors = state.board.orthogonal_neighbors(empty_pos);
            push_holding(&state.board, &mut positions, &neighbors, PieceColor::White);
            assert(positions@ =~= white_removals(state.board@, state.first_removal_pos));
        }
        positions
    }

    /// Every legal jump of the side to move, cell by cell in row-major order.
    pub fn all_valid_jumps(state: &GameState) -> (r: Vec<Jump>)
        requires
            state.wf(),
        ensures
            views(r@) == all_jumps(state.board@, state.current_player),
    {
        let mut jumps: Vec<Jump> = Vec::new();
        let size = state.board.size();
        let ghost b = state.board@;
        let ghost color = state.current_player;
        let mut row: usize = 0;
        assert(views(jumps@) =~= rows_jumps(b, color, 0));
        while row < size
            invariant
                state.wf(),
                b == state.board@,
                color == state.current_player,
                size == b.n(),
                row <= size,
                views(jumps@) == rows_jumps(b, color, row as nat),
            decreases size - row,
        {
            let ghost base = views(jumps@);
            let mut col: usize = 0;
            assert(views(jumps@) =~= base + row_jumps(b, color, row as nat, 0));
            while col < size
                invariant
                    state.wf(),
                    b == state.board@,
                    color == state.current_player,
                    size == b.n(),
                    row < size,
                    col <= size,
                    base == rows_jumps(b, color, row as nat),
                    views(jumps@) == base + row_jumps(b, color, row as nat, col as nat),
                decreases size - col,
            {
                let pos = Position::new(row, col);
                let mut more = Self::valid_jumps_from(state, pos);
                let ghost before = jumps@;
                let ghost added = more@;
                jumps.append(&mut more);
                assert(views(jumps@) =~= views(before) + views(added));
                col = col + 1;
            }
            row = row + 1;
        }
        jumps
    }

    /// Whether the side to move has a legal move in the current phase.
    pub fn has_valid_move(state: &GameState) -> (r: bool)
        requires
            state.wf(),
        ensures
            r == has_move(state.model()),
    {
        match state.phase {
            GamePhase::OpeningBlackRemoval => Self::valid_black_opening_removals(state).len() > 0,
            GamePhase::OpeningWhiteRemoval => Self::valid_white_opening_removals(state).len() > 0,
            GamePhase::Play => {
                let jumps = Self::all_valid_jumps(state);
                assert(views(jumps@).len() == jumps@.len());
                jumps.len() > 0
            },
            _ => false,
        }
    }

    /// The cells, in row-major order, whose piece has a legal jump.
    pub fn movable_pieces(state: &GameState) -> (r: Vec<Position>)
        requires
            state.wf(),
        ensures
            r@ == movable(state.board@, state.current_player),
    {
        let mut pieces: Vec<Position> = Vec::new();
        let size = state.board.size();
        let ghost b = state.board@;
        let ghost color = state.current_player;
        let mut row: usize = 0;
        assert(pieces@ =~= rows_movable(b, color, 0));
        while row < size
            invariant
                state.wf(),
                b == state.board@,
                color == state.current_player,
                size == b.n(),
                row <= size,
                pieces@ == rows_movable(b, color, row as nat),
            decreases size - row,
        {
            let ghost base = pieces@;
            let mut col: usize = 0;
            assert(pieces@ =~= base + row_movable(b, color, row as nat, 0));
            while col < size
                invariant
                    state.wf(),
                    b == state.board@,
                    color == state.current_player,
                    size == b.n(),
                    row < size,
                    col <= size,
                    base == rows_movable(b, color, row as nat),
                    pieces@ == base + row_movable(b, color, row as nat, col as nat),
                decreases size - col,
            {
                let pos = Position::new(row, col);
                let jumps = Self::valid_jumps_from(state, pos);
                assert(views(jumps@).len() == jumps@.len());
                if jumps.len() > 0 {
                    pieces.push(pos);
                }
                assert(pieces@ =~= base + row_movable(b, color, row as nat, (col + 1) as nat));
                col = col + 1;
            }
            row = row + 1;
        }
        pieces
    }

    /// Applies an opening removal.  Black removes a candidate of
    /// `black_removals`; White then removes a candidate of `white_removals`,
    /// which starts play with Black to move, or ends the game in White's
    /// favour when Black has no jump.  Anything else is refused and leaves
    /// the state as it was.
    pub fn apply_opening_removal(state: &mut GameState, pos: Position) -> (r: Result<MoveRecord, RuleError>)
        requires
            old(state).wf(),
        ensures
            final(state).wf(),
            final(state).board.n() == old(state).board.n(),
            final(state).model() == removal_next(old(state).model(), pos),
            removal_result(old(state).model(), pos, r),
    {
        match state.phase {
            GamePhase::OpeningBlackRemoval => {
                let valid = Self::valid_black_opening_removals(state);
                if !contains_position(&valid, pos) {
                    return Err(RuleError::InvalidBlackRemoval);
                }
                proof {
                    lemma_candidate_holds(state.board@, valid@, PieceColor::Black, pos);
                }
                state.remove_stone(pos);
                state.set_first_removal(Some(pos));
                state.change_phase(GamePhase::OpeningWhiteRemoval);
                state.set_current_player(PieceColor::White);
                Ok(MoveRecord::OpeningRemoval { color: PieceColor::Black, position: pos })
            },
            GamePhase::OpeningWhiteRemoval => {
                let valid = Self::valid_white_opening_removals(state);
                if !contains_position(&valid, pos) {
                    return Err(RuleError::InvalidWhiteRemoval);
                }
                proof {
                    lemma_candidate_holds(state.board@, valid@, PieceColor::White, pos);
                }
                state.remove_stone(pos);
                state.change_phase(GamePhase::Play);
                state.set_current_player(PieceColor::Black);
                if !Self::has_valid_move(state) {
                    state.change_phase(GamePhase::GameOver { winner: PieceColor::White });
                }
                Ok(MoveRecord::OpeningRemoval { color: PieceColor::White, position: pos })
            },
            _ => Err(RuleError::NotInOpening),
        }
    }

    /// Whether `jump` is one of the side to move's legal jumps in play.
    pub fn is_legal_jump(state: &GameState, jump: &Jump) -> (r: bool)
        requires
            state.wf(),
        ensures
            r == legal_jump(state.model(), jump@),
    {
        if state.phase != GamePhase::Play {
            return false;
        }
        let candidates = Self::valid_jumps_from(state, jump.from);
        let ghost vs = views(candidates@);
        let mut i: usize = 0;
        while i < candidates.len()
            invariant
                i <= candidates.len(),
                vs == views(candidates@),
                vs == jumps_from(state.board@, jump.from, state.current_player),
                state.phase == GamePhase::Play,
                forall|k: int| 0 <= k < i ==> vs[k] != jump@,
            decreases candidates.len() - i,
        {
            if same_jump(&candidates[i], jump) {
                assert(vs[i as int] == jump@);
                return true;
            }
            i = i + 1;
        }
        assert(!vs.contains(jump@));
        false
    }

    /// Applies a legal jump: the mover's piece goes from `jump.from` to
    /// `jump.to`, every captured piece is removed, and the turn passes; the
    /// game ends in the mover's favour when the opponent has no jump left.
    /// A jump that is not legal is refused and leaves the state as it was.
    pub fn apply_jump(state: &mut GameState, jump: &Jump) -> (r: Result<MoveRecord, RuleError>)
        requires
            old(state).wf(),
        ensures
            final(state).wf(),
            final(state).board.n() == old(state).board.n(),
            final(state).model() == jump_next(old(state).model(), jump@),
            jump_result(old(state).model(), jump@, r),
    {
        if !Self::is_legal_jump(state, jump) {
            return Err(RuleError::InvalidJump);
        }
        let player = state.current_player;
        let ghost cells = state.board@.cells;
        proof {
            lemma_jump_on_board(*state, jump@);
        }
        state.remove_stone(jump.from);
        state.place_stone(jump.to, player);
        assert(state.board@.cells =~~= after_jump(cells, jump.from, jump.to, jump.captured@.take(0), player));
        assert forall|k: int| 0 <= k < jump.captured@.len() implies state.board.in_bounds(
            #[trigger] jump.captured@[k],
        ) by {
            assert(jump@.captured[k] == jump.captured@[k]);
        }
        let mut i: usize = 0;
        while i < jump.captured.len()
            invariant
                state.wf(),
                state.board.n() == old(state).board.n(),
                cells == old(state).board@.cells,
                cells.len() == state.board.n(),
                forall|r: int| 0 <= r < cells.len() ==> #[trigger] cells[r].len() == state.board.n(),
                forall|k: int| 0 <= k < jump.captured@.len() ==> state.board.in_bounds(#[trigger] jump.captured@[k]),
                i <= jump.captured.len(),
                state.phase == GamePhase::Play,
                state.current_player == player,
                player == old(state).current_player,
                state.first_removal_pos == old(state).first_removal_pos,
                state.board@.cells == after_jump(cells, jump.from, jump.to, jump.captured@.take(i as int), player),
            decreases jump.captured.len() - i,
        {
            let c = jump.captured[i];
            let ghost prev = state.board@.cells;
            state.remove_stone(c);
            proof {
                let t0 = jump.captured@.take(i as int);
                let t1 = jump.captured@.take(i as int + 1);
                assert(t1 =~= t0.push(c));
                assert forall|q: Position| #[trigger] t1.contains(q) <==> (t0.contains(q) || q == c) by {
                    if t1.contains(q) {
                        let k = choose|k: int| 0 <= k < t1.len() && t1[k] == q;
                        if k < i {
                            assert(t0[k] == q);
                        }
                    }
                    if t0.contains(q) {
                        let k = choose|k: int| 0 <= k < t0.len() && t0[k] == q;
                        assert(t1[k] == q);
                    }
                    if q == c {
                        assert(t1[i as int] == q);
                    }
                }
                let target = after_jump(cells, jump.from, jump.to, t1, player);
                let before = after_jump(cells, jump.from, jump.to, t0, player);
                assert(state.board@.cells.len() == target.len());
                assert forall|r: int| 0 <= r < target.len() implies state.board@.cells[r] =~= target[r] by {
                    assert(state.board@.cells[r].len() == target[r].len());
                    assert forall|c2: int| 0 <= c2 < target[r].len() implies state.board@.cells[r][c2]
                        == target[r][c2] by {
                        let q = Position { row: r as usize, col: c2 as usize };
                        assert(prev[r][c2] == before[r][c2]);
                        if q == c {
                            assert(r == c.row && c2 == c.col);
                        } else {
                            assert(!(r == c.row && c2 == c.col));
                        }
                    }
                }
                assert(state.board@.cells =~= target);
            }
            i = i + 1;
        }
        assert(jump.captured@.take(jump.captured.len() as int) =~= jump.captured@);
        let captured = jump.captured.clone();
        assert(captured@ =~= jump.captured@);
        state.set_current_player(player.opposite());
        if !Self::has_valid_move(state) {
            state.change_phase(GamePhase::GameOver { winner: player });
        }
        Ok(MoveRecord::Jump { color: player, from: jump.from, to: jump.to, captured })
    }

    /// Tests for a single hop from `from` along `direction`; returns the
    /// jumped cell and the landing cell.
    fn is_valid_single_jump(board: &Board, from: Position, direction: Direction, player: PieceColor) -> (r:
        Option<(Position, Position)>)
        requires
            board.wf(),
            board.in_bounds(from),
        ensures
            r is Some <==> single_hop(board@, from, direction, player),
            r is Some ==> r->0 == (shifted(from, direction, 1), shifted(from, direction, 2)),
    {
        let over = match direction.apply(from, board.size()) {
            Some(o) => o,
            None => { return None; },
        };
        proof {
            lemma_shift_compose(from, direction, 1, 1);
        }
        if board.get_piece_color(over) != Some(player.opposite()) {
            return None;
        }
        let to = match direction.apply(over, board.size()) {
            Some(t) => t,
            None => { return None; },
        };
        if !board.is_empty(to) {
            return None;
        }
        Some((over, to))
    }
}

} // verus!
