//! Replaying a recorded game: every move is checked against the rules
//! before it is applied.

use vstd::prelude::*;
use vstd::string::{StrSliceExecFns, StringExecFns};
use crate::grid::checkerboard;
use crate::rules::{
    jump_next, jumps_from, legal_removal, removal_next, rule_text, views, Jump, JumpView, RuleError,
    Rules,
};
use crate::state::{
    valid_board_size, BoardModel, GameModel, GamePhase, GameState, MoveHistory, MoveRecord, MoveView,
    PieceColor, Position,
};
use crate::text::{decimal, lower_of, lowercase, push_decimal};
use crate::state::{color_name, label, labelable};

verus! {

/// A recorded game as read from a move log.
pub struct ImportedGame {
    pub board_size: usize,
    pub winner: Option<String>,
    pub moves: MoveHistory,
}

/// The states before each replayed move, with the history up to it.
pub type UndoRedoStack = Vec<(GameState, MoveHistory)>;

/// Which coordinate of a move lies off the board.
#[derive(Debug, Clone, Copy, PartialEq, Eq, Structural)]
pub enum Coordinate {
    Position,
    From,
    To,
    Captured,
}

/// Why one move of a log is refused.
#[derive(Debug, Clone, Copy, PartialEq, Eq, Structural)]
pub enum MoveError {
    RemovalNotAllowed(GamePhase),
    JumpNotAllowed(GamePhase),
    WrongMover { expected: PieceColor, got: PieceColor },
    OutOfBounds { what: Coordinate, position: Position },
    NoCapture,
    NoSuchJump { from: Position, to: Position },
    Rule(RuleError),
}

/// Why a log is refused.
#[derive(Debug, Clone, Copy, PartialEq, Eq, Structural)]
pub enum ImportError {
    InvalidBoardSize,
    /// The move with one-based index `number` is refused.
    Move { number: usize, error: MoveError },
    InvalidWinner,
    WinnerMismatch { expected: PieceColor, actual: PieceColor },
    WinnerButNotOver,
}

/// A fresh game on an `n`-sided board.
pub open spec fn initial_model(n: nat) -> GameModel {
    GameModel {
        board: BoardModel { size: n, cells: checkerboard(n) },
        phase: GamePhase::OpeningBlackRemoval,
        current_player: PieceColor::Black,
        first_removal_pos: None,
    }
}

/// The first of `ps` that lies off the board.
pub open spec fn first_off_board(b: BoardModel, ps: Seq<Position>) -> Option<Position>
    decreases ps.len(),
{
    if ps.len() == 0 {
        None
    } else if !b.in_bounds(ps[0]) {
        Some(ps[0])
    } else {
        first_off_board(b, ps.drop_first())
    }
}

/// The first of `cands` that lands on `to` and captures the same set of
/// cells as `captured`, in any order.
pub open spec fn find_jump(cands: Seq<JumpView>, to: Position, captured: Seq<Position>) -> Option<JumpView>
    decreases cands.len(),
{
    if cands.len() == 0 {
        None
    } else if cands[0].to == to && cands[0].captured.to_set() == captured.to_set() {
        Some(cands[0])
    } else {
        find_jump(cands.drop_first(), to, captured)
    }
}

/// One move of a log checked and applied to `m`: the phase must allow its
/// kind, its colour must be the side to move, its cells must be on the
/// board, and a jump must be one of the legal jumps from its origin with
/// the same landing cell and the same set of captured cells.
#[verifier::opaque]
pub open spec fn replay_step(m: GameModel, mv: MoveView) -> Result<GameModel, MoveError> {
    match mv {
        MoveView::Removal { color, position } => match removal_check(m, color, position) {
            Err(e) => Err(e),
            Ok(()) => if legal_removal(m, position) {
                Ok(removal_next(m, position))
            } else {
                Err(
                    MoveError::Rule(
                        if m.phase == GamePhase::OpeningBlackRemoval {
                            RuleError::InvalidBlackRemoval
                        } else {
                            RuleError::InvalidWhiteRemoval
                        },
                    ),
                )
            },
        },
        MoveView::Jump { color, from, to, captured } => match jump_check(m, color, from, to, captured) {
            Ok(j) => Ok(jump_next(m, j)),
            Err(e) => Err(e),
        },
    }
}

/// The checks of a logged jump: play must be on, `color` must be the side
/// to move, its cells must be on the board, it must capture, and a legal
/// jump from `from` must land on `to` capturing the cells of `captured`, in
/// any order; that jump is the result.
pub open spec fn jump_check(
    m: GameModel,
    color: PieceColor,
    from: Position,
    to: Position,
    captured: Seq<Position>,
) -> Result<JumpView, MoveError> {
    if m.phase != GamePhase::Play {
        Err(MoveError::JumpNotAllowed(m.phase))
    } else if color != m.current_player {
        Err(MoveError::WrongMover { expected: m.current_player, got: color })
    } else if !m.board.in_bounds(from) {
        Err(MoveError::OutOfBounds { what: Coordinate::From, position: from })
    } else if !m.board.in_bounds(to) {
        Err(MoveError::OutOfBounds { what: Coordinate::To, position: to })
    } else if captured.len() == 0 {
        Err(MoveError::NoCapture)
    } else if let Some(p) = first_off_board(m.board, captured) {
        Err(MoveError::OutOfBounds { what: Coordinate::Captured, position: p })
    } else {
        match find_jump(jumps_from(m.board, from, m.current_player), to, captured) {
            Some(j) => Ok(j),
            None => Err(MoveError::NoSuchJump { from, to }),
        }
    }
}

/// The checks of a logged removal before the rules see it: an opening
/// phase, `color` to move, the cell on the board.
pub open spec fn removal_check(m: GameModel, color: PieceColor, position: Position) -> Result<(), MoveError> {
    if !(m.phase == GamePhase::OpeningBlackRemoval || m.phase == GamePhase::OpeningWhiteRemoval) {
        Err(MoveError::RemovalNotAllowed(m.phase))
    } else if color != m.current_player {
        Err(MoveError::WrongMover { expected: m.current_player, got: color })
    } else if !m.board.in_bounds(position) {
        Err(MoveError::OutOfBounds { what: Coordinate::Position, position })
    } else {
        Ok(())
    }
}

/// In an opening phase, the side to move is the phase's colour.
pub open spec fn turn_matches_phase(m: GameModel) -> bool {
    &&& m.phase == GamePhase::OpeningBlackRemoval ==> m.current_player == PieceColor::Black
    &&& m.phase == GamePhase::OpeningWhiteRemoval ==> m.current_player == PieceColor::White
}

/// The record that replaying `mv` on `m` adds to the history: a jump is
/// recorded with its captures in the order the matching legal jump makes
/// them.
pub open spec fn replay_record(m: GameModel, mv: MoveView) -> MoveView {
    match mv {
        MoveView::Jump { color, from, to, captured } => match jump_check(m, color, from, to, captured) {
            Ok(j) => MoveView::Jump { color, from, to, captured: j.captured },
            Err(_) => mv,
        },
        _ => mv,
    }
}

/// The history recorded while replaying the first `k` moves.
pub open spec fn replay_log(n: nat, moves: Seq<MoveView>, k: nat) -> Seq<MoveView> {
    Seq::new(
        k,
        |i: int|
            match replay(n, moves, i as nat) {
                Ok(m) => replay_record(m, moves[i]),
                Err(_) => moves[i],
            },
    )
}

/// The game after replaying the first `k` moves on an `n`-sided board, or
/// the one-based number of the first refused move and why.
pub open spec fn replay(n: nat, moves: Seq<MoveView>, k: nat) -> Result<GameModel, (nat, MoveError)>
    decreases k,
{
    if k == 0 {
        Ok(initial_model(n))
    } else {
        match replay(n, moves, (k - 1) as nat) {
            Ok(m) => match replay_step(m, moves[k - 1]) {
                Ok(m2) => Ok(m2),
                Err(e) => Err((k, e)),
            },
            Err(e) => Err(e),
        }
    }
}

/// The colour that a lowercased winner name denotes.
pub open spec fn winner_of(lower: Seq<char>) -> Option<PieceColor> {
    if lower == "black"@ {
        Some(PieceColor::Black)
    } else if lower == "white"@ {
        Some(PieceColor::White)
    } else {
        None
    }
}

/// The check of a claimed winner against the replayed game.
pub open spec fn winner_check(m: GameModel, winner: Option<Seq<char>>) -> Result<(), ImportError> {
    match winner {
        None => Ok(()),
        Some(w) => match winner_of(lower_of(w)) {
            None => Err(ImportError::InvalidWinner),
            Some(c) => match m.phase {
                GamePhase::GameOver { winner: actual } => if actual == c {
                    Ok(())
                } else {
                    Err(ImportError::WinnerMismatch { expected: c, actual })
                },
                _ => Err(ImportError::WinnerButNotOver),
            },
        },
    }
}

pub open spec fn winner_view(w: Option<String>) -> Option<Seq<char>> {
    match w {
        Some(s) => Some(s@),
        None => None,
    }
}

/// What importing a log yields: the replayed game, or the first reason to
/// refuse the log (board size, then moves in order, then the winner).
pub open spec fn import_result(n: nat, moves: Seq<MoveView>, winner: Option<Seq<char>>) -> Result<
    GameModel,
    ImportError,
> {
    if !valid_board_size(n as int) {
        Err(ImportError::InvalidBoardSize)
    } else {
        match replay(n, moves, moves.len()) {
            Err((k, e)) => Err(ImportError::Move { number: k as usize, error: e }),
            Ok(m) => match winner_check(m, winner) {
                Ok(()) => Ok(m),
                Err(e) => Err(e),
            },
        }
    }
}

/// Once a move is refused, the refusal stands for every longer prefix.
proof fn lemma_replay_err_sticks(n: nat, moves: Seq<MoveView>, k: nat, l: nat)
    requires
        k <= l,
        replay(n, moves, k) is Err,
    ensures
        replay(n, moves, l) == replay(n, moves, k),
    decreases l - k,
{
    if k < l {
        lemma_replay_err_sticks(n, moves, k, (l - 1) as nat);
    }
}

pub open spec fn moves_view(moves: Seq<MoveRecord>) -> Seq<MoveView> {
    moves.map_values(|m: MoveRecord| m@)
}

pub open spec fn phase_name(p: GamePhase) -> Seq<char> {
    match p {
        GamePhase::Setup => "Setup"@,
        GamePhase::OpeningBlackRemoval => "OpeningBlackRemoval"@,
        GamePhase::OpeningWhiteRemoval => "OpeningWhiteRemoval"@,
        GamePhase::Play => "Play"@,
        GamePhase::GameOver { winner } => "GameOver { winner: "@ + color_name(winner) + " }"@,
    }
}

/// A cell's label, or its coordinates when it has no file letter.
pub open spec fn cell_name(p: Position) -> Seq<char> {
    if labelable(p) {
        label(p)
    } else {
        "("@ + decimal(p.row as nat) + ", "@ + decimal(p.col as nat) + ")"@
    }
}

pub open spec fn coordinate_name(c: Coordinate) -> Seq<char> {
    match c {
        Coordinate::Position => "Position"@,
        Coordinate::From => "From position"@,
        Coordinate::To => "To position"@,
        Coordinate::Captured => "Captured position"@,
    }
}

pub open spec fn move_error_text(e: MoveError) -> Seq<char> {
    match e {
        MoveError::RemovalNotAllowed(p) => "Opening removal not allowed during "@ + phase_name(p),
        MoveError::JumpNotAllowed(p) => "Jump not allowed during "@ + phase_name(p),
        MoveError::WrongMover { expected, got } => "Expected "@ + color_name(expected) + " to move, got "@
            + color_name(got),
        MoveError::OutOfBounds { what, position } => coordinate_name(what) + " "@ + cell_name(position)
            + " is out of bounds"@,
        MoveError::NoCapture => "Jump must capture at least one piece"@,
        MoveError::NoSuchJump { from, to } => "Invalid jump from "@ + cell_name(from) + " to "@ + cell_name(
            to,
        ),
        MoveError::Rule(r) => rule_text(r),
    }
}

pub open spec fn import_error_text(e: ImportError) -> Seq<char> {
    match e {
        ImportError::InvalidBoardSize => "Invalid board_size: must be even and between 4 and 16"@,
        ImportError::Move { number, error } => "Move "@ + decimal(number as nat) + ": "@ + move_error_text(
            error,
        ),
        ImportError::InvalidWinner => "Invalid winner: must be \"Black\" or \"White\""@,
        ImportError::WinnerMismatch { expected, actual } => "Winner mismatch: expected "@ + color_name(
            expected,
        ) + ", got "@ + color_name(actual),
        ImportError::WinnerButNotOver => "Winner specified but game is not over"@,
    }
}

fn push_color(s: &mut String, c: PieceColor)
    ensures
        final(s)@ == old(s)@ + color_name(c),
{
    s.append(c.name());
}

fn push_phase(s: &mut String, p: GamePhase)
    ensures
        final(s)@ == old(s)@ + phase_name(p),
{
    match p {
        GamePhase::Setup => s.append("Setup"),
        GamePhase::OpeningBlackRemoval => s.append("OpeningBlackRemoval"),
        GamePhase::OpeningWhiteRemoval => s.append("OpeningWhiteRemoval"),
        GamePhase::Play => s.append("Play"),
        GamePhase::GameOver { winner } => {
            s.append("GameOver { winner: ");
            push_color(s, winner);
            s.append(" }");
            assert(s@ =~= old(s)@ + phase_name(p));
        },
    }
}

fn push_cell(s: &mut String, p: Position)
    ensures
        final(s)@ == old(s)@ + cell_name(p),
{
    if p.col < 26 && p.row < usize::MAX {
        let l = p.to_algebraic();
        s.append(l.as_str());
    } else {
        s.append("(");
        push_decimal(s, p.row);
        s.append(", ");
        push_decimal(s, p.col);
        s.append(")");
        assert(s@ =~= old(s)@ + cell_name(p));
    }
}

fn push_move_error(s: &mut String, e: MoveError)
    ensures
        final(s)@ == old(s)@ + move_error_text(e),
{
    match e {
        MoveError::RemovalNotAllowed(p) => {
            s.append("Opening removal not allowed during ");
            push_phase(s, p);
        },
        MoveError::JumpNotAllowed(p) => {
            s.append("Jump not allowed during ");
            push_phase(s, p);
        },
        MoveError::WrongMover { expected, got } => {
            s.append("Expected ");
            push_color(s, expected);
            s.append(" to move, got ");
            push_color(s, got);
        },
        MoveError::OutOfBounds { what, position } => {
            match what {
                Coordinate::Position => s.append("Position"),
                Coordinate::From => s.append("From position"),
                Coordinate::To => s.append("To position"),
                Coordinate::Captured => s.append("Captured position"),
            }
            s.append(" ");
            push_cell(s, position);
            s.append(" is out of bounds");
        },
        MoveError::NoCapture => s.append("Jump must capture at least one piece"),
        MoveError::NoSuchJump { from, to } => {
            s.append("Invalid jump from ");
            push_cell(s, from);
            s.append(" to ");
            push_cell(s, to);
        },
        MoveError::Rule(r) => s.append(r.message()),
    }
    assert(s@ =~= old(s)@ + move_error_text(e));
}

impl ImportError {
    /// The error as text, naming the one-based number of a refused move.
    pub fn message(&self) -> (r: String)
        ensures
            r@ == import_error_text(*self),
    {
        let mut s = String::new();
        match *self {
            ImportError::InvalidBoardSize => s.append("Invalid board_size: must be even and between 4 and 16"),
            ImportError::Move { number, error } => {
                s.append("Move ");
                push_decimal(&mut s, number);
                s.append(": ");
                push_move_error(&mut s, error);
            },
            ImportError::InvalidWinner => s.append("Invalid winner: must be \"Black\" or \"White\""),
            ImportError::WinnerMismatch { expected, actual } => {
                s.append("Winner mismatch: expected ");
                push_color(&mut s, expected);
                s.append(", got ");
                push_color(&mut s, actual);
            },
            ImportError::WinnerButNotOver => s.append("Winner specified but game is not over"),
        }
        assert(s@ =~= import_error_text(*self));
        s
    }
}

/// Whether a board side is one this game supports: even, from 4 to 16.
pub fn validate_board_size(board_size: usize) -> (r: Result<(), ImportError>)
    ensures
        r == if valid_board_size(board_size as int) {
            Ok::<(), ImportError>(())
        } else {
            Err(ImportError::InvalidBoardSize)
        },
{
    if board_size < 4 || board_size > 16 || board_size % 2 != 0 {
        return Err(ImportError::InvalidBoardSize);
    }
    Ok(())
}

/// Reads a winner name after lowercasing: `black` or `white`.
pub fn parse_lowered_winner(lower: &str) -> (r: Option<PieceColor>)
    ensures
        r == winner_of(lower@),
{
    if str_equal(lower, "black") {
        Some(PieceColor::Black)
    } else if str_equal(lower, "white") {
        Some(PieceColor::White)
    } else {
        proof {
            reveal_strlit("black");
            reveal_strlit("white");
        }
        None
    }
}

/// Reads a winner name, in any case.
pub fn parse_winner_color(winner: &str) -> (r: Result<PieceColor, ImportError>)
    ensures
        r == match winner_of(lower_of(winner@)) {
            Some(c) => Ok::<PieceColor, ImportError>(c),
            None => Err(ImportError::InvalidWinner),
        },
{
    let lower = lowercase(winner);
    match parse_lowered_winner(lower.as_str()) {
        Some(c) => Ok(c),
        None => Err(ImportError::InvalidWinner),
    }
}

fn move_error(number: usize, error: MoveError) -> (r: ImportError)
    ensures
        r == (ImportError::Move { number, error }),
{
    ImportError::Move { number, error }
}

fn validate_position_in_bounds(state: &GameState, position: Position, what: Coordinate) -> (r: Result<(), MoveError>)
    requires
        state.wf(),
    ensures
        r == if state.board.in_bounds(position) {
            Ok::<(), MoveError>(())
        } else {
            Err(MoveError::OutOfBounds { what, position })
        },
{
    let size = state.board.size();
    if position.row >= size || position.col >= size {
        return Err(MoveError::OutOfBounds { what, position });
    }
    Ok(())
}

fn validate_opening_removal(state: &GameState, color: PieceColor, position: Position) -> (r: Result<(), MoveError>)
    requires
        state.wf(),
    ensures
        r == removal_check(state.model(), color, position),
{
    if !matches!(state.phase, GamePhase::OpeningBlackRemoval | GamePhase::OpeningWhiteRemoval) {
        return Err(MoveError::RemovalNotAllowed(state.phase));
    }
    if color != state.current_player {
        return Err(MoveError::WrongMover { expected: state.current_player, got: color });
    }
    validate_position_in_bounds(state, position, Coordinate::Position)
}

/// Whether every element of `a` occurs in `b`.
fn all_in(a: &Vec<Position>, b: &Vec<Position>) -> (r: bool)
    ensures
        r == (forall|x: Position| a@.contains(x) ==> b@.contains(x)),
{
    let mut i: usize = 0;
    while i < a.len()
        invariant
            i <= a.len(),
            forall|k: int| 0 <= k < i ==> b@.contains(#[trigger] a@[k]),
        decreases a.len() - i,
    {
        if !crate::rules::contains_position(b, a[i]) {
            assert(a@.contains(a@[i as int]));
            return false;
        }
        i = i + 1;
    }
    assert forall|x: Position| a@.contains(x) implies b@.contains(x) by {
        let k = choose|k: int| 0 <= k < a@.len() && a@[k] == x;
    }
    true
}

/// Whether two position lists hold the same cells, in any order.
fn same_cells(a: &Vec<Position>, b: &Vec<Position>) -> (r: bool)
    ensures
        r == (a@.to_set() == b@.to_set()),
{
    let r = all_in(a, b) && all_in(b, a);
    proof {
        if r {
            assert(a@.to_set() =~= b@.to_set());
        } else if a@.to_set() == b@.to_set() {
            assert forall|x: Position| a@.contains(x) <==> b@.contains(x) by {
                assert(a@.to_set().contains(x) == b@.to_set().contains(x));
            }
        }
    }
    r
}

fn validate_jump(
    state: &GameState,
    color: PieceColor,
    from: Position,
    to: Position,
    captured: &Vec<Position>,
) -> (r: Result<Jump, MoveError>)
    requires
        state.wf(),
    ensures
        match jump_check(state.model(), color, from, to, captured@) {
            Ok(j) => r matches Ok(found) && found@ == j,
            Err(e) => r == Err::<Jump, MoveError>(e),
        },
{
    if state.phase != GamePhase::Play {
        return Err(MoveError::JumpNotAllowed(state.phase));
    }
    if color != state.current_player {
        return Err(MoveError::WrongMover { expected: state.current_player, got: color });
    }
    if let Err(e) = validate_position_in_bounds(state, from, Coordinate::From) {
        return Err(e);
    }
    if let Err(e) = validate_position_in_bounds(state, to, Coordinate::To) {
        return Err(e);
    }
    if captured.len() == 0 {
        return Err(MoveError::NoCapture);
    }
    let ghost b = state.board@;
    let mut i: usize = 0;
    assert(captured@.subrange(0, captured@.len() as int) =~= captured@);
    while i < captured.len()
        invariant
            state.wf(),
            b == state.board@,
            state.phase == GamePhase::Play,
            color == state.current_player,
            state.board.in_bounds(from),
            state.board.in_bounds(to),
            captured.len() > 0,
            i <= captured.len(),
            first_off_board(b, captured@) == first_off_board(b, captured@.subrange(i as int, captured@.len() as int)),
        decreases captured.len() - i,
    {
        let p = captured[i];
        assert(captured@.subrange(i as int, captured@.len() as int).drop_first() =~= captured@.subrange(
            i as int + 1,
            captured@.len() as int,
        ));
        assert(captured@.subrange(i as int, captured@.len() as int)[0] == p);
        if let Err(e) = validate_position_in_bounds(state, p, Coordinate::Captured) {
            return Err(e);
        }
        i = i + 1;
    }
    assert(captured@.subrange(i as int, captured@.len() as int) =~= Seq::<Position>::empty());
    let candidates = Rules::valid_jumps_from(state, from);
    let ghost cands = views(candidates@);
    let mut k: usize = 0;
    assert(cands.subrange(0, cands.len() as int) =~= cands);
    while k < candidates.len()
        invariant
            state.wf(),
            b == state.board@,
            state.phase == GamePhase::Play,
            color == state.current_player,
            state.board.in_bounds(from),
            state.board.in_bounds(to),
            captured.len() > 0,
            first_off_board(b, captured@) is None,
            cands == jumps_from(b, from, color),
            k <= candidates.len(),
            cands == views(candidates@),
            find_jump(cands, to, captured@) == find_jump(cands.subrange(k as int, cands.len() as int), to, captured@),
        decreases candidates.len() - k,
    {
        assert(cands.subrange(k as int, cands.len() as int).drop_first() =~= cands.subrange(
            k as int + 1,
            cands.len() as int,
        ));
        assert(cands[k as int] == candidates@[k as int]@);
        if candidates[k].to == to && same_cells(&candidates[k].captured, captured) {
            let found = candidates[k].clone();
            assert(cands.subrange(k as int, cands.len() as int)[0] == cands[k as int]);
            return Ok(found);
        }
        k = k + 1;
    }
    assert(cands.subrange(k as int, cands.len() as int) =~= Seq::<JumpView>::empty());
    Err(MoveError::NoSuchJump { from, to })
}

/// Checks one logged move against `state` and applies it.
fn validate_and_apply_move(state: &mut GameState, record: &MoveRecord) -> (r: Result<MoveRecord, MoveError>)
    requires
        old(state).wf(),
        turn_matches_phase(old(state).model()),
    ensures
        final(state).wf(),
        turn_matches_phase(final(state).model()),
        match replay_step(old(state).model(), record@) {
            Ok(m) => r matches Ok(done) && done@ == replay_record(old(state).model(), record@)
                && final(state).model() == m,
            Err(e) => r == Err::<MoveRecord, MoveError>(e),
        },
{
    reveal(replay_step);
    match record {
        MoveRecord::OpeningRemoval { color, position } => {
            if let Err(e) = validate_opening_removal(state, *color, *position) {
                return Err(e);
            }
            match Rules::apply_opening_removal(state, *position) {
                Ok(done) => Ok(done),
                Err(e) => Err(MoveError::Rule(e)),
            }
        },
        MoveRecord::Jump { color, from, to, captured } => {
            let jump = match validate_jump(state, *color, *from, *to, captured) {
                Ok(j) => j,
                Err(e) => { return Err(e); },
            };
            proof {
                let m = state.model();
                let cands = jumps_from(m.board, *from, m.current_player);
                lemma_find_jump_member(cands, *to, captured@);
                crate::rules::lemma_jump_from_origin(m.board, *from, m.current_player, jump@);
            }
            match Rules::apply_jump(state, &jump) {
                Ok(done) => Ok(done),
                Err(e) => Err(MoveError::Rule(e)),
            }
        },
    }
}

proof fn lemma_find_jump_member(cands: Seq<JumpView>, to: Position, captured: Seq<Position>)
    ensures
        find_jump(cands, to, captured) matches Some(j) ==> cands.contains(j) && j.to == to
            && j.captured.to_set() == captured.to_set(),
    decreases cands.len(),
{
    if cands.len() > 0 && !(cands[0].to == to && cands[0].captured.to_set() == captured.to_set()) {
        lemma_find_jump_member(cands.drop_first(), to, captured);
        if let Some(j) = find_jump(cands, to, captured) {
            let i = choose|i: int| 0 <= i < cands.drop_first().len() && cands.drop_first()[i] == j;
            assert(cands[i + 1] == j);
        }
    } else if cands.len() > 0 {
        assert(cands[0] == cands[0]);
    }
}

/// Checks a claimed winner against the replayed game.
fn validate_winner(state: &GameState, winner: &Option<String>) -> (r: Result<(), ImportError>)
    requires
        state.wf(),
    ensures
        r == winner_check(state.model(), winner_view(*winner)),
{
    let w = match winner {
        Some(w) => w,
        None => { return Ok(()); },
    };
    let winner_color = match parse_winner_color(w.as_str()) {
        Ok(c) => c,
        Err(e) => { return Err(e); },
    };
    match state.phase {
        GamePhase::GameOver { winner: actual } => {
            if actual != winner_color {
                return Err(ImportError::WinnerMismatch { expected: winner_color, actual });
            }
        },
        _ => { return Err(ImportError::WinnerButNotOver); },
    }
    Ok(())
}

fn clone_history(h: &MoveHistory) -> (r: MoveHistory)
    ensures
        moves_view(r@) == moves_view(h@),
{
    let mut r: MoveHistory = Vec::new();
    let mut i: usize = 0;
    while i < h.len()
        invariant
            i <= h.len(),
            r@.len() == i,
            moves_view(r@) == moves_view(h@).take(i as int),
        decreases h.len() - i,
    {
        let m = h[i].clone();
        assert(moves_view(h@)[i as int] == h@[i as int]@);
        let ghost before = r@;
        r.push(m);
        assert(r@[i as int] == m);
        assert(moves_view(r@)[i as int] == m@);
        assert(moves_view(r@).take(i as int) =~= moves_view(before));
        assert(moves_view(r@) =~= moves_view(h@).take(i as int + 1));
        i = i + 1;
    }
    assert(moves_view(h@).take(h.len() as int) =~= moves_view(h@));
    r
}

/// Replays a recorded game on a fresh board, checking every move, then
/// the claimed winner.  Returns the final state, the history of applied
/// moves, and the state and history before each move.
pub fn import_game(imported: ImportedGame) -> (r: Result<(GameState, MoveHistory, UndoRedoStack), ImportError>)
    ensures
        match import_result(
            imported.board_size as nat,
            moves_view(imported.moves@),
            winner_view(imported.winner),
        ) {
            Err(e) => r == Err::<(GameState, MoveHistory, UndoRedoStack), ImportError>(e),
            Ok(m) => r matches Ok((state, history, undo)) && {
                let mvs = moves_view(imported.moves@);
                &&& state.wf()
                &&& state.model() == m
                &&& moves_view(history@) == replay_log(imported.board_size as nat, mvs, mvs.len())
                &&& undo@.len() == mvs.len()
                &&& forall|i: int|
                    0 <= i < undo@.len() ==> {
                        &&& (#[trigger] undo@[i]).0.wf()
                        &&& replay(imported.board_size as nat, mvs, i as nat) == Ok::<
                            GameModel,
                            (nat, MoveError),
                        >(undo@[i].0.model())
                        &&& moves_view(undo@[i].1@) == replay_log(imported.board_size as nat, mvs, i as nat)
                    }
            },
        },
{
    let n = imported.board_size;
    let ghost mvs = moves_view(imported.moves@);
    if let Err(e) = validate_board_size(n) {
        return Err(e);
    }
    let mut state = GameState::new(n, PieceColor::Black);
    let mut history: MoveHistory = Vec::new();
    let mut undo: UndoRedoStack = Vec::new();
    let mut i: usize = 0;
    assert(state.model() == initial_model(n as nat));
    assert(moves_view(history@) =~= replay_log(n as nat, mvs, 0));
    while i < imported.moves.len()
        invariant
            mvs == moves_view(imported.moves@),
            valid_board_size(n as int),
            n == imported.board_size,
            i <= imported.moves.len(),
            state.wf(),
            turn_matches_phase(state.model()),
            replay(n as nat, mvs, i as nat) == Ok::<GameModel, (nat, MoveError)>(state.model()),
            moves_view(history@) == replay_log(n as nat, mvs, i as nat),
            history@.len() == i,
            undo@.len() == i,
            forall|k: int|
                0 <= k < i ==> {
                    &&& (#[trigger] undo@[k]).0.wf()
                    &&& replay(n as nat, mvs, k as nat) == Ok::<GameModel, (nat, MoveError)>(
                        undo@[k].0.model(),
                    )
                    &&& moves_view(undo@[k].1@) == replay_log(n as nat, mvs, k as nat)
                },
        decreases imported.moves.len() - i,
    {
        let snapshot = state.clone();
        let past = clone_history(&history);
        assert(snapshot.model() == state.model());
        undo.push((snapshot, past));
        assert(mvs[i as int] == imported.moves@[i as int]@);
        let ghost model_before = state.model();
        match validate_and_apply_move(&mut state, &imported.moves[i]) {
            Ok(done) => {
                let ghost before = history@;
                let ghost dv = done@;
                assert(replay_step(model_before, mvs[i as int]) is Ok);
                assert(dv == replay_record(model_before, mvs[i as int]));
                history.push(done);
                assert(history@[i as int]@ == dv);
                assert(moves_view(history@)[i as int] == dv);
                assert(moves_view(history@).take(i as int) =~= moves_view(before));
                assert(replay_log(n as nat, mvs, (i + 1) as nat)[i as int] == replay_record(model_before, mvs[i as int]));
                assert(replay_log(n as nat, mvs, (i + 1) as nat).take(i as int) =~= replay_log(n as nat, mvs, i as nat));
                assert(moves_view(history@) =~= moves_view(before).push(dv));
                assert(replay_log(n as nat, mvs, (i + 1) as nat) =~= replay_log(n as nat, mvs, i as nat).push(dv));
            },
            Err(e) => {
                proof {
                    lemma_replay_err_sticks(n as nat, mvs, (i + 1) as nat, mvs.len());
                }
                return Err(move_error(i + 1, e));
            },
        }
        i = i + 1;
    }
    if let Err(e) = validate_winner(&state, &imported.winner) {
        return Err(e);
    }
    Ok((state, history, undo))
}

/// Whether two strings hold the same characters.
fn str_equal(a: &str, b: &str) -> (r: bool)
    ensures
        r == (a@ == b@),
{
    let n = a.unicode_len();
    if n != b.unicode_len() {
        return false;
    }
    let mut i: usize = 0;
    while i < n
        invariant
            n == a@.len(),
            n == b@.len(),
            i <= n,
            forall|k: int| 0 <= k < i ==> a@[k] == b@[k],
        decreases n - i,
    {
        if a.get_char(i) != b.get_char(i) {
            return false;
        }
        i = i + 1;
    }
    assert(a@ =~= b@);
    true
}

} // verus!
