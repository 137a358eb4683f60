//! Board, positions, phases and the game state.

use vstd::prelude::*;
use crate::text::{
    algebraic, decimal, lower_of, lowercase, parse_label, parse_unsigned_from, push_char, push_decimal, trim_of, trimmed,
};
use vstd::string::{StrSliceExecFns, StringExecFns};
use crate::grid::{grid_clone, grid_get, grid_new, grid_of, grid_set, checkerboard, CellGrid};
use crate::zhash::{
    lemma_cells_hash_update, lemma_xor, lemma_xor_refold, phase_key, phase_index, piece_key, position_hash,
    turn_key, turn_part, ZHash,
};

verus! {

#[derive(Debug, Clone, Copy, PartialEq, Eq, Hash, Structural)]
pub enum PieceColor {
    Black,
    White,
}

/// The colour's name: `Black` or `White`.
pub open spec fn color_name(c: PieceColor) -> Seq<char> {
    if c == PieceColor::Black {
        "Black"@
    } else {
        "White"@
    }
}

impl PieceColor {
    pub fn name(&self) -> (r: &'static str)
        ensures
            r@ == color_name(*self),
    {
        match self {
            PieceColor::Black => "Black",
            PieceColor::White => "White",
        }
    }

    pub open spec fn opp(self) -> PieceColor {
        match self {
            PieceColor::Black => PieceColor::White,
            PieceColor::White => PieceColor::Black,
        }
    }

    pub fn opposite(&self) -> (r: PieceColor)
        ensures
            r == self.opp(),
    {
        match self {
            PieceColor::Black => PieceColor::White,
            PieceColor::White => PieceColor::Black,
        }
    }
}

/// A cell coordinate: `row` 0 is the bottom rank, `col` 0 the file `a`.
#[derive(Debug, Clone, Copy, PartialEq, Eq, Hash, Structural)]
pub struct Position {
    pub row: usize,
    pub col: usize,
}

impl Position {
    pub fn new(row: usize, col: usize) -> (r: Self)
        ensures
            r == (Position { row, col }),
    {
        Position { row, col }
    }

    /// The label of the cell: file letter, then one-based rank (`a1`, `e4`).
    pub fn to_algebraic(self) -> (r: String)
        requires
            self.col < 26,
            self.row < usize::MAX,
        ensures
            r@ == algebraic(self.row as nat, self.col as nat),
    {
        let mut s = String::new();
        push_char(&mut s, (97u8 + self.col as u8) as char);
        push_decimal(&mut s, self.row + 1);
        assert(s@ =~= algebraic(self.row as nat, self.col as nat));
        s
    }

    /// Reads a label such as `e4`, ignoring surrounding whitespace and case.
    pub fn from_algebraic(s: &str) -> (r: Option<Position>)
        ensures
            r == match parse_label(lower_of(trim_of(s@))) {
                Some((row, col)) => Some(Position { row: row as usize, col: col as usize }),
                None => None,
            },
    {
        let t = trimmed(s);
        let lower = lowercase(t);
        Self::from_normalized_label(lower.as_str())
    }

    /// Reads a label that is already trimmed and lowercased: a letter `a` to
    /// `z` for the column, then a rank from 1.
    pub fn from_normalized_label(l: &str) -> (r: Option<Position>)
        ensures
            r == match parse_label(l@) {
                Some((row, col)) => Some(Position { row: row as usize, col: col as usize }),
                None => None,
            },
    {
        if l.unicode_len() == 0 {
            return None;
        }
        let file = l.get_char(0);
        match parse_unsigned_from(l, 1) {
            Some(rank) => {
                if file < 'a' || file > 'z' || rank == 0 {
                    None
                } else {
                    Some(Position::new(rank - 1, (file as u32 - 97) as usize))
                }
            },
            None => None,
        }
    }
}

#[derive(Debug, Clone, Copy, PartialEq, Eq, Structural)]
pub enum Direction {
    /// Toward higher rows.
    Up,
    /// Toward lower rows.
    Down,
    /// Toward lower columns.
    Left,
    /// Toward higher columns.
    Right,
}

/// The directions in the order in which moves are enumerated.
pub open spec fn all_directions() -> Seq<Direction> {
    seq![Direction::Up, Direction::Down, Direction::Left, Direction::Right]
}

pub open spec fn on_board(r: int, c: int, n: int) -> bool {
    0 <= r < n && 0 <= c < n
}

/// The position `m` steps from `p` in direction `d`, as integer coordinates.
pub open spec fn shifted_row(p: Position, d: Direction, m: int) -> int {
    match d {
        Direction::Up => p.row + m,
        Direction::Down => p.row - m,
        _ => p.row as int,
    }
}

pub open spec fn shifted_col(p: Position, d: Direction, m: int) -> int {
    match d {
        Direction::Left => p.col - m,
        Direction::Right => p.col + m,
        _ => p.col as int,
    }
}

pub open spec fn shifted(p: Position, d: Direction, m: int) -> Position {
    Position { row: shifted_row(p, d, m) as usize, col: shifted_col(p, d, m) as usize }
}

/// One step from `p` in direction `d` on an `n`-sided board, if it stays on
/// the board (`p`'s other coordinate is left as it is).
pub open spec fn step(d: Direction, p: Position, n: int) -> Option<Position> {
    match d {
        Direction::Up => if p.row + 1 < n { Some(shifted(p, d, 1)) } else { None },
        Direction::Down => if p.row > 0 { Some(shifted(p, d, 1)) } else { None },
        Direction::Left => if p.col > 0 { Some(shifted(p, d, 1)) } else { None },
        Direction::Right => if p.col + 1 < n { Some(shifted(p, d, 1)) } else { None },
    }
}

impl Direction {
    pub fn all() -> (r: [Direction; 4])
        ensures
            r@ == all_directions(),
    {
        let r = [Direction::Up, Direction::Down, Direction::Left, Direction::Right];
        assert(r@ =~= all_directions());
        r
    }

    pub fn apply(&self, pos: Position, board_size: usize) -> (r: Option<Position>)
        requires
            board_size > 0,
        ensures
            r == step(*self, pos, board_size as int),
    {
        match self {
            Direction::Up => if pos.row < board_size - 1 {
                Some(Position::new(pos.row + 1, pos.col))
            } else {
                None
            },
            Direction::Down => if pos.row > 0 {
                Some(Position::new(pos.row - 1, pos.col))
            } else {
                None
            },
            Direction::Left => if pos.col > 0 {
                Some(Position::new(pos.row, pos.col - 1))
            } else {
                None
            },
            Direction::Right => if pos.col < board_size - 1 {
                Some(Position::new(pos.row, pos.col + 1))
            } else {
                None
            },
        }
    }
}

#[derive(Debug, Clone, Copy, PartialEq, Eq, Structural)]
pub enum Cell {
    Empty,
    Occupied(PieceColor),
}

#[derive(Debug, Clone, Copy, PartialEq, Eq, Structural)]
pub enum GamePhase {
    Setup,
    OpeningBlackRemoval,
    OpeningWhiteRemoval,
    Play,
    GameOver { winner: PieceColor },
}

/// The starting checkerboard: Black where `row + col` is even.
pub open spec fn initial_cell_spec(row: int, col: int) -> Cell {
    if (row + col) % 2 == 0 {
        Cell::Occupied(PieceColor::Black)
    } else {
        Cell::Occupied(PieceColor::White)
    }
}

pub fn initial_cell(row: usize, col: usize) -> (c: Cell)
    ensures
        c == initial_cell_spec(row as int, col as int),
{
    if row % 2 == col % 2 {
        Cell::Occupied(PieceColor::Black)
    } else {
        Cell::Occupied(PieceColor::White)
    }
}

pub open spec fn valid_board_size(n: int) -> bool {
    4 <= n <= 16 && n % 2 == 0
}

/// Square board of cells.  Coordinates: `(0, 0)` is the bottom-left corner.
#[derive(Debug)]
pub struct Board {
    size: usize,
    cells: CellGrid,
}

/// What a board is: its side length and its cells, row by row.
pub struct BoardModel {
    pub size: nat,
    pub cells: Seq<Seq<Cell>>,
}

impl BoardModel {
    pub open spec fn n(&self) -> nat {
        self.size
    }

    pub open spec fn wf(&self) -> bool {
        &&& valid_board_size(self.size as int)
        &&& self.cells.len() == self.size
        &&& forall|r: int| 0 <= r < self.size ==> #[trigger] self.cells[r].len() == self.size
    }

    pub open spec fn in_bounds(&self, p: Position) -> bool {
        p.row < self.size && p.col < self.size
    }

    /// The cell at an on-board position.
    pub open spec fn at(&self, p: Position) -> Cell {
        self.cells[p.row as int][p.col as int]
    }

    pub open spec fn cell_spec(&self, p: Position) -> Option<Cell> {
        if self.in_bounds(p) {
            Some(self.at(p))
        } else {
            None
        }
    }

    pub open spec fn color_at(&self, p: Position) -> Option<PieceColor> {
        match self.cell_spec(p) {
            Some(Cell::Occupied(c)) => Some(c),
            _ => None,
        }
    }

    pub open spec fn empty_at(&self, p: Position) -> bool {
        self.cell_spec(p) == Some(Cell::Empty)
    }

    /// The cells with the one at `p` set to `cell`.
    pub open spec fn with(&self, p: Position, cell: Cell) -> Seq<Seq<Cell>> {
        self.cells.update(p.row as int, self.cells[p.row as int].update(p.col as int, cell))
    }
}

impl View for Board {
    type V = BoardModel;

    closed spec fn view(&self) -> BoardModel {
        BoardModel { size: self.size as nat, cells: grid_of(self.cells) }
    }
}

impl Clone for Board {
    fn clone(&self) -> (r: Self)
        ensures
            r@ == self@,
            r.n() == self.n(),
    {
        Board { size: self.size, cells: grid_clone(&self.cells) }
    }
}

impl Board {
    /// The side length.
    pub open spec fn n(&self) -> nat {
        self@.size
    }

    pub open spec fn wf(&self) -> bool {
        self@.wf()
    }

    pub open spec fn in_bounds(&self, p: Position) -> bool {
        self@.in_bounds(p)
    }

    /// The four cells of the 2x2 block at the middle of an `n`-sided board.
    pub open spec fn centers(n: int) -> Seq<Position> {
        let m = n / 2;
        seq![
            Position { row: (m - 1) as usize, col: (m - 1) as usize },
            Position { row: (m - 1) as usize, col: m as usize },
            Position { row: m as usize, col: (m - 1) as usize },
            Position { row: m as usize, col: m as usize },
        ]
    }

    pub open spec fn corners(n: int) -> Seq<Position> {
        seq![
            Position { row: 0, col: 0 },
            Position { row: 0, col: (n - 1) as usize },
            Position { row: (n - 1) as usize, col: 0 },
            Position { row: (n - 1) as usize, col: (n - 1) as usize },
        ]
    }

    /// The on-board neighbours of `p`, in the order Up, Down, Left, Right.
    pub open spec fn neighbors(p: Position, n: int) -> Seq<Position> {
        all_directions().filter_map(|d: Direction| step(d, p, n))
    }

    /// A fresh board in the checkerboard pattern.
    pub fn new(size: usize) -> (r: Self)
        requires
            valid_board_size(size as int),
        ensures
            r.wf(),
            r.n() == size,
            r@.cells == checkerboard(size as nat),
    {
        Board { size, cells: grid_new(size) }
    }

    pub fn size(&self) -> (r: usize)
        ensures
            r == self.n(),
    {
        self.size
    }

    pub fn get(&self, pos: Position) -> (r: Option<Cell>)
        requires
            self.wf(),
        ensures
            r == self@.cell_spec(pos),
    {
        if pos.row < self.size && pos.col < self.size {
            Some(grid_get(&self.cells, pos.row, pos.col))
        } else {
            None
        }
    }

    /// Overwrites an on-board cell; a position off the board is ignored.
    pub fn set(&mut self, pos: Position, cell: Cell)
        requires
            old(self).wf(),
        ensures
            final(self).wf(),
            final(self).n() == old(self).n(),
            final(self)@.cells == if old(self).in_bounds(pos) {
                old(self)@.with(pos, cell)
            } else {
                old(self)@.cells
            },
    {
        if pos.row < self.size && pos.col < self.size {
            grid_set(&mut self.cells, pos.row, pos.col, cell);
        }
    }

    pub fn remove(&mut self, pos: Position)
        requires
            old(self).wf(),
        ensures
            final(self).wf(),
            final(self).n() == old(self).n(),
            final(self)@.cells == if old(self).in_bounds(pos) {
                old(self)@.with(pos, Cell::Empty)
            } else {
                old(self)@.cells
            },
    {
        self.set(pos, Cell::Empty);
    }

    pub fn is_empty(&self, pos: Position) -> (r: bool)
        requires
            self.wf(),
        ensures
            r == self@.empty_at(pos),
    {
        match self.get(pos) {
            Some(Cell::Empty) => true,
            _ => false,
        }
    }

    pub fn get_piece_color(&self, pos: Position) -> (r: Option<PieceColor>)
        requires
            self.wf(),
        ensures
            r == self@.color_at(pos),
    {
        match self.get(pos) {
            Some(Cell::Occupied(color)) => Some(color),
            _ => None,
        }
    }

    pub fn center_positions(&self) -> (r: Vec<Position>)
        requires
            self.wf(),
        ensures
            r@ == Self::centers(self.n() as int),
    {
        let mid = self.size / 2;
        let r = vec![
            Position::new(mid - 1, mid - 1),
            Position::new(mid - 1, mid),
            Position::new(mid, mid - 1),
            Position::new(mid, mid),
        ];
        assert(r@ =~= Self::centers(self.n() as int));
        r
    }

    pub fn corner_positions(&self) -> (r: Vec<Position>)
        requires
            self.wf(),
        ensures
            r@ == Self::corners(self.n() as int),
    {
        let r = vec![
            Position::new(0, 0),
            Position::new(0, self.size - 1),
            Position::new(self.size - 1, 0),
            Position::new(self.size - 1, self.size - 1),
        ];
        assert(r@ =~= Self::corners(self.n() as int));
        r
    }

    pub fn orthogonal_neighbors(&self, pos: Position) -> (r: Vec<Position>)
        requires
            self.wf(),
        ensures
            r@ == Self::neighbors(pos, self.n() as int),
    {
        let dirs = Direction::all();
        let mut r: Vec<Position> = Vec::new();
        let mut i: usize = 0;
        while i < 4
            invariant
                0 <= i <= 4,
                self.wf(),
                dirs@ == all_directions(),
                r@ == all_directions().take(i as int).filter_map(|d: Direction| step(d, pos, self.n() as int)),
            decreases 4 - i,
        {
            proof {
                all_directions().lemma_filter_map_take_succ(|d: Direction| step(d, pos, self.n() as int), i as int);
            }
            if let Some(p) = dirs[i].apply(pos, self.size) {
                r.push(p);
            }
            i = i + 1;
        }
        assert(all_directions().take(4) =~= all_directions());
        r
    }
}

/// A move as recorded in a game's history.
#[derive(Debug)]
pub enum MoveRecord {
    OpeningRemoval { color: PieceColor, position: Position },
    Jump { color: PieceColor, from: Position, to: Position, captured: Vec<Position> },
}

/// The mathematical content of a move record.
pub enum MoveView {
    Removal { color: PieceColor, position: Position },
    Jump { color: PieceColor, from: Position, to: Position, captured: Seq<Position> },
}

impl View for MoveRecord {
    type V = MoveView;

    open spec fn view(&self) -> MoveView {
        match self {
            MoveRecord::OpeningRemoval { color, position } => MoveView::Removal {
                color: *color,
                position: *position,
            },
            MoveRecord::Jump { color, from, to, captured } => MoveView::Jump {
                color: *color,
                from: *from,
                to: *to,
                captured: captured@,
            },
        }
    }
}

impl Clone for MoveRecord {
    fn clone(&self) -> (r: Self)
        ensures
            r@ == self@,
    {
        match self {
            MoveRecord::OpeningRemoval { color, position } => MoveRecord::OpeningRemoval {
                color: *color,
                position: *position,
            },
            MoveRecord::Jump { color, from, to, captured } => {
                let c = captured.clone();
                assert(c@ =~= captured@);
                MoveRecord::Jump { color: *color, from: *from, to: *to, captured: c }
            },
        }
    }
}

pub open spec fn labelable(p: Position) -> bool {
    p.col < 26 && p.row < usize::MAX
}

pub open spec fn label(p: Position) -> Seq<char> {
    algebraic(p.row as nat, p.col as nat)
}

impl MoveView {
    /// Whether every cell the record names has a label.
    pub open spec fn labelable(self) -> bool {
        match self {
            MoveView::Removal { position, .. } => labelable(position),
            MoveView::Jump { from, to, .. } => labelable(from) && labelable(to),
        }
    }

    /// The record in algebraic notation: `e4` for a removal, `e4-e6` for a
    /// jump.
    pub open spec fn notation(self) -> Seq<char> {
        match self {
            MoveView::Removal { position, .. } => label(position),
            MoveView::Jump { from, to, .. } => label(from) + "-"@ + label(to),
        }
    }
}

impl MoveView {
    /// A sentence describing the move: `Black removes piece at d4` or
    /// `White jumps c3-c5 capturing 1 piece(s)`.
    pub open spec fn description(self) -> Seq<char> {
        match self {
            MoveView::Removal { color, position } => color_name(color) + " removes piece at "@ + label(position),
            MoveView::Jump { color, captured, .. } => color_name(color) + " jumps "@ + self.notation()
                + " capturing "@ + decimal(captured.len()) + " piece(s)"@,
        }
    }
}

impl MoveRecord {
    /// A sentence describing the move; see `MoveView::description`.
    pub fn description(&self) -> (r: String)
        requires
            self@.labelable(),
        ensures
            r@ == self@.description(),
    {
        let mut s = String::new();
        match self {
            MoveRecord::OpeningRemoval { color, position } => {
                s.append(color.name());
                s.append(" removes piece at ");
                let l = position.to_algebraic();
                s.append(l.as_str());
            },
            MoveRecord::Jump { color, captured, .. } => {
                s.append(color.name());
                s.append(" jumps ");
                let n = self.to_algebraic();
                s.append(n.as_str());
                s.append(" capturing ");
                push_decimal(&mut s, captured.len());
                s.append(" piece(s)");
            },
        }
        assert(s@ =~= self@.description());
        s
    }

    /// The record in algebraic notation: `e4` for a removal, `e4-e6` for a
    /// jump.
    pub fn to_algebraic(&self) -> (r: String)
        requires
            self@.labelable(),
        ensures
            r@ == self@.notation(),
    {
        match self {
            MoveRecord::OpeningRemoval { position, .. } => position.to_algebraic(),
            MoveRecord::Jump { from, to, .. } => {
                let mut s = from.to_algebraic();
                s.append("-");
                let t = to.to_algebraic();
                s.append(t.as_str());
                s
            },
        }
    }
}

/// The moves of a game, in order.
pub type MoveHistory = Vec<MoveRecord>;

/// What a game state is: the board, the phase, the side to move, and the
/// cell vacated by Black's opening removal.
pub struct GameModel {
    pub board: BoardModel,
    pub phase: GamePhase,
    pub current_player: PieceColor,
    pub first_removal_pos: Option<Position>,
}

/// The whole state of a game.  The fingerprint `hash` is kept up to date by
/// every method that changes the position.
#[derive(Debug)]
pub struct GameState {
    pub board: Board,
    pub phase: GamePhase,
    pub current_player: PieceColor,
    /// The cell vacated by Black's opening removal, once it has happened.
    pub first_removal_pos: Option<Position>,
    /// The fingerprint, updated by every change of the position.
    pub hash: ZHash,
}

impl Clone for GameState {
    fn clone(&self) -> (r: Self)
        ensures
            r.board@ == self.board@,
            r.board.n() == self.board.n(),
            r.phase == self.phase,
            r.current_player == self.current_player,
            r.first_removal_pos == self.first_removal_pos,
            self.wf() ==> r.wf(),
    {
        GameState {
            board: self.board.clone(),
            phase: self.phase,
            current_player: self.current_player,
            first_removal_pos: self.first_removal_pos,
            hash: self.hash,
        }
    }
}

impl GameState {
    pub open spec fn model(&self) -> GameModel {
        GameModel {
            board: self.board@,
            phase: self.phase,
            current_player: self.current_player,
            first_removal_pos: self.first_removal_pos,
        }
    }

    /// The fingerprint of the position, computed from scratch.
    pub open spec fn spec_fingerprint(&self) -> u64 {
        position_hash(self.board@.cells, self.board.n(), self.phase, self.current_player)
    }

    /// The incrementally maintained hash agrees with the from-scratch one.
    pub open spec fn hash_in_sync(&self) -> bool {
        self.hash@ == self.spec_fingerprint()
    }

    pub open spec fn wf(&self) -> bool {
        &&& self.board.wf()
        &&& self.hash_in_sync()
    }

    /// The side that makes the first move of every game.
    pub open spec fn initial_mover() -> PieceColor {
        PieceColor::Black
    }

    /// A new game: a checkerboard, Black to make the first opening removal.
    /// Black always opens; `_first_player` is kept for callers that track
    /// which side a human plays.
    pub fn new(board_size: usize, _first_player: PieceColor) -> (r: Self)
        requires
            valid_board_size(board_size as int),
        ensures
            r.wf(),
            r.board.n() == board_size,
            r.board@.cells == checkerboard(board_size as nat),
            r.phase == GamePhase::OpeningBlackRemoval,
            r.current_player == Self::initial_mover(),
            r.first_removal_pos == None::<Position>,
    {
        let board = Board::new(board_size);
        let phase = GamePhase::OpeningBlackRemoval;
        let hash = ZHash::from_state(&board, &phase, PieceColor::Black);
        GameState { board, phase, current_player: PieceColor::Black, first_removal_pos: None, hash }
    }

    pub fn board_size(&self) -> (r: usize)
        ensures
            r == self.board.n(),
    {
        self.board.size()
    }

    pub fn board(&self) -> (r: &Board)
        ensures
            r == &self.board,
    {
        &self.board
    }

    pub fn current_player(&self) -> (r: PieceColor)
        ensures
            r == self.current_player,
    {
        self.current_player
    }

    pub fn current_phase(&self) -> (r: GamePhase)
        ensures
            r == self.phase,
    {
        self.phase
    }

    /// The position's fingerprint, as maintained incrementally; it equals the
    /// fingerprint computed from scratch.
    pub fn fingerprint(&self) -> (r: u64)
        requires
            self.wf(),
        ensures
            r == self.spec_fingerprint(),
    {
        self.hash.value()
    }

    /// Sets the cell at an on-board `pos` to `cell`, keeping the hash in step.
    fn put_cell(&mut self, pos: Position, cell: Cell)
        requires
            old(self).wf(),
            old(self).board.in_bounds(pos),
        ensures
            final(self).wf(),
            final(self).board.n() == old(self).board.n(),
            final(self).board@.cells == old(self).board@.with(pos, cell),
            final(self).phase == old(self).phase,
            final(self).current_player == old(self).current_player,
            final(self).first_removal_pos == old(self).first_removal_pos,
    {
        let ghost cells = self.board@.cells;
        let ghost n = self.board.n();
        let before = self.board.get(pos);
        let flips = match (before, cell) {
            (Some(Cell::Occupied(_)), Cell::Empty) => true,
            (Some(Cell::Empty), Cell::Occupied(_)) => true,
            _ => false,
        };
        self.board.set(pos, cell);
        proof {
            lemma_cells_hash_update(cells, n, n, pos.row as int, pos.col as int, cell);
        }
        if flips {
            let ghost h = self.hash@;
            self.hash.remove_stone(pos);
            proof {
                let c = crate::zhash::cells_hash(cells, n, n);
                lemma_xor_refold(
                    c,
                    turn_part(self.current_player),
                    phase_key(phase_index(self.phase)),
                    piece_key((pos.row * 16 + pos.col) as nat),
                );
            }
        } else {
            proof {
                let c = crate::zhash::cells_hash(cells, n, n);
                lemma_xor(c, 0, 0);
            }
        }
    }

    /// Takes the piece off an on-board `pos`; an empty or off-board cell is
    /// left as it is.
    pub fn remove_stone(&mut self, pos: Position)
        requires
            old(self).wf(),
        ensures
            final(self).wf(),
            final(self).board.n() == old(self).board.n(),
            final(self).board@.cells == if old(self).board.in_bounds(pos) {
                old(self).board@.with(pos, Cell::Empty)
            } else {
                old(self).board@.cells
            },
            final(self).phase == old(self).phase,
            final(self).current_player == old(self).current_player,
            final(self).first_removal_pos == old(self).first_removal_pos,
    {
        if pos.row < self.board.size() && pos.col < self.board.size() {
            self.put_cell(pos, Cell::Empty);
        }
    }

    /// Puts a piece of `color` on an on-board `pos`.
    pub fn place_stone(&mut self, pos: Position, color: PieceColor)
        requires
            old(self).wf(),
            old(self).board.in_bounds(pos),
        ensures
            final(self).wf(),
            final(self).board.n() == old(self).board.n(),
            final(self).board@.cells == old(self).board@.with(pos, Cell::Occupied(color)),
            final(self).phase == old(self).phase,
            final(self).current_player == old(self).current_player,
            final(self).first_removal_pos == old(self).first_removal_pos,
    {
        self.put_cell(pos, Cell::Occupied(color));
    }

    /// Hands the move to `color`.
    pub fn set_current_player(&mut self, color: PieceColor)
        requires
            old(self).wf(),
        ensures
            final(self).wf(),
            final(self).board == old(self).board,
            final(self).phase == old(self).phase,
            final(self).current_player == color,
            final(self).first_removal_pos == old(self).first_removal_pos,
    {
        if color != self.current_player {
            proof {
                let c = crate::zhash::cells_hash(self.board@.cells, self.board.n(), self.board.n());
                let p = phase_key(phase_index(self.phase));
                lemma_xor_refold(c, turn_part(self.current_player), p, turn_key());
                lemma_xor(0, turn_key(), 0);
                lemma_xor(turn_key(), turn_key(), 0);
            }
            self.hash.end_turn();
            self.current_player = color;
        }
    }

    /// Moves the game to `phase`.
    pub fn change_phase(&mut self, phase: GamePhase)
        requires
            old(self).wf(),
        ensures
            final(self).wf(),
            final(self).board == old(self).board,
            final(self).phase == phase,
            final(self).current_player == old(self).current_player,
            final(self).first_removal_pos == old(self).first_removal_pos,
    {
        proof {
            let c = crate::zhash::cells_hash(self.board@.cells, self.board.n(), self.board.n());
            lemma_xor_refold(
                c,
                turn_part(self.current_player),
                phase_key(phase_index(self.phase)),
                phase_key(phase_index(phase)),
            );
        }
        self.hash.change_phase(&self.phase, &phase);
        self.phase = phase;
    }

    pub fn set_first_removal(&mut self, pos: Option<Position>)
        requires
            old(self).wf(),
        ensures
            final(self).wf(),
            final(self).board == old(self).board,
            final(self).phase == old(self).phase,
            final(self).current_player == old(self).current_player,
            final(self).first_removal_pos == pos,
    {
        self.first_removal_pos = pos;
    }
}

} // verus!
