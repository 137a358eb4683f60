//! Zobrist fingerprints of game positions.
//!
//! A fingerprint is the XOR of one pseudo-random key per occupied cell, a
//! key for "White to move", and a key for the current phase.  Every key is
//! drawn from a fixed xorshift sequence, so fingerprints agree across runs.

use vstd::prelude::*;
use crate::state::{Board, Cell, GamePhase, PieceColor, Position};

verus! {

/// Type of fingerprint values.
pub type Z = u64;

/// The value of a hash that nothing has been folded into.
pub const INITIAL_VALUE: u64 = 0;

/// Largest supported board side; cell keys are laid out for it.
pub const MAX_SIZE: usize = 16;

/// Seed of the key sequence.
pub const SEED: u64 = 0x1234_5678_9ABC_DEF0;

/// One step of the xorshift64 generator.
pub open spec fn xorshift(x: u64) -> u64 {
    let a = x ^ (x << 13u64);
    let b = a ^ (a >> 7u64);
    b ^ (b << 17u64)
}

/// The state of the generator after `k` steps from the seed.
pub open spec fn nth_random(k: nat) -> u64
    decreases k,
{
    if k == 0 {
        SEED
    } else {
        xorshift(nth_random((k - 1) as nat))
    }
}

/// Key of the cell with index `idx` (`row * 16 + col`): the first 256 draws.
pub open spec fn piece_key(idx: nat) -> u64 {
    nth_random(idx + 1)
}

/// Key folded in when White is to move: the draw after the cell keys.
pub open spec fn turn_key() -> u64 {
    nth_random(257)
}

/// Key of the phase with index `i`: the six draws after the turn key.
pub open spec fn phase_key(i: nat) -> u64 {
    nth_random(258 + i)
}

pub open spec fn pos_index(p: Position) -> nat {
    (p.row * 16 + p.col) as nat
}

pub open spec fn phase_index(p: GamePhase) -> nat {
    match p {
        GamePhase::Setup => 0,
        GamePhase::OpeningBlackRemoval => 1,
        GamePhase::OpeningWhiteRemoval => 2,
        GamePhase::Play => 3,
        GamePhase::GameOver { winner: PieceColor::Black } => 4,
        GamePhase::GameOver { winner: PieceColor::White } => 5,
    }
}

pub open spec fn occupied(c: Cell) -> bool {
    c is Occupied
}

/// XOR of the keys of the occupied cells among the first `k` of row `r`.
pub open spec fn row_hash(row: Seq<Cell>, r: nat, k: nat) -> u64
    decreases k,
{
    if k == 0 {
        0
    } else {
        let prev = row_hash(row, r, (k - 1) as nat);
        if occupied(row[k - 1]) {
            prev ^ piece_key(r * 16 + (k - 1) as nat)
        } else {
            prev
        }
    }
}

/// XOR of the keys of the occupied cells among the first `k` rows of an
/// `n`-column grid.
pub open spec fn cells_hash(cells: Seq<Seq<Cell>>, n: nat, k: nat) -> u64
    decreases k,
{
    if k == 0 {
        0
    } else {
        cells_hash(cells, n, (k - 1) as nat) ^ row_hash(cells[k - 1], (k - 1) as nat, n)
    }
}

pub open spec fn turn_part(turn: PieceColor) -> u64 {
    if turn == PieceColor::White {
        turn_key()
    } else {
        0
    }
}

/// The fingerprint of a position, computed from scratch.
pub open spec fn position_hash(cells: Seq<Seq<Cell>>, n: nat, phase: GamePhase, turn: PieceColor) -> u64 {
    cells_hash(cells, n, n) ^ turn_part(turn) ^ phase_key(phase_index(phase))
}

/// A xorshift64 pseudo-random generator.
pub struct XorShift64 {
    state: u64,
}

impl XorShift64 {
    pub closed spec fn spec_state(&self) -> u64 {
        self.state
    }

    pub fn new(seed: u64) -> (r: Self)
        ensures
            r.spec_state() == seed,
    {
        XorShift64 { state: seed }
    }

    pub fn next(&mut self) -> (r: u64)
        ensures
            r == xorshift(old(self).spec_state()),
            final(self).spec_state() == r,
    {
        let mut x = self.state;
        x ^= x << 13u64;
        x ^= x >> 7u64;
        x ^= x << 17u64;
        self.state = x;
        x
    }
}

/// The `k`-th state of the key sequence.
fn random_at(k: usize) -> (r: u64)
    ensures
        r == nth_random(k as nat),
{
    let mut rng = XorShift64::new(SEED);
    let mut i: usize = 0;
    while i < k
        invariant
            i <= k,
            rng.spec_state() == nth_random(i as nat),
        decreases k - i,
    {
        rng.next();
        i = i + 1;
    }
    rng.state
}

fn pos_to_index(pos: Position) -> (r: usize)
    requires
        pos.row < MAX_SIZE,
        pos.col < MAX_SIZE,
    ensures
        r == pos_index(pos),
        r < 256,
{
    pos.row * MAX_SIZE + pos.col
}

fn phase_to_index(phase: &GamePhase) -> (r: usize)
    ensures
        r == phase_index(*phase),
{
    match phase {
        GamePhase::Setup => 0,
        GamePhase::OpeningBlackRemoval => 1,
        GamePhase::OpeningWhiteRemoval => 2,
        GamePhase::Play => 3,
        GamePhase::GameOver { winner: PieceColor::Black } => 4,
        GamePhase::GameOver { winner: PieceColor::White } => 5,
    }
}

fn piece_key_of(pos: Position) -> (r: u64)
    requires
        pos.row < MAX_SIZE,
        pos.col < MAX_SIZE,
    ensures
        r == piece_key(pos_index(pos)),
{
    random_at(pos_to_index(pos) + 1)
}

fn phase_key_of(phase: &GamePhase) -> (r: u64)
    ensures
        r == phase_key(phase_index(*phase)),
{
    random_at(258 + phase_to_index(phase))
}

/// XOR facts used by the hash proofs.
pub proof fn lemma_xor(a: u64, b: u64, c: u64)
    ensures
        a ^ 0 == a,
        0u64 ^ a == a,
        a ^ b == b ^ a,
        (a ^ b) ^ c == a ^ (b ^ c),
        (a ^ b) ^ c == (a ^ c) ^ b,
        (a ^ b) ^ b == a,
{
    assert(a ^ 0 == a) by (bit_vector);
    assert(0u64 ^ a == a) by (bit_vector);
    assert(a ^ b == b ^ a) by (bit_vector);
    assert((a ^ b) ^ c == a ^ (b ^ c)) by (bit_vector);
    assert((a ^ b) ^ c == (a ^ c) ^ b) by (bit_vector);
    assert((a ^ b) ^ b == a) by (bit_vector);
}

/// Key of `(row, col)` when changing that cell from `before` to `after`
/// flips its occupancy, else zero.
pub open spec fn toggle_key(row: int, col: int, before: Cell, after: Cell) -> u64 {
    if occupied(before) != occupied(after) {
        piece_key((row * 16 + col) as nat)
    } else {
        0
    }
}

proof fn lemma_row_hash_update(row: Seq<Cell>, r: nat, k: nat, c0: int, x: Cell)
    requires
        0 <= c0 < row.len(),
        k <= row.len(),
    ensures
        row_hash(row.update(c0, x), r, k) == row_hash(row, r, k) ^ (if c0 < k {
            toggle_key(r as int, c0, row[c0], x)
        } else {
            0u64
        }),
    decreases k,
{
    let row2 = row.update(c0, x);
    if k == 0 {
        lemma_xor(0, 0, 0);
    } else {
        let j = (k - 1) as nat;
        lemma_row_hash_update(row, r, j, c0, x);
        let h_old = row_hash(row, r, j);
        let h_new = row_hash(row2, r, j);
        let key = piece_key(r * 16 + j);
        let d = if c0 < j { toggle_key(r as int, c0, row[c0], x) } else { 0u64 };
        lemma_xor(h_old, d, key);
        lemma_xor(h_old, key, key);
        lemma_xor(h_old, key, 0);
        assert(h_new == h_old ^ d);
        if j == c0 {
            assert(d == 0);
            lemma_xor(h_old, 0, 0);
        }
    }
}

/// Changing one cell changes the grid's hash by that cell's toggle key.
pub proof fn lemma_cells_hash_update(cells: Seq<Seq<Cell>>, n: nat, k: nat, r0: int, c0: int, x: Cell)
    requires
        0 <= r0 < cells.len(),
        0 <= c0 < n,
        cells[r0].len() == n,
        k <= cells.len(),
    ensures
        cells_hash(cells.update(r0, cells[r0].update(c0, x)), n, k) == cells_hash(cells, n, k) ^ (
        if r0 < k {
            toggle_key(r0, c0, cells[r0][c0], x)
        } else {
            0u64
        }),
    decreases k,
{
    let cells2 = cells.update(r0, cells[r0].update(c0, x));
    if k == 0 {
        lemma_xor(0, 0, 0);
    } else {
        let j = (k - 1) as nat;
        lemma_cells_hash_update(cells, n, j, r0, c0, x);
        let a1 = cells_hash(cells, n, j);
        let a2 = cells_hash(cells2, n, j);
        let b1 = row_hash(cells[j as int], j, n);
        let b2 = row_hash(cells2[j as int], j, n);
        let t = toggle_key(r0, c0, cells[r0][c0], x);
        if j == r0 {
            lemma_row_hash_update(cells[r0], j, n, c0, x);
            assert(b2 == b1 ^ t);
            assert(a2 == a1 ^ 0u64);
            lemma_xor(a1, 0, 0);
            lemma_xor(a1, b1, t);
        } else {
            assert(cells2[j as int] == cells[j as int]);
            let d = if r0 < j { t } else { 0u64 };
            assert(a2 == a1 ^ d);
            lemma_xor(a1, d, b1);
            lemma_xor(a1, b1, d);
        }
    }
}

/// Rearrangements of a three-part hash after one more key is folded in.
pub proof fn lemma_xor_refold(c: u64, t: u64, p: u64, k: u64)
    ensures
        ((c ^ k) ^ t) ^ p == ((c ^ t) ^ p) ^ k,
        (c ^ (t ^ k)) ^ p == ((c ^ t) ^ p) ^ k,
        (c ^ t) ^ k == (((c ^ t) ^ p) ^ p) ^ k,
{
    assert(((c ^ k) ^ t) ^ p == ((c ^ t) ^ p) ^ k) by (bit_vector);
    assert((c ^ (t ^ k)) ^ p == ((c ^ t) ^ p) ^ k) by (bit_vector);
    assert((c ^ t) ^ k == (((c ^ t) ^ p) ^ p) ^ k) by (bit_vector);
}

/// Zobrist hash of a game position, updated incrementally.
#[derive(Debug, Clone, Copy, PartialEq, Eq, Structural)]
pub struct ZHash {
    value: Z,
}

impl View for ZHash {
    type V = u64;

    closed spec fn view(&self) -> u64 {
        self.value
    }
}

impl ZHash {
    /// Creates a hash from a complete position, folding every occupied cell,
    /// the turn and the phase.
    pub fn from_state(board: &Board, phase: &GamePhase, turn: PieceColor) -> (r: Self)
        requires
            board.wf(),
        ensures
            r@ == position_hash(board@.cells, board.n(), *phase, turn),
    {
        let mut value: Z = 0;
        let size = board.size();
        let ghost cells = board@.cells;
        let mut row: usize = 0;
        proof {
            lemma_xor(0, 0, 0);
        }
        while row < size
            invariant
                board.wf(),
                size == board.n(),
                cells == board@.cells,
                row <= size,
                value == cells_hash(cells, size as nat, row as nat),
            decreases size - row,
        {
            let ghost before = value;
            let mut col: usize = 0;
            proof {
                lemma_xor(before, 0, 0);
            }
            while col < size
                invariant
                    board.wf(),
                    size == board.n(),
                    cells == board@.cells,
                    row < size,
                    col <= size,
                    before == cells_hash(cells, size as nat, row as nat),
                    value == before ^ row_hash(cells[row as int], row as nat, col as nat),
                decreases size - col,
            {
                let pos = Position::new(row, col);
                let ghost rh = row_hash(cells[row as int], row as nat, col as nat);
                if let Some(Cell::Occupied(_)) = board.get(pos) {
                    let key = piece_key_of(pos);
                    proof {
                        lemma_xor(before, rh, key);
                    }
                    value = value ^ key;
                }
                col = col + 1;
            }
            row = row + 1;
        }
        let ghost c = value;
        if turn == PieceColor::White {
            value = value ^ random_at(257);
        }
        proof {
            lemma_xor(c, 0, 0);
        }
        value = value ^ phase_key_of(phase);
        ZHash { value }
    }
    /// Creates a new hash with the initial value.
    pub fn new() -> (r: Self)
        ensures
            r@ == INITIAL_VALUE,
    {
        ZHash { value: INITIAL_VALUE }
    }

    /// Returns the current hash value.
    pub fn value(&self) -> (r: Z)
        ensures
            r == self@,
    {
        self.value
    }

    /// Updates the hash after a piece is removed from (or placed on) `pos`.
    pub fn remove_stone(&mut self, pos: Position)
        requires
            pos.row < MAX_SIZE,
            pos.col < MAX_SIZE,
        ensures
            final(self)@ == old(self)@ ^ piece_key(pos_index(pos)),
    {
        self.value = self.value ^ piece_key_of(pos);
    }

    /// Updates the hash after a piece moves from `from` to `to`.
    pub fn move_stone(&mut self, from: Position, to: Position)
        requires
            from.row < MAX_SIZE,
            from.col < MAX_SIZE,
            to.row < MAX_SIZE,
            to.col < MAX_SIZE,
        ensures
            final(self)@ == old(self)@ ^ piece_key(pos_index(from)) ^ piece_key(pos_index(to)),
    {
        self.value = self.value ^ piece_key_of(from);
        self.value = self.value ^ piece_key_of(to);
    }

    /// Updates the hash after the side to move changes.
    pub fn end_turn(&mut self)
        ensures
            final(self)@ == old(self)@ ^ turn_key(),
    {
        self.value = self.value ^ random_at(257);
    }

    /// Updates the hash after the phase changes from `old_phase` to `new_phase`.
    pub fn change_phase(&mut self, old_phase: &GamePhase, new_phase: &GamePhase)
        ensures
            final(self)@ == old(self)@ ^ phase_key(phase_index(*old_phase)) ^ phase_key(
                phase_index(*new_phase),
            ),
    {
        self.value = self.value ^ phase_key_of(old_phase);
        self.value = self.value ^ phase_key_of(new_phase);
    }
}

} // verus!
