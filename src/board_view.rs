//! Selection and removal-animation bookkeeping of the board view.  Time is
//! given in milliseconds from any fixed origin.

use vstd::prelude::*;
use crate::rules::{Jump, JumpView};
use crate::state::{PieceColor, Position};

verus! {

/// How long a removed piece takes to fade out.
pub const ANIMATION_DURATION_MS: u64 = 300;

/// Messages of the board view.
#[derive(Debug)]
pub enum BoardMessage {
    CellClicked(Position),
    JumpSelected(Jump),
}

/// The piece the user has selected, with its legal jumps.
#[derive(Debug)]
pub enum SelectionState {
    Unselected,
    PieceSelected(Position, Vec<Jump>),
}

/// A removed piece fading out.
#[derive(Debug, Clone, Copy, PartialEq, Eq, Structural)]
pub struct RemovalAnimation {
    pub position: Position,
    pub color: PieceColor,
    pub start_ms: u64,
}

/// Milliseconds from `start` to `now`; zero if `now` is earlier.
pub open spec fn elapsed(start: u64, now: u64) -> nat {
    if now >= start {
        (now - start) as nat
    } else {
        0
    }
}

impl RemovalAnimation {
    pub fn new(position: Position, color: PieceColor, now_ms: u64) -> (r: Self)
        ensures
            r == (RemovalAnimation { position, color, start_ms: now_ms }),
    {
        RemovalAnimation { position, color, start_ms: now_ms }
    }

    pub fn elapsed_ms(&self, now_ms: u64) -> (r: u64)
        ensures
            r == elapsed(self.start_ms, now_ms),
    {
        now_ms.saturating_sub(self.start_ms)
    }

    /// Whether the fade has run its full duration at `now_ms`.
    pub fn is_complete(&self, now_ms: u64) -> (r: bool)
        ensures
            r == (elapsed(self.start_ms, now_ms) >= ANIMATION_DURATION_MS),
    {
        self.elapsed_ms(now_ms) >= ANIMATION_DURATION_MS
    }
}

/// The board view's state: the selection and the running animations.
pub struct BoardView {
    pub selection: SelectionState,
    pub animations: Vec<RemovalAnimation>,
}

impl Default for BoardView {
    fn default() -> (r: Self)
        ensures
            r.selected() is None,
            r.animations@.len() == 0,
    {
        BoardView { selection: SelectionState::Unselected, animations: Vec::new() }
    }
}

impl BoardView {
    /// The selected piece and its jumps, if any.
    pub open spec fn selected(&self) -> Option<(Position, Seq<JumpView>)> {
        match self.selection {
            SelectionState::Unselected => None,
            SelectionState::PieceSelected(p, jumps) => Some((p, jumps@.map_values(|j: Jump| j@))),
        }
    }

    pub fn select_piece(&mut self, pos: Position, jumps: Vec<Jump>)
        ensures
            final(self).selected() == Some((pos, jumps@.map_values(|j: Jump| j@))),
            final(self).animations@ == old(self).animations@,
    {
        self.selection = SelectionState::PieceSelected(pos, jumps);
    }

    pub fn clear_selection(&mut self)
        ensures
            final(self).selected() is None,
            final(self).animations@ == old(self).animations@,
    {
        self.selection = SelectionState::Unselected;
    }

    pub fn selection(&self) -> (r: &SelectionState)
        ensures
            r == &self.selection,
    {
        &self.selection
    }

    /// Starts fading out a removed piece.
    pub fn animate_removal(&mut self, position: Position, color: PieceColor, now_ms: u64)
        ensures
            final(self).animations@ == old(self).animations@.push(
                RemovalAnimation { position, color, start_ms: now_ms },
            ),
            final(self).selected() == old(self).selected(),
    {
        self.animations.push(RemovalAnimation::new(position, color, now_ms));
    }

    /// Drops the animations that have completed at `now_ms`, keeping the
    /// others in order.
    pub fn update_animations(&mut self, now_ms: u64)
        ensures
            final(self).animations@ == old(self).animations@.filter(
                |a: RemovalAnimation| elapsed(a.start_ms, now_ms) < ANIMATION_DURATION_MS,
            ),
            final(self).selected() == old(self).selected(),
    {
        let ghost keep = |a: RemovalAnimation| elapsed(a.start_ms, now_ms) < ANIMATION_DURATION_MS;
        let ghost start = self.animations@;
        let mut kept: Vec<RemovalAnimation> = Vec::new();
        let mut i: usize = 0;
        assert(start.take(0).filter(keep) =~= Seq::<RemovalAnimation>::empty()) by {
            reveal(Seq::filter);
        }
        while i < self.animations.len()
            invariant
                start == self.animations@,
                keep == (|a: RemovalAnimation| elapsed(a.start_ms, now_ms) < ANIMATION_DURATION_MS),
                i <= self.animations@.len(),
                kept@ == start.take(i as int).filter(keep),
            decreases self.animations.len() - i,
        {
            let a = self.animations[i];
            proof {
                assert(start.take(i as int + 1) =~= start.take(i as int).push(a));
                start.take(i as int).lemma_filter_push(a, keep);
            }
            if !a.is_complete(now_ms) {
                kept.push(a);
            }
            i = i + 1;
        }
        assert(start.take(start.len() as int) =~= start);
        self.animations = kept;
    }

    pub fn has_animations(&self) -> (r: bool)
        ensures
            r == (self.animations@.len() > 0),
    {
        self.animations.len() > 0
    }
}

} // verus!
