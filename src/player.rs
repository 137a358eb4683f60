//! Players: the moves they hand to the game and the input they receive.

use vstd::prelude::*;
use crate::rules::Jump;
use crate::state::{GameState, PieceColor, Position};

verus! {

/// A move that a player hands to the game.
#[derive(Debug)]
pub enum PlayerMove {
    OpeningRemoval(Position),
    Jump(Jump),
}

/// Input from the user interface for a human player.
#[derive(Debug)]
pub enum PlayerInput {
    PositionSelected(Position),
    JumpSelected(Jump),
    Cancel,
}

/// A participant in a game: a human at the interface, an engine, or a
/// remote peer.
pub trait Player {
    fn color(&self) -> PieceColor;

    /// Asked when it is this player's turn; `None` while no move is ready.
    fn request_move(&mut self, state: &GameState) -> Option<PlayerMove>;

    /// Input selected at the interface.
    fn receive_input(&mut self, input: PlayerInput);

    fn is_ready(&self) -> bool;
}

/// A player whose moves come from the interface.
pub struct HumanPlayer {
    color: PieceColor,
    pending_move: Option<PlayerMove>,
}

impl HumanPlayer {
    pub closed spec fn spec_color(&self) -> PieceColor {
        self.color
    }

    pub closed spec fn spec_ready(&self) -> bool {
        self.pending_move is Some
    }

    pub fn new(color: PieceColor) -> (r: Self)
        ensures
            r.spec_color() == color,
            !r.spec_ready(),
    {
        HumanPlayer { color, pending_move: None }
    }
}

impl Player for HumanPlayer {
    fn color(&self) -> PieceColor {
        self.color
    }

    fn request_move(&mut self, _state: &GameState) -> Option<PlayerMove> {
        self.pending_move.take()
    }

    fn receive_input(&mut self, input: PlayerInput) {
        match input {
            PlayerInput::PositionSelected(pos) => {
                self.pending_move = Some(PlayerMove::OpeningRemoval(pos));
            },
            PlayerInput::JumpSelected(jump) => {
                self.pending_move = Some(PlayerMove::Jump(jump));
            },
            PlayerInput::Cancel => {
                self.pending_move = None;
            },
        }
    }

    fn is_ready(&self) -> bool {
        self.pending_move.is_some()
    }
}

} // verus!
