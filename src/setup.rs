//! The choices made before a game starts.

use vstd::prelude::*;
use crate::state::PieceColor;

verus! {

/// Colour choice for the first player.
#[derive(Debug, Clone, Copy, PartialEq, Eq, Structural)]
pub enum ColorOption {
    Black,
    White,
    Random,
}

/// Messages of the setup screen.
#[derive(Debug, Clone, Copy, PartialEq, Eq, Structural)]
pub enum SetupMessage {
    BoardSizeSelected(usize),
    ColorOptionSelected(ColorOption),
    StartGame,
}

/// Relies on `rand::random::<bool>`: a fair coin drawn from the thread-local
/// generator; nothing is known of the outcome.
#[verifier::external_body]
fn coin_flip() -> bool {
    rand::random::<bool>()
}

impl ColorOption {
    /// The colour chosen; `Random` draws one of the two.
    pub fn to_piece_color(self) -> (r: PieceColor)
        ensures
            self == ColorOption::Black ==> r == PieceColor::Black,
            self == ColorOption::White ==> r == PieceColor::White,
    {
        match self {
            ColorOption::Black => PieceColor::Black,
            ColorOption::White => PieceColor::White,
            ColorOption::Random => if coin_flip() {
                PieceColor::Black
            } else {
                PieceColor::White
            },
        }
    }

    /// The option's name as shown on the setup screen.
    pub fn name(self) -> (r: &'static str)
        ensures
            r@ == match self {
                ColorOption::Black => "Black"@,
                ColorOption::White => "White"@,
                ColorOption::Random => "Random"@,
            },
    {
        match self {
            ColorOption::Black => "Black",
            ColorOption::White => "White",
            ColorOption::Random => "Random",
        }
    }
}

/// The settings of the setup screen.
pub struct SetupView {
    pub board_size: usize,
    pub color_option: ColorOption,
}

impl Default for SetupView {
    fn default() -> (r: Self)
        ensures
            r.board_size == 8,
            r.color_option == ColorOption::Black,
    {
        SetupView { board_size: 8, color_option: ColorOption::Black }
    }
}

} // verus!
