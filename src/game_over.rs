//! The end-of-game summary and its plain-text move log.

use vstd::prelude::*;
use vstd::string::StringExecFns;
use crate::state::{MoveRecord, MoveView, PieceColor};
use crate::text::{decimal, push_decimal};

verus! {

/// Messages of the game-over panel.
#[derive(Debug, Clone, Copy, PartialEq, Eq, Structural)]
pub enum GameOverMessage {
    Dismiss,
    DownloadText,
    DownloadJson,
}

/// The lines of the log for the first `k` moves: `"<n>. <notation>\n"`.
pub open spec fn log_lines(moves: Seq<MoveView>, k: nat) -> Seq<char>
    decreases k,
{
    if k == 0 {
        Seq::empty()
    } else {
        log_lines(moves, (k - 1) as nat) + decimal(k) + ". "@ + moves[k - 1].notation() + "\n"@
    }
}

/// The result line: `1-0` when Black won, `0-1` when White won.
pub open spec fn result_code(winner: PieceColor) -> Seq<char> {
    if winner == PieceColor::Black {
        "1-0"@
    } else {
        "0-1"@
    }
}

/// The finished game: its winner and its moves.
pub struct GameOverView {
    pub winner: PieceColor,
    pub move_history: Vec<MoveRecord>,
}

impl GameOverView {
    pub fn new(winner: PieceColor, move_history: Vec<MoveRecord>) -> (r: Self)
        ensures
            r.winner == winner,
            r.move_history@ == move_history@,
    {
        GameOverView { winner, move_history }
    }

    pub open spec fn history(&self) -> Seq<MoveView> {
        self.move_history@.map_values(|m: MoveRecord| m@)
    }

    /// The numbered moves in algebraic notation, one per line, then the
    /// result code.
    pub fn generate_text_log(&self) -> (r: String)
        requires
            forall|i: int| 0 <= i < self.move_history@.len() ==> (#[trigger] self.move_history@[i])@.labelable(),
        ensures
            r@ == log_lines(self.history(), self.move_history@.len()) + result_code(self.winner) + "\n"@,
    {
        let mut log = String::new();
        let mut i: usize = 0;
        assert(log@ =~= log_lines(self.history(), 0));
        while i < self.move_history.len()
            invariant
                i <= self.move_history@.len(),
                forall|k: int| 0 <= k < self.move_history@.len() ==> (#[trigger] self.move_history@[k])@.labelable(),
                log@ == log_lines(self.history(), i as nat),
            decreases self.move_history.len() - i,
        {
            push_decimal(&mut log, i + 1);
            log.append(". ");
            let line = self.move_history[i].to_algebraic();
            log.append(line.as_str());
            log.append("\n");
            assert(self.history()[i as int] == self.move_history@[i as int]@);
            assert(log@ =~= log_lines(self.history(), (i + 1) as nat));
            i = i + 1;
        }
        match self.winner {
            PieceColor::Black => log.append("1-0"),
            PieceColor::White => log.append("0-1"),
        }
        log.append("\n");
        log
    }
}

} // verus!
