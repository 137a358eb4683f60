use konane::import::{import_game, parse_winner_color, ImportError, ImportedGame, MoveError};
use konane::rules::Rules;
use konane::state::{GamePhase, GameState, MoveRecord, PieceColor, Position};

fn removal(color: PieceColor, row: usize, col: usize) -> MoveRecord {
    MoveRecord::OpeningRemoval { color, position: Position::new(row, col) }
}

fn jump(color: PieceColor, from: (usize, usize), to: (usize, usize), captured: &[(usize, usize)]) -> MoveRecord {
    MoveRecord::Jump {
        color,
        from: Position::new(from.0, from.1),
        to: Position::new(to.0, to.1),
        captured: captured.iter().map(|&(r, c)| Position::new(r, c)).collect(),
    }
}

fn game(board_size: usize, winner: Option<&str>, moves: Vec<MoveRecord>) -> ImportedGame {
    ImportedGame { board_size, winner: winner.map(|w| w.to_string()), moves }
}

fn opening() -> Vec<MoveRecord> {
    vec![removal(PieceColor::Black, 1, 1), removal(PieceColor::White, 1, 2)]
}

fn error_text(imported: ImportedGame) -> String {
    match import_game(imported) {
        Ok(_) => panic!("expected the log to be refused"),
        Err(e) => e.message(),
    }
}

#[test]
fn accepts_valid_sizes() {
    for size in [4, 6, 8, 10, 12, 14, 16] {
        let result = import_game(game(size, None, vec![]));
        assert!(result.is_ok(), "Board size {} should be valid", size);
    }
}

#[test]
fn rejects_odd_size() {
    let result = import_game(game(5, None, vec![]));
    assert!(result.is_err());
    assert!(error_text(game(5, None, vec![])).contains("even"));
}

#[test]
fn rejects_size_too_small() {
    let result = import_game(game(2, None, vec![]));
    assert!(result.is_err());
}

#[test]
fn rejects_size_too_large() {
    let result = import_game(game(18, None, vec![]));
    assert!(result.is_err());
}

#[test]
fn imports_valid_opening_moves() {
    let result = import_game(game(4, None, opening()));
    assert!(result.is_ok());
    let (state, move_history, undo_stack) = result.unwrap();
    assert_eq!(state.phase, GamePhase::Play);
    assert_eq!(move_history.len(), 2);
    assert_eq!(undo_stack.len(), 2);
}

#[test]
fn rejects_wrong_opening_turn() {
    let g = || game(4, None, vec![removal(PieceColor::White, 1, 2)]);
    assert!(import_game(g()).is_err());
    assert!(error_text(g()).contains("Expected Black"));
}

#[test]
fn rejects_invalid_black_removal_position() {
    let result = import_game(game(4, None, vec![removal(PieceColor::Black, 0, 1)]));
    assert!(result.is_err());
}

#[test]
fn rejects_invalid_white_removal_position() {
    let moves = vec![removal(PieceColor::Black, 1, 1), removal(PieceColor::White, 3, 3)];
    let result = import_game(game(4, None, moves));
    assert!(result.is_err());
}

#[test]
fn imports_valid_jump() {
    let moves = vec![
        removal(PieceColor::Black, 1, 1),
        removal(PieceColor::White, 0, 1),
        jump(PieceColor::Black, (2, 1), (0, 1), &[(1, 1)]),
    ];
    let result = import_game(game(4, None, moves));
    if let Err(e) = result {
        let err = e.message();
        assert!(err.contains("Invalid jump") || err.contains("Position"), "Unexpected error: {}", err);
    }
}

#[test]
fn rejects_jump_during_opening() {
    let g = || game(4, None, vec![jump(PieceColor::Black, (0, 0), (0, 2), &[(0, 1)])]);
    assert!(import_game(g()).is_err());
    assert!(error_text(g()).contains("not allowed"));
}

#[test]
fn rejects_jump_wrong_turn() {
    let g = || {
        let mut moves = opening();
        moves.push(jump(PieceColor::White, (0, 0), (0, 2), &[(0, 1)]));
        game(4, None, moves)
    };
    assert!(import_game(g()).is_err());
    assert!(error_text(g()).contains("Expected Black"));
}

#[test]
fn rejects_jump_with_no_captures() {
    let g = || {
        let mut moves = opening();
        moves.push(jump(PieceColor::Black, (0, 0), (0, 2), &[]));
        game(4, None, moves)
    };
    assert!(import_game(g()).is_err());
    assert!(error_text(g()).contains("capture at least one"));
}

#[test]
fn rejects_out_of_bounds_opening_position() {
    let g = || game(4, None, vec![removal(PieceColor::Black, 10, 1)]);
    assert!(import_game(g()).is_err());
    assert!(error_text(g()).contains("out of bounds"));
}

#[test]
fn rejects_out_of_bounds_jump_from() {
    let g = || {
        let mut moves = opening();
        moves.push(jump(PieceColor::Black, (10, 0), (0, 2), &[(0, 1)]));
        game(4, None, moves)
    };
    assert!(import_game(g()).is_err());
    assert!(error_text(g()).contains("out of bounds"));
}

#[test]
fn rejects_out_of_bounds_jump_to() {
    let g = || {
        let mut moves = opening();
        moves.push(jump(PieceColor::Black, (0, 0), (0, 10), &[(0, 1)]));
        game(4, None, moves)
    };
    assert!(import_game(g()).is_err());
    assert!(error_text(g()).contains("out of bounds"));
}

#[test]
fn rejects_out_of_bounds_captured_position() {
    let g = || {
        let mut moves = opening();
        moves.push(jump(PieceColor::Black, (0, 0), (0, 2), &[(10, 1)]));
        game(4, None, moves)
    };
    assert!(import_game(g()).is_err());
    assert!(error_text(g()).contains("out of bounds"));
}

#[test]
fn accepts_no_winner() {
    let result = import_game(game(4, None, opening()));
    assert!(result.is_ok());
}

#[test]
fn rejects_winner_when_not_game_over() {
    let g = || game(4, Some("Black"), opening());
    assert!(import_game(g()).is_err());
    assert!(error_text(g()).contains("game is not over"));
}

#[test]
fn rejects_invalid_winner_string() {
    let g = || game(4, Some("Green"), vec![]);
    assert!(import_game(g()).is_err());
    assert!(error_text(g()).contains("Invalid winner"));
}

#[test]
fn accepts_lowercase_winner() {
    let g = || game(4, Some("black"), vec![]);
    assert!(import_game(g()).is_err());
    assert!(error_text(g()).contains("not over"));
}

#[test]
fn history_contains_all_intermediate_states() {
    let result = import_game(game(4, None, opening()));
    assert!(result.is_ok());
    let (state, move_history, undo_stack) = result.unwrap();
    assert_eq!(move_history.len(), 2);
    assert_eq!(undo_stack.len(), 2);
    assert_eq!(undo_stack[0].0.phase, GamePhase::OpeningBlackRemoval);
    assert_eq!(undo_stack[1].0.phase, GamePhase::OpeningWhiteRemoval);
    assert_eq!(state.phase, GamePhase::Play);
}

#[test]
fn empty_moves_returns_initial_state() {
    let result = import_game(game(8, None, vec![]));
    assert!(result.is_ok());
    let (state, move_history, undo_stack) = result.unwrap();
    assert_eq!(state.phase, GamePhase::OpeningBlackRemoval);
    assert!(move_history.is_empty());
    assert!(undo_stack.is_empty());
}

#[test]
fn import_accepts_valid_opening_sequence() {
    let result = import_game(game(4, None, opening()));
    assert!(result.is_ok());
}

#[test]
fn import_rejects_invalid_jump() {
    let mut moves = opening();
    moves.push(jump(PieceColor::Black, (0, 0), (0, 2), &[(0, 1)]));
    let result = import_game(game(4, None, moves));
    assert!(result.is_err());
}

#[test]
fn import_rejects_winner_without_game_over() {
    let result = import_game(game(4, Some("White"), opening()));
    assert!(result.is_err());
}

#[test]
fn error_messages_name_the_move() {
    assert_eq!(
        error_text(game(4, None, vec![removal(PieceColor::White, 1, 2)])),
        "Move 1: Expected Black to move, got White"
    );
    assert_eq!(
        error_text(game(4, None, vec![removal(PieceColor::Black, 10, 1)])),
        "Move 1: Position b11 is out of bounds"
    );
    let mut moves = opening();
    moves.push(jump(PieceColor::Black, (0, 0), (0, 2), &[(0, 1)]));
    assert_eq!(error_text(game(4, None, moves)), "Move 3: Invalid jump from a1 to c1");
    assert_eq!(
        error_text(game(4, None, vec![jump(PieceColor::Black, (0, 0), (0, 2), &[(0, 1)])])),
        "Move 1: Jump not allowed during OpeningBlackRemoval"
    );
    assert_eq!(
        error_text(game(4, None, vec![removal(PieceColor::Black, 0, 1)])),
        "Move 1: Invalid removal position for Black"
    );
    assert_eq!(error_text(game(3, None, vec![])), "Invalid board_size: must be even and between 4 and 16");
    assert_eq!(error_text(game(4, Some("x"), vec![])), "Invalid winner: must be \"Black\" or \"White\"");
}

#[test]
fn move_errors_are_exact() {
    match import_game(game(4, None, vec![removal(PieceColor::Black, 0, 1)])) {
        Err(ImportError::Move { number: 1, error: MoveError::Rule(_) }) => {}
        _ => panic!("expected a rule error on move 1"),
    }
    let mut moves = opening();
    moves.push(removal(PieceColor::Black, 0, 0));
    match import_game(game(4, None, moves)) {
        Err(ImportError::Move { number: 3, error: MoveError::RemovalNotAllowed(GamePhase::Play) }) => {}
        _ => panic!("expected a phase error on move 3"),
    }
}

#[test]
fn winner_names_ignore_case() {
    assert_eq!(parse_winner_color("WHITE"), Ok(PieceColor::White));
    assert_eq!(parse_winner_color("Black"), Ok(PieceColor::Black));
    assert_eq!(parse_winner_color("green"), Err(ImportError::InvalidWinner));
}

#[test]
fn winner_of_finished_game_is_checked() {
    // Play a short 4x4 game to its end, always taking the first listed
    // jump, then import its log with the right and the wrong winner.
    let mut state = GameState::new(4, PieceColor::Black);
    let mut moves = Vec::new();
    moves.push(Rules::apply_opening_removal(&mut state, Position::new(0, 0)).unwrap());
    moves.push(Rules::apply_opening_removal(&mut state, Position::new(0, 1)).unwrap());
    while state.phase == GamePhase::Play {
        let jumps = Rules::all_valid_jumps(&state);
        moves.push(Rules::apply_jump(&mut state, &jumps[0]).unwrap());
    }
    let winner = match state.phase {
        GamePhase::GameOver { winner } => winner,
        _ => panic!("game should be over"),
    };
    let name = if winner == PieceColor::Black { "Black" } else { "White" };
    let other = if winner == PieceColor::Black { "White" } else { "Black" };
    assert!(import_game(game(4, Some(name), moves.clone())).is_ok());
    let refused = import_game(game(4, Some(other), moves));
    assert!(matches!(refused, Err(ImportError::WinnerMismatch { .. })));
}

#[test]
fn logged_captures_match_in_any_order() {
    // 6x6: after the opening and three first-listed jumps, the side to move
    // has a two-capture jump; its log entry lists the captures in reverse.
    let mut state = GameState::new(6, PieceColor::Black);
    let mut moves = Vec::new();
    moves.push(Rules::apply_opening_removal(&mut state, Position::new(2, 2)).unwrap());
    moves.push(Rules::apply_opening_removal(&mut state, Position::new(2, 3)).unwrap());
    for _ in 0..3 {
        let jumps = Rules::all_valid_jumps(&state);
        moves.push(Rules::apply_jump(&mut state, &jumps[0]).unwrap());
    }
    let jumps = Rules::all_valid_jumps(&state);
    let double = jumps.iter().find(|j| j.captured.len() == 2).expect("a two-capture jump").clone();
    let mover = state.current_player;
    let mut reversed = double.captured.clone();
    reversed.reverse();
    let mut logged = moves.clone();
    logged.push(MoveRecord::Jump { color: mover, from: double.from, to: double.to, captured: reversed });
    assert!(Rules::apply_jump(&mut state, &double).is_ok());

    let (replayed, history, _) = import_game(game(6, None, logged)).unwrap();
    assert_eq!(history.len(), 6);
    match &history[5] {
        MoveRecord::Jump { captured, .. } => assert_eq!(captured, &double.captured),
        _ => panic!("expected a jump record"),
    }
    for row in 0..6 {
        for col in 0..6 {
            let p = Position::new(row, col);
            assert_eq!(replayed.board.get(p), state.board.get(p));
        }
    }

    // A capture list naming a cell that is not captured is still refused.
    let mut wrong = moves;
    wrong.push(MoveRecord::Jump {
        color: mover,
        from: double.from,
        to: double.to,
        captured: vec![double.captured[0], double.captured[0]],
    });
    assert!(matches!(
        import_game(game(6, None, wrong)),
        Err(ImportError::Move { number: 6, error: MoveError::NoSuchJump { .. } })
    ));
}
