use konane::game_over::GameOverView;
use konane::import::{import_game, ImportedGame};
use konane::rules::{Jump, RuleError, Rules};
use konane::state::{Board, Cell, Direction, GamePhase, GameState, MoveRecord, PieceColor, Position};

fn clear_board(state: &mut GameState) {
    let n = state.board_size();
    for row in 0..n {
        for col in 0..n {
            state.remove_stone(Position::new(row, col));
        }
    }
}

#[test]
fn fresh_board_centres_and_corners() {
    for n in [4usize, 6, 8, 10, 12, 14, 16] {
        let state = GameState::new(n, PieceColor::Black);
        let m = n / 2;
        let expected = vec![
            Position::new(m - 1, m - 1),
            Position::new(m, m),
            Position::new(0, 0),
            Position::new(n - 1, n - 1),
        ];
        assert_eq!(Rules::valid_black_opening_removals(&state), expected);
        for p in expected {
            assert_eq!(state.board.get_piece_color(p), Some(PieceColor::Black));
        }
        assert_eq!(state.current_player, PieceColor::Black);
        // The other two centre cells and corners are White.
        assert_eq!(state.board.get_piece_color(Position::new(m - 1, m)), Some(PieceColor::White));
        assert_eq!(state.board.get_piece_color(Position::new(0, n - 1)), Some(PieceColor::White));
    }
}

#[test]
fn board_geometry() {
    let board = Board::new(6);
    assert_eq!(board.size(), 6);
    assert_eq!(
        board.center_positions(),
        vec![Position::new(2, 2), Position::new(2, 3), Position::new(3, 2), Position::new(3, 3)]
    );
    assert_eq!(
        board.corner_positions(),
        vec![Position::new(0, 0), Position::new(0, 5), Position::new(5, 0), Position::new(5, 5)]
    );
    assert_eq!(board.orthogonal_neighbors(Position::new(0, 0)), vec![Position::new(1, 0), Position::new(0, 1)]);
    assert_eq!(
        board.orthogonal_neighbors(Position::new(2, 2)),
        vec![Position::new(3, 2), Position::new(1, 2), Position::new(2, 1), Position::new(2, 3)]
    );
    assert_eq!(board.get(Position::new(6, 0)), None);
    assert_eq!(board.get(Position::new(0, 1)), Some(Cell::Occupied(PieceColor::White)));
    assert_eq!(Direction::Up.apply(Position::new(5, 0), 6), None);
    assert_eq!(Direction::Down.apply(Position::new(5, 0), 6), Some(Position::new(4, 0)));
    assert_eq!(PieceColor::Black.opposite(), PieceColor::White);
}

#[test]
fn second_removal_scenario() {
    let mut state = GameState::new(4, PieceColor::Black);
    let first = Rules::apply_opening_removal(&mut state, Position::new(1, 1));
    assert!(matches!(first, Ok(MoveRecord::OpeningRemoval { color: PieceColor::Black, .. })));
    let white = Rules::valid_white_opening_removals(&state);
    assert_eq!(white, vec![Position::new(2, 1), Position::new(0, 1), Position::new(1, 0), Position::new(1, 2)]);
    for p in &white {
        assert_eq!(state.board.get_piece_color(*p), Some(PieceColor::White));
    }
    assert!(Rules::apply_opening_removal(&mut state, Position::new(1, 2)).is_ok());
    assert_eq!(state.phase, GamePhase::Play);
    assert_eq!(state.current_player, PieceColor::Black);
}

#[test]
fn illegal_removals_change_nothing() {
    let mut state = GameState::new(4, PieceColor::Black);
    let before = state.fingerprint();
    assert_eq!(
        Rules::apply_opening_removal(&mut state, Position::new(0, 1)).unwrap_err(),
        RuleError::InvalidBlackRemoval
    );
    assert_eq!(state.fingerprint(), before);
    assert_eq!(state.phase, GamePhase::OpeningBlackRemoval);
    let _ = Rules::apply_opening_removal(&mut state, Position::new(1, 1));
    assert_eq!(
        Rules::apply_opening_removal(&mut state, Position::new(3, 3)).unwrap_err(),
        RuleError::InvalidWhiteRemoval
    );
    let _ = Rules::apply_opening_removal(&mut state, Position::new(1, 2));
    assert_eq!(
        Rules::apply_opening_removal(&mut state, Position::new(0, 0)).unwrap_err(),
        RuleError::NotInOpening
    );
    let bogus = Jump {
        from: Position::new(0, 0),
        to: Position::new(0, 2),
        direction: Direction::Right,
        captured: vec![Position::new(0, 1)],
    };
    assert_eq!(Rules::apply_jump(&mut state, &bogus).unwrap_err(), RuleError::InvalidJump);
    assert_eq!(RuleError::InvalidJump.message(), "Invalid jump");
}

#[test]
fn straight_chain_scenario() {
    // Row 0 of an 8x8 board: Black at a1, White at b1 and d1, c1 and e1
    // empty, everything else empty.
    let mut state = GameState::new(8, PieceColor::Black);
    clear_board(&mut state);
    state.place_stone(Position::new(0, 0), PieceColor::Black);
    state.place_stone(Position::new(0, 1), PieceColor::White);
    state.place_stone(Position::new(0, 3), PieceColor::White);
    state.change_phase(GamePhase::Play);
    let jumps = Rules::valid_jumps_from(&state, Position::new(0, 0));
    assert_eq!(jumps.len(), 2);
    assert_eq!(jumps[0].to, Position::new(0, 2));
    assert_eq!(jumps[0].captured, vec![Position::new(0, 1)]);
    assert_eq!(jumps[1].to, Position::new(0, 4));
    assert_eq!(jumps[1].captured, vec![Position::new(0, 1), Position::new(0, 3)]);
    let record = Rules::apply_jump(&mut state, &jumps[1]).unwrap();
    assert!(matches!(record, MoveRecord::Jump { color: PieceColor::Black, .. }));
    assert!(state.board.is_empty(Position::new(0, 0)));
    assert!(state.board.is_empty(Position::new(0, 1)));
    assert!(state.board.is_empty(Position::new(0, 2)));
    assert!(state.board.is_empty(Position::new(0, 3)));
    assert_eq!(state.board.get_piece_color(Position::new(0, 4)), Some(PieceColor::Black));
    // White has no piece left, so Black has won.
    assert_eq!(state.phase, GamePhase::GameOver { winner: PieceColor::Black });
}

#[test]
fn valid_jumps_only_for_the_side_to_move() {
    let mut state = GameState::new(4, PieceColor::Black);
    state.change_phase(GamePhase::Play);
    state.remove_stone(Position::new(0, 2));
    assert!(Rules::valid_jumps_from(&state, Position::new(0, 1)).is_empty());
    assert!(Rules::valid_jumps_from(&state, Position::new(0, 2)).is_empty());
    assert_eq!(Rules::valid_jumps_from(&state, Position::new(0, 0)).len(), 1);
    assert_eq!(Rules::movable_pieces(&state), vec![Position::new(0, 0), Position::new(2, 2)]);
    assert!(Rules::has_valid_move(&state));
}

#[test]
fn removal_that_leaves_no_jump_ends_the_game() {
    // 4x4: Black removes a1, White removes b1; then strip every Black piece
    // that could jump, so that Black has no move after White's removal.
    let mut state = GameState::new(4, PieceColor::Black);
    assert!(Rules::apply_opening_removal(&mut state, Position::new(0, 0)).is_ok());
    for row in 0..4 {
        for col in 0..4 {
            let p = Position::new(row, col);
            if state.board.get_piece_color(p) == Some(PieceColor::Black) {
                state.remove_stone(p);
            }
        }
    }
    assert!(Rules::apply_opening_removal(&mut state, Position::new(0, 1)).is_ok());
    assert_eq!(state.phase, GamePhase::GameOver { winner: PieceColor::White });
    assert_eq!(state.current_player, PieceColor::Black);
}

#[test]
fn labels_round_trip() {
    for row in 0..16 {
        for col in 0..16 {
            let p = Position::new(row, col);
            let label = p.to_algebraic();
            assert_eq!(Position::from_algebraic(&label), Some(p));
        }
    }
    assert_eq!(Position::new(0, 0).to_algebraic(), "a1");
    assert_eq!(Position::new(3, 4).to_algebraic(), "e4");
    assert_eq!(Position::new(15, 15).to_algebraic(), "p16");
    assert_eq!(Position::from_algebraic("  E4 "), Some(Position::new(3, 4)));
    assert_eq!(Position::from_algebraic("a0"), None);
    assert_eq!(Position::from_algebraic("4e"), None);
    assert_eq!(Position::from_algebraic(""), None);
}

#[test]
fn move_notation_and_text_log() {
    let removal = MoveRecord::OpeningRemoval { color: PieceColor::Black, position: Position::new(1, 1) };
    let jump = MoveRecord::Jump {
        color: PieceColor::Black,
        from: Position::new(2, 1),
        to: Position::new(0, 1),
        captured: vec![Position::new(1, 1)],
    };
    assert_eq!(removal.to_algebraic(), "b2");
    assert_eq!(jump.to_algebraic(), "b3-b1");
    assert_eq!(removal.description(), "Black removes piece at b2");
    assert_eq!(jump.description(), "Black jumps b3-b1 capturing 1 piece(s)");
    assert_eq!(PieceColor::White.name(), "White");
    let view = GameOverView::new(PieceColor::White, vec![removal, jump]);
    assert_eq!(view.generate_text_log(), "1. b2\n2. b3-b1\n0-1\n");
    let black = GameOverView::new(PieceColor::Black, vec![]);
    assert_eq!(black.generate_text_log(), "1-0\n");
}

#[test]
fn replaying_a_played_game_reproduces_it() {
    let mut state = GameState::new(6, PieceColor::Black);
    let mut log = Vec::new();
    log.push(Rules::apply_opening_removal(&mut state, Position::new(2, 2)).unwrap());
    log.push(Rules::apply_opening_removal(&mut state, Position::new(2, 3)).unwrap());
    for _ in 0..4 {
        if state.phase != GamePhase::Play {
            break;
        }
        let jumps = Rules::all_valid_jumps(&state);
        let last = jumps.len() - 1;
        log.push(Rules::apply_jump(&mut state, &jumps[last]).unwrap());
    }
    let imported = ImportedGame { board_size: 6, winner: None, moves: log };
    let (replayed, history, _) = import_game(imported).unwrap();
    assert_eq!(history.len(), 2 + 4.min(history.len() - 2));
    for row in 0..6 {
        for col in 0..6 {
            let p = Position::new(row, col);
            assert_eq!(replayed.board.get(p), state.board.get(p));
        }
    }
    assert_eq!(replayed.phase, state.phase);
    assert_eq!(replayed.fingerprint(), state.fingerprint());
}
