use konane::rules::Rules;
use konane::state::{Board, GamePhase, GameState, PieceColor, Position};
use konane::zhash::{ZHash, INITIAL_VALUE};

#[test]
fn new_creates_initial_hash() {
    let hash = ZHash::new();
    assert_eq!(hash.value(), INITIAL_VALUE);
}

#[test]
fn from_state_creates_defined_hash() {
    let board = Board::new(8);
    let hash = ZHash::from_state(&board, &GamePhase::Play, PieceColor::Black);
    assert_ne!(hash.value(), INITIAL_VALUE);
}

#[test]
fn remove_is_reversible() {
    let board = Board::new(8);
    let original = ZHash::from_state(&board, &GamePhase::Play, PieceColor::Black);
    let mut hash = original;
    let pos = Position::new(0, 0);
    hash.remove_stone(pos);
    assert_ne!(hash.value(), original.value());
    hash.remove_stone(pos);
    assert_eq!(hash.value(), original.value());
}

#[test]
fn move_stone_is_reversible() {
    let board = Board::new(8);
    let original = ZHash::from_state(&board, &GamePhase::Play, PieceColor::Black);
    let mut hash = original;
    let from = Position::new(0, 0);
    let to = Position::new(0, 2);
    hash.move_stone(from, to);
    assert_ne!(hash.value(), original.value());
    hash.move_stone(to, from);
    assert_eq!(hash.value(), original.value());
}

#[test]
fn turn_toggle_is_reversible() {
    let board = Board::new(8);
    let original = ZHash::from_state(&board, &GamePhase::Play, PieceColor::Black);
    let mut hash = original;
    hash.end_turn();
    assert_ne!(hash.value(), original.value());
    hash.end_turn();
    assert_eq!(hash.value(), original.value());
}

#[test]
fn change_phase_is_reversible() {
    let board = Board::new(8);
    let original = ZHash::from_state(&board, &GamePhase::Play, PieceColor::Black);
    let mut hash = original;
    hash.change_phase(&GamePhase::Play, &GamePhase::GameOver { winner: PieceColor::Black });
    assert_ne!(hash.value(), original.value());
    hash.change_phase(&GamePhase::GameOver { winner: PieceColor::Black }, &GamePhase::Play);
    assert_eq!(hash.value(), original.value());
}

#[test]
fn different_turns_produce_different_hashes() {
    let board = Board::new(8);
    let hash_black = ZHash::from_state(&board, &GamePhase::Play, PieceColor::Black);
    let hash_white = ZHash::from_state(&board, &GamePhase::Play, PieceColor::White);
    assert_ne!(hash_black.value(), hash_white.value());
}

#[test]
fn different_phases_produce_different_hashes() {
    let board = Board::new(8);
    let hash1 = ZHash::from_state(&board, &GamePhase::Play, PieceColor::Black);
    let hash2 = ZHash::from_state(&board, &GamePhase::OpeningBlackRemoval, PieceColor::Black);
    assert_ne!(hash1.value(), hash2.value());
}

#[test]
fn hash_keys_come_from_the_xorshift_sequence() {
    // The first draw from the seed is the key of cell a1; an otherwise empty
    // 4x4 board in the Setup phase with Black to move hashes to the key of
    // a1 XOR the Setup key (the 258th draw).
    let mut x: u64 = 0x1234_5678_9ABC_DEF0;
    let mut draws = Vec::new();
    for _ in 0..258 {
        x ^= x << 13;
        x ^= x >> 7;
        x ^= x << 17;
        draws.push(x);
    }
    let mut hash = ZHash::new();
    hash.remove_stone(Position::new(0, 0));
    assert_eq!(hash.value(), draws[0]);
    let mut board = Board::new(4);
    for row in 0..4 {
        for col in 0..4 {
            if row != 0 || col != 0 {
                board.remove(Position::new(row, col));
            }
        }
    }
    let full = ZHash::from_state(&board, &GamePhase::Setup, PieceColor::Black);
    assert_eq!(full.value(), draws[0] ^ draws[257]);
}

#[test]
fn incremental_fingerprint_matches_from_scratch() {
    let mut state = GameState::new(6, PieceColor::Black);
    assert!(Rules::apply_opening_removal(&mut state, Position::new(2, 2)).is_ok());
    assert!(Rules::apply_opening_removal(&mut state, Position::new(2, 3)).is_ok());
    let jumps = Rules::all_valid_jumps(&state);
    assert!(!jumps.is_empty());
    assert!(Rules::apply_jump(&mut state, &jumps[0]).is_ok());
    let scratch = ZHash::from_state(&state.board, &state.phase, state.current_player);
    assert_eq!(state.fingerprint(), scratch.value());
}

#[test]
fn removal_and_jump_toggle_exactly_their_cells() {
    let mut state = GameState::new(6, PieceColor::Black);
    let removals = [Position::new(2, 2), Position::new(2, 3)];
    for step in 0..6 {
        let before = ZHash::from_state(&state.board, &state.phase, state.current_player);
        let old_phase = state.phase;
        let mut expected = before;
        if step < 2 {
            let pos = removals[step];
            assert!(Rules::apply_opening_removal(&mut state, pos).is_ok());
            expected.remove_stone(pos);
        } else {
            if state.phase != GamePhase::Play {
                break;
            }
            let jumps = Rules::all_valid_jumps(&state);
            let jump = jumps.iter().max_by_key(|j| j.captured.len()).unwrap().clone();
            assert!(Rules::apply_jump(&mut state, &jump).is_ok());
            expected.move_stone(jump.from, jump.to);
            for c in &jump.captured {
                expected.remove_stone(*c);
            }
        }
        expected.end_turn();
        expected.change_phase(&old_phase, &state.phase);
        let after = ZHash::from_state(&state.board, &state.phase, state.current_player);
        assert_eq!(after.value(), expected.value());
        assert_eq!(state.fingerprint(), after.value());
    }
}
