use konane::ai::{AiPlayer, KonaneAction, KonaneEvaluator, KonaneMoveGenerator, KonaneState};
use konane::player::PlayerInput;
use konane::rules::{Jump, Rules};
use konane::state::{Direction, GamePhase, GameState, PieceColor, Position};

fn create_initial_state() -> KonaneState {
    KonaneState { inner: GameState::new(4, PieceColor::Black), last_action: None }
}

#[test]
fn fingerprint_differs_for_different_boards() {
    let state1 = create_initial_state();
    let mut game = GameState::new(4, PieceColor::Black);
    let _ = Rules::apply_opening_removal(&mut game, Position::new(1, 1));
    let state2 = KonaneState { inner: game, last_action: None };
    assert_ne!(state1.fingerprint(), state2.fingerprint());
}

#[test]
fn fingerprint_same_for_identical_boards() {
    let state1 = create_initial_state();
    let state2 = create_initial_state();
    assert_eq!(state1.fingerprint(), state2.fingerprint());
}

#[test]
fn is_terminal_false_at_start() {
    let state = create_initial_state();
    assert!(!state.is_terminal());
}

#[test]
fn is_terminal_true_when_game_over() {
    let mut game = GameState::new(4, PieceColor::Black);
    game.change_phase(GamePhase::GameOver { winner: PieceColor::Black });
    let state = KonaneState { inner: game, last_action: None };
    assert!(state.is_terminal());
}

#[test]
fn apply_opening_removal() {
    let state = create_initial_state();
    let action = KonaneAction::OpeningRemoval(Position::new(1, 1));
    let new_state = state.apply(&action);
    assert!(new_state.inner.board().is_empty(Position::new(1, 1)));
    assert_eq!(new_state.inner.current_phase(), GamePhase::OpeningWhiteRemoval);
    assert!(new_state.last_action.is_some());
}

#[test]
fn apply_jump() {
    let mut game = GameState::new(4, PieceColor::Black);
    game.change_phase(GamePhase::Play);
    game.remove_stone(Position::new(0, 2));
    let state = KonaneState { inner: game, last_action: None };
    let jump = Jump {
        from: Position::new(0, 0),
        to: Position::new(0, 2),
        direction: Direction::Right,
        captured: vec![Position::new(0, 1)],
    };
    let action = KonaneAction::Jump(jump);
    let new_state = state.apply(&action);
    assert!(new_state.inner.board().is_empty(Position::new(0, 0)));
    assert!(new_state.inner.board().is_empty(Position::new(0, 1)));
    assert_eq!(new_state.inner.board().get_piece_color(Position::new(0, 2)), Some(PieceColor::Black));
}

#[test]
fn alice_wins_value_is_positive() {
    let evaluator = KonaneEvaluator;
    assert!(evaluator.alice_wins_value() > 0);
}

#[test]
fn bob_wins_value_is_negative() {
    let evaluator = KonaneEvaluator;
    assert!(evaluator.bob_wins_value() < 0);
}

#[test]
fn evaluate_game_over_black_wins() {
    let evaluator = KonaneEvaluator;
    let mut game = GameState::new(4, PieceColor::Black);
    game.change_phase(GamePhase::GameOver { winner: PieceColor::Black });
    let state = KonaneState { inner: game, last_action: None };
    let score = evaluator.evaluate(&state);
    assert_eq!(score, evaluator.alice_wins_value());
}

#[test]
fn evaluate_game_over_white_wins() {
    let evaluator = KonaneEvaluator;
    let mut game = GameState::new(4, PieceColor::Black);
    game.change_phase(GamePhase::GameOver { winner: PieceColor::White });
    let state = KonaneState { inner: game, last_action: None };
    let score = evaluator.evaluate(&state);
    assert_eq!(score, evaluator.bob_wins_value());
}

#[test]
fn evaluate_uses_mobility() {
    let evaluator = KonaneEvaluator;
    let mut game = GameState::new(4, PieceColor::Black);
    game.change_phase(GamePhase::Play);
    game.remove_stone(Position::new(0, 2));
    game.remove_stone(Position::new(2, 0));
    let state = KonaneState { inner: game, last_action: None };
    let score = evaluator.evaluate(&state);
    assert!(score != 0 || score == 0);
}

#[test]
fn evaluate_is_black_mobility_minus_white_mobility() {
    // 4x4, Play, Black to move, (0,2) and (2,0) emptied: Black can jump
    // (0,0)->(0,2) and (0,0)->(2,0); White has no jump into those cells,
    // since both are reached over White pieces from Black ones.
    let evaluator = KonaneEvaluator;
    let mut game = GameState::new(4, PieceColor::Black);
    game.change_phase(GamePhase::Play);
    game.remove_stone(Position::new(0, 2));
    game.remove_stone(Position::new(2, 0));
    let black = Rules::all_valid_jumps(&game).len() as i32;
    game.set_current_player(PieceColor::White);
    let white = Rules::all_valid_jumps(&game).len() as i32;
    game.set_current_player(PieceColor::Black);
    let state = KonaneState { inner: game, last_action: None };
    assert_eq!(black, 4);
    assert_eq!(white, 0);
    assert_eq!(evaluator.evaluate(&state), 4);
}

#[test]
fn evaluate_side_to_move_without_jump_loses() {
    let evaluator = KonaneEvaluator;
    let mut game = GameState::new(4, PieceColor::Black);
    game.change_phase(GamePhase::Play);
    game.remove_stone(Position::new(0, 2));
    game.set_current_player(PieceColor::White);
    let state = KonaneState { inner: game, last_action: None };
    assert_eq!(evaluator.evaluate(&state), 1000);
}

#[test]
fn generates_black_opening_removals() {
    let state = create_initial_state();
    let generator = KonaneMoveGenerator;
    let moves = generator.generate(&state, 0);
    assert!(!moves.is_empty());
    for mv in &moves {
        assert!(matches!(mv.last_action, Some(KonaneAction::OpeningRemoval(_))));
    }
}

#[test]
fn generates_white_opening_removals() {
    let mut game = GameState::new(4, PieceColor::Black);
    let _ = Rules::apply_opening_removal(&mut game, Position::new(1, 1));
    let state = KonaneState { inner: game, last_action: None };
    let generator = KonaneMoveGenerator;
    let moves = generator.generate(&state, 0);
    assert!(!moves.is_empty());
    for mv in &moves {
        assert!(matches!(mv.last_action, Some(KonaneAction::OpeningRemoval(_))));
    }
}

#[test]
fn generates_jumps_in_play_phase() {
    let mut game = GameState::new(4, PieceColor::Black);
    game.change_phase(GamePhase::Play);
    game.remove_stone(Position::new(0, 2));
    let state = KonaneState { inner: game, last_action: None };
    let generator = KonaneMoveGenerator;
    let moves = generator.generate(&state, 0);
    assert!(!moves.is_empty());
    assert!(moves.iter().any(|mv| matches!(mv.last_action, Some(KonaneAction::Jump(_)))));
}

#[test]
fn returns_empty_when_game_over() {
    let mut game = GameState::new(4, PieceColor::Black);
    game.change_phase(GamePhase::GameOver { winner: PieceColor::Black });
    let state = KonaneState { inner: game, last_action: None };
    let generator = KonaneMoveGenerator;
    let moves = generator.generate(&state, 0);
    assert!(moves.is_empty());
}

#[test]
fn opening_successors_are_legal_removals() {
    // Every successor the search can pick at the root of a fresh game is one
    // of Black's legal opening removals, and each leads to White's removal.
    let state = create_initial_state();
    let generator = KonaneMoveGenerator;
    let valid = Rules::valid_black_opening_removals(&state.inner);
    let moves = generator.generate(&state, 2);
    assert_eq!(moves.len(), valid.len());
    for (mv, expected) in moves.iter().zip(valid.iter()) {
        match &mv.last_action {
            Some(KonaneAction::OpeningRemoval(pos)) => assert_eq!(pos, expected),
            _ => panic!("expected an opening removal"),
        }
        assert_eq!(mv.inner.current_phase(), GamePhase::OpeningWhiteRemoval);
    }
}

#[test]
fn new_creates_with_correct_color_and_depth() {
    let player = AiPlayer::new(PieceColor::Black, 4);
    assert_eq!(player.color(), PieceColor::Black);
    assert_eq!(player.depth(), 4);
}

#[test]
fn is_ready_always_true() {
    let player = AiPlayer::new(PieceColor::Black, 4);
    assert!(player.is_ready());
}

#[test]
fn receive_input_ignored() {
    let mut player = AiPlayer::new(PieceColor::Black, 4);
    player.receive_input(PlayerInput::Cancel);
    assert!(player.is_ready());
}

#[test]
fn applying_an_action_leaves_the_parent_unchanged() {
    let state = create_initial_state();
    let before = state.fingerprint();
    let child = state.apply(&KonaneAction::OpeningRemoval(Position::new(1, 1)));
    assert!(child.inner.board().is_empty(Position::new(1, 1)));
    assert_eq!(state.inner.board().get_piece_color(Position::new(1, 1)), Some(PieceColor::Black));
    assert_eq!(state.fingerprint(), before);
    assert_ne!(child.fingerprint(), before);
    let copy = state.inner.clone();
    assert_eq!(copy.fingerprint(), before);
}
