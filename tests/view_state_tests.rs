use konane::board_view::{BoardView, RemovalAnimation, SelectionState, ANIMATION_DURATION_MS};
use konane::player::{HumanPlayer, Player, PlayerInput, PlayerMove};
use konane::rules::Rules;
use konane::setup::{ColorOption, SetupView};
use konane::state::{GamePhase, GameState, PieceColor, Position};

#[test]
fn removal_animation_completes_after_its_duration() {
    let anim = RemovalAnimation::new(Position::new(1, 1), PieceColor::Black, 1_000);
    assert_eq!(ANIMATION_DURATION_MS, 300);
    assert_eq!(anim.elapsed_ms(1_150), 150);
    assert_eq!(anim.elapsed_ms(900), 0);
    assert!(!anim.is_complete(1_299));
    assert!(anim.is_complete(1_300));
}

#[test]
fn board_view_keeps_running_animations_in_order() {
    let mut view = BoardView::default();
    assert!(!view.has_animations());
    view.animate_removal(Position::new(0, 0), PieceColor::Black, 0);
    view.animate_removal(Position::new(0, 1), PieceColor::White, 200);
    view.animate_removal(Position::new(0, 2), PieceColor::Black, 250);
    assert!(view.has_animations());
    view.update_animations(320);
    assert_eq!(view.animations.len(), 2);
    assert_eq!(view.animations[0].position, Position::new(0, 1));
    assert_eq!(view.animations[1].position, Position::new(0, 2));
    view.update_animations(600);
    assert!(!view.has_animations());
}

#[test]
fn board_view_selection() {
    let mut state = GameState::new(4, PieceColor::Black);
    state.change_phase(GamePhase::Play);
    state.remove_stone(Position::new(0, 2));
    let jumps = Rules::valid_jumps_from(&state, Position::new(0, 0));
    let mut view = BoardView::default();
    assert!(matches!(view.selection(), SelectionState::Unselected));
    view.select_piece(Position::new(0, 0), jumps);
    match view.selection() {
        SelectionState::PieceSelected(p, js) => {
            assert_eq!(*p, Position::new(0, 0));
            assert_eq!(js.len(), 1);
            assert_eq!(js[0].to, Position::new(0, 2));
        }
        SelectionState::Unselected => panic!("a piece should be selected"),
    }
    view.clear_selection();
    assert!(matches!(view.selection(), SelectionState::Unselected));
}

#[test]
fn setup_defaults_and_colour_choice() {
    let setup = SetupView::default();
    assert_eq!(setup.board_size, 8);
    assert_eq!(setup.color_option, ColorOption::Black);
    assert_eq!(ColorOption::Black.to_piece_color(), PieceColor::Black);
    assert_eq!(ColorOption::White.to_piece_color(), PieceColor::White);
    let drawn = ColorOption::Random.to_piece_color();
    assert!(drawn == PieceColor::Black || drawn == PieceColor::White);
    assert_eq!(ColorOption::Random.name(), "Random");
}

#[test]
fn human_player_hands_over_pending_input() {
    let state = GameState::new(4, PieceColor::Black);
    let mut player = HumanPlayer::new(PieceColor::White);
    assert_eq!(player.color(), PieceColor::White);
    assert!(!player.is_ready());
    player.receive_input(PlayerInput::PositionSelected(Position::new(1, 1)));
    assert!(player.is_ready());
    match player.request_move(&state) {
        Some(PlayerMove::OpeningRemoval(p)) => assert_eq!(p, Position::new(1, 1)),
        _ => panic!("expected the selected removal"),
    }
    assert!(!player.is_ready());
    player.receive_input(PlayerInput::PositionSelected(Position::new(0, 0)));
    player.receive_input(PlayerInput::Cancel);
    assert!(player.request_move(&state).is_none());
}
