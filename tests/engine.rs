use power_4::game::{Cell, Game, Player};
use power_4::App;

fn settle(game: &mut Game) {
    for _ in 0..6 {
        game.animate();
    }
}

fn tokens_on_board(game: &Game) -> usize {
    game.board().iter().flatten().filter(|c| **c != Cell::Empty).count()
}

fn snapshot(game: &Game) -> (Vec<Cell>, Player, Option<Player>, u8, u8) {
    (
        game.board().iter().flatten().copied().collect(),
        game.current_player(),
        game.winner(),
        game.tokens_remaining(Player::One),
        game.tokens_remaining(Player::Two),
    )
}

/// Plays the given columns, letting each token land before the next drop.
fn play(game: &mut Game, columns: &[usize]) {
    for &c in columns {
        game.drop(c);
        settle(game);
    }
}

#[test]
fn new_game_is_empty() {
    let game = Game::new();
    assert_eq!(tokens_on_board(&game), 0);
    assert_eq!(game.current_player(), Player::One);
    assert_eq!(game.winner(), None);
    assert_eq!(game.tokens_remaining(Player::One), 21);
    assert_eq!(game.tokens_remaining(Player::Two), 21);
    assert!(!game.is_full());
}

#[test]
fn drop_enters_at_top_and_falls_one_row_per_tick() {
    let mut game = Game::new();
    game.drop(3);
    assert_eq!(game.board()[0][3], Cell::Occupied(Player::One));
    assert_eq!(game.current_player(), Player::Two);
    assert_eq!(game.tokens_remaining(Player::One), 20);
    assert_eq!(game.tokens_remaining(Player::Two), 21);
    for row in 1..6 {
        game.animate();
        assert_eq!(game.board()[row][3], Cell::Occupied(Player::One));
        assert_eq!(game.board()[row - 1][3], Cell::Empty);
    }
    game.animate();
    assert_eq!(game.board()[5][3], Cell::Occupied(Player::One));
}

#[test]
fn drop_into_occupied_top_changes_nothing() {
    let mut game = Game::new();
    game.drop(2);
    let before = snapshot(&game);
    game.drop(2);
    assert_eq!(snapshot(&game), before);
}

#[test]
fn drop_into_full_column_changes_nothing() {
    let mut game = Game::new();
    play(&mut game, &[6, 6, 6, 6, 6, 6]);
    assert_eq!(game.board()[0][6], Cell::Occupied(Player::Two));
    let before = snapshot(&game);
    game.drop(6);
    assert_eq!(snapshot(&game), before);
}

#[test]
fn tokens_in_hand_and_on_board_make_forty_two() {
    let mut game = Game::new();
    let columns = [0, 1, 2, 3, 4, 5, 6, 0, 1, 2];
    for &c in &columns {
        game.drop(c);
        settle(&mut game);
        let total = game.tokens_remaining(Player::One) as usize
            + game.tokens_remaining(Player::Two) as usize
            + tokens_on_board(&game);
        assert_eq!(total, 42);
    }
}

#[test]
fn turns_alternate_with_accepted_drops() {
    let mut game = Game::new();
    for n in 1..=9usize {
        game.drop(n % 7);
        settle(&mut game);
        let expected = if n % 2 == 0 { Player::One } else { Player::Two };
        assert_eq!(game.current_player(), expected);
    }
}

#[test]
fn vertical_four_wins() {
    let mut game = Game::new();
    play(&mut game, &[0, 1, 0, 1, 0, 1, 0]);
    assert_eq!(game.winner(), Some(Player::One));
}

#[test]
fn horizontal_four_wins() {
    let mut game = Game::new();
    play(&mut game, &[0, 0, 1, 1, 2, 2, 3]);
    assert_eq!(game.winner(), Some(Player::One));
}

#[test]
fn diagonal_down_right_four_wins() {
    // One holds (2,0), (3,1), (4,2), (5,3)
    let mut game = Game::new();
    play(&mut game, &[3, 2, 2, 1, 1, 0, 1, 0, 0, 6, 0]);
    assert_eq!(game.winner(), Some(Player::One));
}

#[test]
fn diagonal_down_left_four_wins() {
    // One holds (5,0), (4,1), (3,2), (2,3)
    let mut game = Game::new();
    play(&mut game, &[0, 1, 1, 2, 2, 3, 2, 3, 3, 6, 3]);
    assert_eq!(game.winner(), Some(Player::One));
}

#[test]
fn three_in_a_row_does_not_win() {
    let mut game = Game::new();
    play(&mut game, &[0, 6, 1, 6, 2]);
    assert_eq!(game.winner(), None);
    let mut game = Game::new();
    play(&mut game, &[0, 1, 0, 1, 0]);
    assert_eq!(game.winner(), None);
}

#[test]
fn top_row_line_wins() {
    let mut game = Game::new();
    // rows 1 to 5 of columns 0 to 3, with no four in a row
    play(&mut game, &[0, 1, 0, 1, 0, 1, 1, 0, 1, 0]);
    play(&mut game, &[2, 3, 2, 3, 2, 3, 3, 2, 3, 2]);
    assert_eq!(game.winner(), None);
    // One completes the top row of columns 0 to 3
    play(&mut game, &[0, 6, 1, 6, 2, 6]);
    assert_eq!(game.winner(), None);
    play(&mut game, &[3]);
    assert_eq!(game.winner(), Some(Player::One));
    assert!(!game.is_full());
}

#[test]
fn no_drop_after_a_win() {
    let mut game = Game::new();
    play(&mut game, &[0, 1, 0, 1, 0, 1, 0]);
    let before = snapshot(&game);
    game.drop(5);
    assert_eq!(snapshot(&game), before);
}

#[test]
fn settled_board_does_not_move() {
    let mut game = Game::new();
    play(&mut game, &[0, 1, 2, 2, 3]);
    let before = snapshot(&game);
    game.animate();
    assert_eq!(snapshot(&game), before);
}

#[test]
fn reset_clears_within_six_ticks() {
    let mut game = Game::new();
    play(&mut game, &[0, 1, 0, 1, 0, 1, 0]);
    assert_eq!(game.winner(), Some(Player::One));
    game.reset();
    // nothing is cleared at once
    assert_eq!(tokens_on_board(&game), 7);
    assert_eq!(game.winner(), Some(Player::One));
    // the bottom row goes back first: one token of each player
    game.animate();
    assert_eq!(game.tokens_remaining(Player::One), 18);
    assert_eq!(game.tokens_remaining(Player::Two), 19);
    for _ in 0..5 {
        game.animate();
    }
    assert_eq!(tokens_on_board(&game), 0);
    assert_eq!(game.winner(), None);
    assert_eq!(game.current_player(), Player::One);
    assert_eq!(game.tokens_remaining(Player::One), 21);
    assert_eq!(game.tokens_remaining(Player::Two), 21);
    assert!(!game.is_full());
    // a new game can be played
    game.drop(4);
    assert_eq!(game.board()[0][4], Cell::Occupied(Player::One));
}

#[test]
fn no_drop_while_clearing() {
    let mut game = Game::new();
    play(&mut game, &[0, 1, 0, 1, 0]);
    game.reset();
    game.animate();
    let before = snapshot(&game);
    game.drop(3);
    assert_eq!(snapshot(&game), before);
}

#[test]
fn reset_on_empty_board_finishes_in_one_tick() {
    let mut game = Game::new();
    game.reset();
    game.animate();
    game.drop(0);
    assert_eq!(game.board()[0][0], Cell::Occupied(Player::One));
}

#[test]
fn reset_twice_is_harmless() {
    let mut game = Game::new();
    play(&mut game, &[0, 1]);
    game.reset();
    game.reset();
    for _ in 0..6 {
        game.animate();
    }
    assert_eq!(tokens_on_board(&game), 0);
    assert_eq!(game.tokens_remaining(Player::One), 21);
    assert_eq!(game.tokens_remaining(Player::Two), 21);
}

#[test]
fn app_selection_stays_on_the_board() {
    let mut app = App::new();
    app.handle_left();
    assert_eq!(app.selected_column(), 0);
    for _ in 0..10 {
        app.handle_right();
    }
    assert_eq!(app.selected_column(), 6);
    app.handle_left();
    assert_eq!(app.selected_column(), 5);
}

#[test]
fn app_space_drops_then_resets_after_a_win() {
    let mut app = App::new();
    for c in [0usize, 1, 0, 1, 0, 1, 0] {
        while app.selected_column() < c {
            app.handle_right();
        }
        while app.selected_column() > c {
            app.handle_left();
        }
        app.handle_space();
        for _ in 0..6 {
            app.on_tick();
        }
    }
    assert_eq!(app.game().winner(), Some(Player::One));
    app.handle_space();
    for _ in 0..6 {
        app.on_tick();
    }
    assert_eq!(app.game().winner(), None);
    assert_eq!(tokens_on_board(app.game()), 0);
    assert!(!app.should_exit());
    app.exit();
    assert!(app.should_exit());
}
