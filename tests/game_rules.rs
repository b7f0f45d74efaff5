use renju::board::{new_board, Cell, Player, CELLS};
use renju::game::{Game, GameStatus, MoveError, MoveOutcome};
use renju::win::completes_line;

fn play(g: &mut Game, index: usize, p: Player) -> Result<MoveOutcome, MoveError> {
    g.place(index, p)
}

#[test]
fn new_game_is_empty_with_one_to_move() {
    let g = Game::new();
    assert_eq!(g.status(), GameStatus::InProgress(Player::One));
    let cells = g.board_snapshot();
    assert_eq!(cells.len(), CELLS);
    assert!(cells.iter().all(|c| *c == Cell::Empty));
    assert_eq!(Game::waiting().status(), GameStatus::WaitingForConnection);
}

#[test]
fn place_marks_cell_and_passes_turn() {
    let mut g = Game::new();
    assert_eq!(play(&mut g, 112, Player::One), Ok(MoveOutcome { winner: None }));
    assert_eq!(g.cell(112), Cell::Owned(Player::One));
    assert_eq!(g.status(), GameStatus::InProgress(Player::Two));
}

#[test]
fn second_place_on_same_cell_is_occupied() {
    for index in [0usize, 14, 112, 210, 224] {
        let mut g = Game::new();
        assert!(play(&mut g, index, Player::One).is_ok());
        assert_eq!(play(&mut g, index, Player::Two), Err(MoveError::CellOccupied));
        assert_eq!(g.status(), GameStatus::InProgress(Player::Two));
    }
}

#[test]
fn wrong_player_is_out_of_turn_and_changes_nothing() {
    for index in [0usize, 100, 224, 225, 10_000] {
        let mut g = Game::new();
        let before = g.board_snapshot();
        assert_eq!(play(&mut g, index, Player::Two), Err(MoveError::OutOfTurn));
        assert_eq!(g.board_snapshot(), before);
        assert_eq!(g.status(), GameStatus::InProgress(Player::One));
    }
    let mut w = Game::waiting();
    assert_eq!(play(&mut w, 3, Player::One), Err(MoveError::OutOfTurn));
}

#[test]
fn index_past_the_board_is_out_of_bounds() {
    let mut g = Game::new();
    assert_eq!(play(&mut g, 225, Player::One), Err(MoveError::OutOfBounds));
    assert_eq!(play(&mut g, usize::MAX, Player::One), Err(MoveError::OutOfBounds));
    assert_eq!(g.status(), GameStatus::InProgress(Player::One));
}

/// One plays `ones`, Two answers with `twos`; returns the outcome of each of One's moves.
fn alternate(g: &mut Game, ones: &[usize], twos: &[usize]) -> Vec<Option<Player>> {
    let mut wins = Vec::new();
    for (k, &i) in ones.iter().enumerate() {
        let o = play(g, i, Player::One).unwrap();
        wins.push(o.winner);
        if k < twos.len() && o.winner.is_none() {
            play(g, twos[k], Player::Two).unwrap();
        }
    }
    wins
}

#[test]
fn vertical_line_in_column_zero_wins_on_fifth_move() {
    let mut g = Game::new();
    let wins = alternate(&mut g, &[0, 15, 30, 45, 60], &[100, 102, 104, 106]);
    assert_eq!(wins, vec![None, None, None, None, Some(Player::One)]);
    assert_eq!(g.status(), GameStatus::Finished(Player::One));
}

#[test]
fn horizontal_and_diagonal_lines_win() {
    let lines: [[usize; 5]; 3] = [[20, 21, 22, 23, 24], [0, 16, 32, 48, 64], [4, 18, 32, 46, 60]];
    for line in lines {
        let mut g = Game::new();
        let wins = alternate(&mut g, &line, &[200, 202, 204, 206]);
        assert_eq!(wins[4], Some(Player::One));
        assert!(wins[..4].iter().all(|w| w.is_none()));
    }
}

#[test]
fn middle_mark_completing_a_line_wins() {
    let mut g = Game::new();
    let wins = alternate(&mut g, &[110, 111, 113, 114, 112], &[0, 2, 4, 6]);
    assert_eq!(wins[4], Some(Player::One));
}

#[test]
fn four_in_a_row_is_no_win() {
    let mut g = Game::new();
    let wins = alternate(&mut g, &[30, 31, 32, 33], &[100, 102, 104]);
    assert!(wins.iter().all(|w| w.is_none()));
    assert_eq!(g.status(), GameStatus::InProgress(Player::Two));
}

#[test]
fn horizontal_run_across_row_end_is_no_win() {
    let mut g = Game::new();
    let wins = alternate(&mut g, &[12, 13, 14, 15, 16], &[100, 102, 104, 106]);
    assert!(wins.iter().all(|w| w.is_none()));
    assert_eq!(g.status(), GameStatus::InProgress(Player::Two));
}

#[test]
fn diagonal_strides_across_row_end_are_no_win() {
    let mut g = Game::new();
    let wins = alternate(&mut g, &[13, 29, 45, 61, 77], &[200, 202, 204, 206]);
    assert!(wins.iter().all(|w| w.is_none()));
    let mut h = Game::new();
    let wins = alternate(&mut h, &[16, 30, 44, 58, 72], &[200, 202, 204, 206]);
    assert!(wins.iter().all(|w| w.is_none()));
}

#[test]
fn completes_line_reads_only_the_given_player() {
    let mut b = new_board();
    for i in [0usize, 1, 2, 3] {
        b[i] = Cell::Owned(Player::One);
    }
    b[4] = Cell::Owned(Player::Two);
    assert!(!completes_line(&b, 3, Player::One));
    b[4] = Cell::Owned(Player::One);
    assert!(completes_line(&b, 0, Player::One));
    assert!(completes_line(&b, 4, Player::One));
}

#[test]
fn finished_game_refuses_every_move() {
    let mut g = Game::new();
    alternate(&mut g, &[0, 1, 2, 3, 4], &[100, 102, 104, 106]);
    assert_eq!(g.status(), GameStatus::Finished(Player::One));
    assert_eq!(play(&mut g, 50, Player::Two), Err(MoveError::GameAlreadyFinished));
    assert_eq!(play(&mut g, 0, Player::One), Err(MoveError::GameAlreadyFinished));
    assert_eq!(play(&mut g, 999, Player::One), Err(MoveError::GameAlreadyFinished));
}

#[test]
fn reset_restores_fresh_game_from_any_state() {
    let mut g = Game::new();
    alternate(&mut g, &[0, 1, 2, 3, 4], &[100, 102, 104, 106]);
    g.reset();
    assert_eq!(g.status(), GameStatus::InProgress(Player::One));
    assert!(g.board_snapshot().iter().all(|c| *c == Cell::Empty));

    let mut d = Game::waiting();
    d.disconnect("gone".to_string());
    assert_eq!(d.status(), GameStatus::Disconnected("gone".to_string()));
    d.reset();
    assert_eq!(d.status(), GameStatus::InProgress(Player::One));
}

#[test]
fn declared_winner_finishes_game() {
    let mut g = Game::new();
    g.place(7, Player::One).unwrap();
    g.declare_winner(Player::Two);
    assert_eq!(g.status(), GameStatus::Finished(Player::Two));
    assert_eq!(g.cell(7), Cell::Owned(Player::One));
}

#[test]
fn other_player_alternates() {
    assert_eq!(Player::One.other(), Player::Two);
    assert_eq!(Player::Two.other(), Player::One);
}
