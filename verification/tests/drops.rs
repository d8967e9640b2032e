use four_in_a_row::game::Game;
use four_in_a_row::item::GameItem;
use four_in_a_row::state::DropError;

fn board_text(rows: [&str; 5], status: &str) -> String {
    let mut text = String::new();
    for row in rows {
        for ch in row.chars() {
            text.push(match ch {
                '#' => '\u{2b1c}',
                '.' => '\u{2b1b}',
                'C' => '\u{1f36a}',
                'M' => '\u{1f95b}',
                _ => unreachable!(),
            });
        }
        text.push('\n');
    }
    text.push_str(status);
    text
}

fn drop_all(game: &mut Game, moves: &[(GameItem, usize)]) {
    for (item, column) in moves {
        assert!(game.drop_piece(*item, *column).is_ok());
    }
}

const C: GameItem = GameItem::Cookie;
const M: GameItem = GameItem::Milk;

#[test]
fn a_column_fills_from_the_bottom_and_then_refuses() {
    for column in 1..=4usize {
        for (first, second) in [(C, M), (M, C)] {
            let mut game = Game::new();
            let turns = [first, second, first, second];
            for (height, item) in turns.iter().enumerate() {
                assert!(!game.is_column_full(column));
                assert!(game.drop_piece(*item, column).is_ok());
                for row in 0..4 {
                    let expected = if row >= 3 - height { turns[3 - row] } else { GameItem::Empty };
                    assert_eq!(game.cell(row, column), expected);
                }
                for other in 1..=4 {
                    if other != column {
                        for row in 0..4 {
                            assert_eq!(game.cell(row, other), GameItem::Empty);
                        }
                    }
                }
            }
            assert!(game.is_column_full(column));
            assert_eq!(game.winner(), None);
            assert!(!game.is_full());
            let before = game.print_board();
            assert_eq!(game.drop_piece(first, column), Err(DropError::ColumnFull));
            assert_eq!(game.drop_piece(second, column), Err(DropError::ColumnFull));
            assert_eq!(game.print_board(), before);
        }
    }
}

#[test]
fn a_drop_returns_the_board_after_it() {
    let mut game = Game::new();
    assert_eq!(
        game.drop_piece(C, 2),
        Ok(board_text(["#....#", "#....#", "#....#", "#.C..#", "######"], ""))
    );
    assert_eq!(
        game.drop_piece(M, 2),
        Ok(board_text(["#....#", "#....#", "#.M..#", "#.C..#", "######"], ""))
    );
    assert_eq!(
        game.drop_piece(M, 4),
        Ok(board_text(["#....#", "#....#", "#.M..#", "#.C.M#", "######"], ""))
    );
}

#[test]
fn four_cookies_in_column_one_win_and_end_the_game() {
    let mut game = Game::new();
    for _ in 0..3 {
        assert!(game.drop_piece(C, 1).is_ok());
        assert_eq!(game.winner(), None);
    }
    let fourth = game.drop_piece(C, 1);
    let expected = board_text(["#C...#", "#C...#", "#C...#", "#C...#", "######"], "\u{1f36a} wins!\n");
    assert_eq!(fourth, Ok(expected.clone()));
    assert_eq!(game.winner(), Some(C));
    assert!(game.is_finished());
    assert_eq!(game.drop_piece(C, 1), Err(DropError::GameOver));
    assert_eq!(game.print_board(), expected);
    assert_eq!(game.winner(), Some(C));
}

#[test]
fn four_in_any_column_win() {
    for column in 1..=4usize {
        for item in [C, M] {
            let mut game = Game::new();
            drop_all(&mut game, &[(item, column); 4]);
            assert_eq!(game.winner(), Some(item));
            for next in 1..=4usize {
                assert_eq!(game.drop_piece(C, next), Err(DropError::GameOver));
                assert_eq!(game.drop_piece(M, next), Err(DropError::GameOver));
            }
        }
    }
}

#[test]
fn four_in_a_row_win() {
    let mut game = Game::new();
    drop_all(&mut game, &[(M, 1), (M, 2), (M, 3)]);
    assert_eq!(game.winner(), None);
    assert_eq!(
        game.drop_piece(M, 4),
        Ok(board_text(["#....#", "#....#", "#....#", "#MMMM#", "######"], "\u{1f95b} wins!\n"))
    );
    assert_eq!(game.winner(), Some(M));
    assert_eq!(game.drop_piece(C, 2), Err(DropError::GameOver));
}

#[test]
fn four_in_an_upper_row_win() {
    let mut game = Game::new();
    drop_all(&mut game, &[(C, 1), (M, 2), (C, 3), (M, 4), (M, 1), (M, 2), (M, 3)]);
    assert_eq!(game.winner(), None);
    assert!(game.drop_piece(M, 4).is_ok());
    assert_eq!(game.winner(), Some(M));
    assert_eq!(
        game.print_board(),
        board_text(["#....#", "#....#", "#MMMM#", "#CMCM#", "######"], "\u{1f95b} wins!\n")
    );
}

#[test]
fn four_on_the_falling_diagonal_win() {
    let mut game = Game::new();
    drop_all(
        &mut game,
        &[(M, 1), (C, 1), (M, 1), (C, 1), (M, 2), (M, 2), (C, 2), (M, 3), (C, 3)],
    );
    assert_eq!(game.winner(), None);
    assert!(!game.is_finished());
    assert_eq!(
        game.drop_piece(C, 4),
        Ok(board_text(["#C...#", "#MC..#", "#CMC.#", "#MMMC#", "######"], "\u{1f36a} wins!\n"))
    );
    assert_eq!(game.winner(), Some(C));
    assert_eq!(game.drop_piece(M, 4), Err(DropError::GameOver));
}

#[test]
fn four_on_the_rising_diagonal_win() {
    let mut game = Game::new();
    drop_all(
        &mut game,
        &[(C, 4), (M, 4), (C, 4), (M, 4), (C, 3), (C, 3), (M, 3), (C, 2), (M, 2)],
    );
    assert_eq!(game.winner(), None);
    assert_eq!(
        game.drop_piece(M, 1),
        Ok(board_text(["#...M#", "#..MC#", "#.MCM#", "#MCCC#", "######"], "\u{1f95b} wins!\n"))
    );
    assert_eq!(game.winner(), Some(M));
    assert_eq!(game.drop_piece(C, 1), Err(DropError::GameOver));
}

#[test]
fn a_full_board_without_a_line_has_no_winner() {
    let mut game = Game::new();
    let columns = [[M, M, C, C], [C, C, M, M], [M, M, C, C], [C, C, M, M]];
    let mut last = String::new();
    for (index, pieces) in columns.iter().enumerate() {
        for item in pieces {
            assert!(!game.is_finished());
            last = game.drop_piece(*item, index + 1).unwrap();
        }
    }
    let expected = board_text(["#CMCM#", "#CMCM#", "#MCMC#", "#MCMC#", "######"], "No winner.\n");
    assert_eq!(last, expected);
    assert_eq!(game.print_board(), expected);
    assert!(game.is_full());
    assert_eq!(game.winner(), None);
    assert!(game.is_finished());
    for column in 1..=4usize {
        assert_eq!(game.drop_piece(C, column), Err(DropError::GameOver));
    }
    assert_eq!(game.print_board(), expected);
}

#[test]
fn a_full_top_row_ends_the_game_with_cells_left_below() {
    let mut game = Game::new();
    for column in 2..=4 {
        for row in 0..4 {
            let item = if (row / 2 + column) % 2 == 0 { C } else { M };
            game.put_random_item(item, row, column);
        }
    }
    game.put_random_item(M, 0, 1);
    assert!(!game.is_full());
    assert!(!game.is_finished());
    assert_eq!(game.drop_piece(C, 1), Err(DropError::ColumnFull));
    game.put_random_item(GameItem::Cookie, 0, 1);
    game.reset();
    game.put_random_item(M, 0, 2);
    game.put_random_item(C, 0, 3);
    game.put_random_item(M, 0, 4);
    drop_all(&mut game, &[(C, 1), (M, 1), (C, 1)]);
    assert!(!game.is_full());
    assert!(game.drop_piece(C, 1).is_ok());
    assert!(game.is_full());
    assert_eq!(game.winner(), None);
    assert_eq!(
        game.print_board(),
        board_text(["#CMCM#", "#C...#", "#M...#", "#C...#", "######"], "No winner.\n")
    );
    assert_eq!(game.drop_piece(M, 2), Err(DropError::GameOver));
}

#[test]
fn a_piece_falls_below_a_floating_one() {
    let mut game = Game::new();
    game.put_random_item(M, 1, 3);
    assert!(!game.is_column_full(3));
    assert!(game.drop_piece(C, 3).is_ok());
    assert!(game.drop_piece(C, 3).is_ok());
    assert!(game.drop_piece(C, 3).is_ok());
    assert_eq!(game.cell(3, 3), C);
    assert_eq!(game.cell(2, 3), C);
    assert_eq!(game.cell(1, 3), M);
    assert_eq!(game.cell(0, 3), C);
    assert_eq!(game.drop_piece(C, 3), Err(DropError::ColumnFull));
}

#[test]
fn put_item_on_a_column_without_room_changes_no_cell() {
    let mut game = Game::new();
    drop_all(&mut game, &[(C, 2), (M, 2), (C, 2), (M, 2)]);
    let before = game.print_board();
    game.put_item(C, 2);
    assert_eq!(game.print_board(), before);
    assert_eq!(game.winner(), None);
    assert!(!game.is_full());
}

#[test]
fn invalid_input_is_refused_first_and_changes_nothing() {
    let mut game = Game::new();
    let empty = game.print_board();
    assert_eq!(game.drop_piece(C, 0), Err(DropError::InvalidInput));
    assert_eq!(game.drop_piece(C, 5), Err(DropError::InvalidInput));
    assert_eq!(game.drop_piece(M, 6), Err(DropError::InvalidInput));
    assert_eq!(game.drop_piece(M, usize::MAX), Err(DropError::InvalidInput));
    assert_eq!(game.drop_piece(GameItem::Wall, 1), Err(DropError::InvalidInput));
    assert_eq!(game.drop_piece(GameItem::Empty, 1), Err(DropError::InvalidInput));
    assert_eq!(game.print_board(), empty);
    drop_all(&mut game, &[(C, 1); 4]);
    let won = game.print_board();
    assert_eq!(game.drop_piece(C, 0), Err(DropError::InvalidInput));
    assert_eq!(game.drop_piece(GameItem::Wall, 1), Err(DropError::InvalidInput));
    assert_eq!(game.drop_piece(M, 1), Err(DropError::GameOver));
    assert_eq!(game.print_board(), won);
}

#[test]
fn place_reads_the_team_and_the_column() {
    let mut game = Game::new();
    assert_eq!(
        game.place("cookie", 1),
        Ok(board_text(["#....#", "#....#", "#....#", "#C...#", "######"], ""))
    );
    assert_eq!(
        game.place("milk", 4),
        Ok(board_text(["#....#", "#....#", "#....#", "#C..M#", "######"], ""))
    );
    let before = game.print_board();
    assert_eq!(game.place("tea", 1), Err(DropError::InvalidInput));
    assert_eq!(game.place("Milk", 1), Err(DropError::InvalidInput));
    assert_eq!(game.place("milk", 0), Err(DropError::InvalidInput));
    assert_eq!(game.place("milk", 5), Err(DropError::InvalidInput));
    assert_eq!(game.place("cookie", -1), Err(DropError::InvalidInput));
    assert_eq!(game.place("cookie", i32::MIN), Err(DropError::InvalidInput));
    assert_eq!(game.place("cookie", i32::MAX), Err(DropError::InvalidInput));
    assert_eq!(game.print_board(), before);
    assert!(game.place("cookie", 1).is_ok());
    assert!(game.place("cookie", 1).is_ok());
    assert!(game.place("milk", 1).is_ok());
    assert_eq!(game.place("milk", 1), Err(DropError::ColumnFull));
    assert!(game.place("milk", 4).is_ok());
    assert!(game.place("milk", 4).is_ok());
    assert_eq!(game.winner(), None);
    assert_eq!(
        game.place("milk", 4),
        Ok(board_text(["#M..M#", "#C..M#", "#C..M#", "#C..M#", "######"], "\u{1f95b} wins!\n"))
    );
    assert_eq!(game.winner(), Some(M));
    assert_eq!(game.place("milk", 1), Err(DropError::GameOver));
    assert_eq!(game.place("cookie", 2), Err(DropError::GameOver));
    assert_eq!(game.place("tea", 2), Err(DropError::InvalidInput));
}
