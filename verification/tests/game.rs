use tetris_core::{blocks_for, Cell, Game, Piece, Step, Tetromino, BOARD_H, BOARD_W};

fn empty() -> Vec<Cell> {
    vec![0; 200]
}

fn put(board: &mut Vec<Cell>, x: usize, y: usize, value: Cell) {
    board[y * 10 + x] = value;
}

fn piece(kind: Tetromino, rot: u8, x: i32, y: i32) -> Piece {
    Piece { kind, rot, x, y }
}

fn count_filled(g: &Game) -> usize {
    g.board().iter().filter(|&&c| c != 0).count()
}

/// A position in which the falling piece reaches above the top row and
/// cannot move down.
fn blocked_at_top(next: Tetromino) -> Game {
    let mut board = empty();
    put(&mut board, 3, 2, 5);
    Game::from_position(board, piece(Tetromino::I, 1, 1, -2), next, 70, 3, 11).unwrap()
}

#[test]
fn new_game_has_empty_board() {
    let g = Game::new();
    assert_eq!(g.board().len(), (BOARD_W * BOARD_H) as usize);
    assert!(g.board().iter().any(|&c| c == 0));
}

#[test]
fn piece_blocks_in_bounds_on_spawn() {
    let g = Game::new();
    for (x, y) in blocks_for(g.current_piece()) {
        assert!(x >= 0 && x < BOARD_W);
        assert!(y >= 0 && y < BOARD_H);
    }
}

#[test]
fn new_game_starts_from_nothing() {
    let g = Game::new();
    assert!(g.board().iter().all(|&c| c == 0));
    assert_eq!(g.score(), 0);
    assert_eq!(g.lines(), 0);
    assert_eq!(g.level(), 1);
    assert!(!g.is_game_over());
    let p = g.current_piece();
    assert_eq!((p.rot, p.x, p.y), (0, 3, 0));
    assert!(p.kind.id() >= 1 && p.kind.id() <= 7);
}

#[test]
fn seeded_game_starts_from_nothing() {
    for seed in 0..40u64 {
        let g = Game::with_seed(seed);
        assert_eq!(g.board().len(), 200);
        assert!(g.board().iter().all(|&c| c == 0));
        assert_eq!((g.score(), g.lines(), g.level()), (0, 0, 1));
        assert!(!g.is_game_over());
        for (x, y) in blocks_for(g.current_piece()) {
            assert!(x >= 0 && x < 10 && y >= 0 && y < 20);
        }
    }
}

#[test]
fn equal_seeds_give_equal_games() {
    let mut a = Game::with_seed(2024);
    let mut b = Game::with_seed(2024);
    for _ in 0..30 {
        assert_eq!(a.current_piece(), b.current_piece());
        assert_eq!(a.hard_drop(), b.hard_drop());
        assert_eq!(a.board(), b.board());
    }
}

#[test]
fn drawn_pieces_vary() {
    let mut seen = [false; 8];
    for seed in 0..200u64 {
        let g = Game::with_seed(seed);
        seen[g.current_piece().kind.id() as usize] = true;
    }
    assert!(!seen[0]);
    assert!(seen[1..].iter().all(|&s| s));
}

#[test]
fn reset_starts_anew() {
    let mut board = empty();
    for x in 0..10 {
        if x < 3 || x > 6 {
            put(&mut board, x, 19, 2);
        }
    }
    put(&mut board, 0, 18, 4);
    let mut g =
        Game::from_position(board, piece(Tetromino::I, 0, 3, 0), Tetromino::T, 500, 12, 5).unwrap();
    assert_eq!(g.hard_drop(), Step::Locked { cleared: 1, game_over: false });
    assert!(g.score() > 500);
    g.reset();
    assert!(g.board().iter().all(|&c| c == 0));
    assert_eq!(g.board().len(), 200);
    assert_eq!((g.score(), g.lines(), g.level()), (0, 0, 1));
    assert!(!g.is_game_over());
    let p = g.current_piece();
    assert_eq!((p.rot, p.x, p.y), (0, 3, 0));
    for (x, y) in blocks_for(p) {
        assert!(x >= 0 && x < 10 && y >= 0 && y < 20);
    }
}

#[test]
fn reset_revives_an_ended_game() {
    let mut g = blocked_at_top(Tetromino::I);
    assert_eq!(g.tick(), Step::Locked { cleared: 0, game_over: true });
    g.reset();
    assert!(!g.is_game_over());
    assert_eq!(g.tick(), Step::Moved);
}

#[test]
fn cell_outside_the_board_is_empty() {
    let mut board = vec![3; 200];
    for k in 0..20 {
        board[k] = 0;
    }
    for y in 2..20 {
        put(&mut board, 9, y, 0);
    }
    let g =
        Game::from_position(board, piece(Tetromino::O, 0, 3, 0), Tetromino::O, 0, 0, 1).unwrap();
    for &(x, y) in &[
        (-1, 0),
        (10, 0),
        (0, -1),
        (0, 20),
        (-1, -1),
        (10, 20),
        (5, 25),
        (12, 5),
        (i32::MIN, 3),
        (i32::MAX, 3),
        (3, i32::MIN),
        (3, i32::MAX),
        (i32::MAX, i32::MAX),
        (i32::MIN, i32::MIN),
    ] {
        assert_eq!(g.cell(x, y), 0);
    }
    assert_eq!(g.cell(0, 2), 3);
    assert_eq!(g.cell(8, 19), 3);
    assert_eq!(g.cell(9, 19), 0);
    assert_eq!(g.cell(9, 1), 0);
}

#[test]
fn cell_reads_the_board_row_by_row() {
    let mut board = empty();
    put(&mut board, 7, 19, 6);
    put(&mut board, 0, 10, 2);
    let g =
        Game::from_position(board, piece(Tetromino::O, 0, 3, 0), Tetromino::O, 0, 0, 1).unwrap();
    assert_eq!(g.cell(7, 19), 6);
    assert_eq!(g.cell(0, 10), 2);
    assert_eq!(g.cell(9, 7), 0);
    assert_eq!(g.board()[19 * 10 + 7], 6);
    assert_eq!(g.board()[100], 2);
    for y in 0..20 {
        for x in 0..10 {
            assert_eq!(g.cell(x, y), g.board()[(y * 10 + x) as usize]);
        }
    }
}

#[test]
fn position_is_taken_as_given() {
    let mut board = empty();
    put(&mut board, 2, 19, 7);
    let p = piece(Tetromino::S, 2, 4, 9);
    let g = Game::from_position(board.clone(), p, Tetromino::Z, 321, 47, 9).unwrap();
    assert_eq!(g.board(), &board[..]);
    assert_eq!(g.current_piece(), p);
    assert_eq!(g.score(), 321);
    assert_eq!(g.lines(), 47);
    assert_eq!(g.level(), 5);
    assert!(!g.is_game_over());
}

#[test]
fn position_is_refused_when_out_of_order() {
    let p = piece(Tetromino::T, 0, 3, 0);
    assert!(Game::from_position(vec![0; 199], p, Tetromino::I, 0, 0, 1).is_none());
    assert!(Game::from_position(vec![0; 201], p, Tetromino::I, 0, 0, 1).is_none());
    assert!(Game::from_position(Vec::new(), p, Tetromino::I, 0, 0, 1).is_none());
    let mut board = empty();
    put(&mut board, 9, 19, 8);
    assert!(Game::from_position(board, p, Tetromino::I, 0, 0, 1).is_none());
    assert!(Game::from_position(empty(), piece(Tetromino::T, 4, 3, 0), Tetromino::I, 0, 0, 1)
        .is_none());
    // beside the walls, below the floor, on an occupied cell
    assert!(Game::from_position(empty(), piece(Tetromino::T, 0, -1, 0), Tetromino::I, 0, 0, 1)
        .is_none());
    assert!(Game::from_position(empty(), piece(Tetromino::T, 0, 8, 0), Tetromino::I, 0, 0, 1)
        .is_none());
    assert!(Game::from_position(empty(), piece(Tetromino::T, 0, 3, 19), Tetromino::I, 0, 0, 1)
        .is_none());
    assert!(Game::from_position(empty(), piece(Tetromino::T, 0, i32::MAX, 0), Tetromino::I, 0, 0, 1)
        .is_none());
    assert!(Game::from_position(empty(), piece(Tetromino::T, 0, 3, i32::MAX), Tetromino::I, 0, 0, 1)
        .is_none());
    assert!(Game::from_position(empty(), piece(Tetromino::T, 0, i32::MIN, 0), Tetromino::I, 0, 0, 1)
        .is_none());
    let mut board = empty();
    put(&mut board, 4, 0, 1);
    assert!(Game::from_position(board, p, Tetromino::I, 0, 0, 1).is_none());
    // a full row, which would have been cleared
    let mut board = empty();
    for x in 0..10 {
        put(&mut board, x, 19, 1);
    }
    assert!(Game::from_position(board.clone(), p, Tetromino::I, 0, 0, 1).is_none());
    put(&mut board, 9, 19, 0);
    assert!(Game::from_position(board, p, Tetromino::I, 0, 0, 1).is_some());
    let mut board = empty();
    for x in 0..10 {
        put(&mut board, x, 7, 5);
    }
    assert!(Game::from_position(board, p, Tetromino::I, 0, 0, 1).is_none());
    // the same cell above the top row is no obstacle
    assert!(Game::from_position(empty(), piece(Tetromino::T, 0, 3, -1), Tetromino::I, 0, 0, 1)
        .is_some());
    assert!(Game::from_position(empty(), piece(Tetromino::T, 0, 7, 18), Tetromino::I, 0, 0, 1)
        .is_some());
}

#[test]
fn tick_moves_the_piece_down() {
    let mut g = Game::from_position(empty(), piece(Tetromino::T, 0, 3, 0), Tetromino::O, 0, 0, 1)
        .unwrap();
    assert_eq!(g.tick(), Step::Moved);
    assert_eq!(g.current_piece(), piece(Tetromino::T, 0, 3, 1));
    assert_eq!(g.soft_drop(), Step::Moved);
    assert_eq!(g.current_piece(), piece(Tetromino::T, 0, 3, 2));
    assert_eq!(count_filled(&g), 0);
    assert_eq!((g.score(), g.lines()), (0, 0));
}

#[test]
fn tick_locks_on_the_floor() {
    let mut g = Game::from_position(empty(), piece(Tetromino::T, 0, 3, 18), Tetromino::O, 0, 0, 1)
        .unwrap();
    assert_eq!(g.tick(), Step::Locked { cleared: 0, game_over: false });
    assert_eq!(g.cell(4, 18), 3);
    assert_eq!(g.cell(3, 19), 3);
    assert_eq!(g.cell(4, 19), 3);
    assert_eq!(g.cell(5, 19), 3);
    assert_eq!(count_filled(&g), 4);
    assert_eq!(g.current_piece(), piece(Tetromino::O, 0, 3, 0));
    assert_eq!((g.score(), g.lines()), (0, 0));
}

#[test]
fn soft_drop_is_one_tick() {
    let mut a = Game::from_position(empty(), piece(Tetromino::L, 1, 2, 15), Tetromino::O, 0, 0, 1)
        .unwrap();
    let mut b = Game::from_position(empty(), piece(Tetromino::L, 1, 2, 15), Tetromino::O, 0, 0, 1)
        .unwrap();
    for _ in 0..3 {
        assert_eq!(a.soft_drop(), b.tick());
        assert_eq!(a.current_piece(), b.current_piece());
        assert_eq!(a.board(), b.board());
    }
    assert_eq!(a.current_piece(), piece(Tetromino::O, 0, 3, 0));
}

#[test]
fn moves_go_one_column() {
    let mut g = Game::from_position(empty(), piece(Tetromino::J, 0, 3, 4), Tetromino::O, 0, 0, 1)
        .unwrap();
    g.move_left();
    assert_eq!(g.current_piece(), piece(Tetromino::J, 0, 2, 4));
    g.move_right();
    g.move_right();
    assert_eq!(g.current_piece(), piece(Tetromino::J, 0, 4, 4));
}

#[test]
fn moves_stop_at_walls_and_cells() {
    let mut g = Game::from_position(empty(), piece(Tetromino::I, 0, 0, 4), Tetromino::O, 0, 0, 1)
        .unwrap();
    g.move_left();
    assert_eq!(g.current_piece(), piece(Tetromino::I, 0, 0, 4));
    let mut g = Game::from_position(empty(), piece(Tetromino::I, 0, 6, 4), Tetromino::O, 0, 0, 1)
        .unwrap();
    g.move_right();
    assert_eq!(g.current_piece(), piece(Tetromino::I, 0, 6, 4));
    // the I in its last rotation state stands in column x + 1
    let mut g = Game::from_position(empty(), piece(Tetromino::I, 3, -1, 4), Tetromino::O, 0, 0, 1)
        .unwrap();
    g.move_left();
    assert_eq!(g.current_piece(), piece(Tetromino::I, 3, -1, 4));
    let mut board = empty();
    put(&mut board, 2, 5, 1);
    let mut g =
        Game::from_position(board, piece(Tetromino::I, 0, 3, 4), Tetromino::O, 0, 0, 1).unwrap();
    g.move_left();
    assert_eq!(g.current_piece(), piece(Tetromino::I, 0, 3, 4));
}

#[test]
fn move_and_move_back_returns() {
    for seed in 0..20u64 {
        let mut g = Game::with_seed(seed);
        let start = g.current_piece();
        g.move_left();
        assert_eq!(g.current_piece().x, start.x - 1);
        g.move_right();
        assert_eq!(g.current_piece(), start);
        g.move_right();
        g.move_left();
        assert_eq!(g.current_piece(), start);
        assert_eq!(g.tick(), Step::Moved);
    }
}

#[test]
fn ghost_rests_on_the_floor() {
    let g = Game::from_position(empty(), piece(Tetromino::I, 0, 3, 0), Tetromino::O, 0, 0, 1)
        .unwrap();
    assert_eq!(g.ghost_piece(), piece(Tetromino::I, 0, 3, 18));
    assert_eq!(g.ghost_piece(), g.ghost_piece());
    assert_eq!(g.current_piece(), piece(Tetromino::I, 0, 3, 0));
    let g = Game::from_position(empty(), piece(Tetromino::I, 1, 3, 2), Tetromino::O, 0, 0, 1)
        .unwrap();
    assert_eq!(g.ghost_piece(), piece(Tetromino::I, 1, 3, 16));
    let g = Game::from_position(empty(), piece(Tetromino::O, 0, 3, 18), Tetromino::O, 0, 0, 1)
        .unwrap();
    assert_eq!(g.ghost_piece(), piece(Tetromino::O, 0, 3, 18));
}

#[test]
fn ghost_rests_on_the_stack() {
    let mut board = empty();
    put(&mut board, 4, 10, 2);
    let g =
        Game::from_position(board, piece(Tetromino::T, 0, 3, 0), Tetromino::O, 0, 0, 1).unwrap();
    // the stem of the T is in column 4, its bar one row lower
    assert_eq!(g.ghost_piece(), piece(Tetromino::T, 0, 3, 8));
    let mut board = empty();
    put(&mut board, 3, 10, 2);
    let g =
        Game::from_position(board, piece(Tetromino::T, 2, 3, 0), Tetromino::O, 0, 0, 1).unwrap();
    assert_eq!(g.ghost_piece(), piece(Tetromino::T, 2, 3, 8));
}

#[test]
fn ghost_fits_and_is_where_a_drop_locks() {
    for seed in 0..25u64 {
        let mut g = Game::with_seed(seed);
        for _ in 0..12 {
            if g.is_game_over() {
                break;
            }
            let ghost = g.ghost_piece();
            assert_eq!(ghost, g.ghost_piece());
            let cells = blocks_for(ghost);
            for &(x, y) in &cells {
                assert!(x >= 0 && x < 10 && y >= 0 && y < 20);
                assert_eq!(g.cell(x, y), 0);
            }
            let before = count_filled(&g);
            let step = g.hard_drop();
            if let Step::Locked { cleared, .. } = step {
                assert!(cleared <= 4);
                assert_eq!(count_filled(&g), before + 4 - 10 * cleared as usize);
                if cleared == 0 {
                    for &(x, y) in &cells {
                        assert_eq!(g.cell(x, y), ghost.kind.id());
                    }
                }
            } else {
                panic!("a drop in a running game locks the piece");
            }
        }
    }
}

#[test]
fn hard_drop_locks_at_rest() {
    let mut board = empty();
    put(&mut board, 4, 10, 2);
    let mut g =
        Game::from_position(board, piece(Tetromino::T, 0, 3, 0), Tetromino::S, 0, 0, 1).unwrap();
    assert_eq!(g.hard_drop(), Step::Locked { cleared: 0, game_over: false });
    assert_eq!(g.cell(4, 8), 3);
    assert_eq!(g.cell(3, 9), 3);
    assert_eq!(g.cell(4, 9), 3);
    assert_eq!(g.cell(5, 9), 3);
    assert_eq!(g.cell(4, 10), 2);
    assert_eq!(count_filled(&g), 5);
    assert_eq!(g.current_piece(), piece(Tetromino::S, 0, 3, 0));
}

#[test]
fn cells_above_the_top_are_not_written() {
    let mut g = blocked_at_top(Tetromino::O);
    assert_eq!(g.ghost_piece(), piece(Tetromino::I, 1, 1, -2));
    assert_eq!(g.tick(), Step::Locked { cleared: 0, game_over: false });
    assert_eq!(g.board().len(), 200);
    assert_eq!(g.cell(3, 0), 1);
    assert_eq!(g.cell(3, 1), 1);
    assert_eq!(g.cell(3, 2), 5);
    assert_eq!(count_filled(&g), 3);
    assert_eq!(g.current_piece(), piece(Tetromino::O, 0, 3, 0));
    assert_eq!((g.score(), g.lines()), (70, 3));
}

#[test]
fn piece_above_the_board_falls_into_it() {
    let mut g = Game::from_position(empty(), piece(Tetromino::O, 0, 3, -4), Tetromino::O, 0, 0, 1)
        .unwrap();
    assert_eq!(g.tick(), Step::Moved);
    assert_eq!(g.current_piece(), piece(Tetromino::O, 0, 3, -3));
    assert_eq!(g.ghost_piece(), piece(Tetromino::O, 0, 3, 18));
    assert_eq!(count_filled(&g), 0);
}

#[test]
fn blocked_entry_ends_the_game() {
    let mut g = blocked_at_top(Tetromino::I);
    assert_eq!(g.tick(), Step::Locked { cleared: 0, game_over: true });
    assert!(g.is_game_over());
    assert_eq!(g.current_piece(), piece(Tetromino::I, 0, 3, 0));
    assert_eq!(count_filled(&g), 3);
}

#[test]
fn ended_game_stays_as_it_is() {
    let mut g = blocked_at_top(Tetromino::I);
    g.tick();
    assert!(g.is_game_over());
    let board: Vec<Cell> = g.board().to_vec();
    let current = g.current_piece();
    for _ in 0..3 {
        assert_eq!(g.tick(), Step::GameOver);
        assert_eq!(g.soft_drop(), Step::GameOver);
        assert_eq!(g.hard_drop(), Step::GameOver);
        g.move_left();
        g.move_right();
        g.rotate_cw();
        assert!(g.is_game_over());
        assert_eq!(g.board(), &board[..]);
        assert_eq!(g.current_piece(), current);
        assert_eq!((g.score(), g.lines(), g.level()), (70, 3, 1));
    }
}

#[test]
fn ghost_of_a_blocked_piece_is_the_piece() {
    let mut g = blocked_at_top(Tetromino::I);
    g.tick();
    assert!(g.is_game_over());
    assert_eq!(g.ghost_piece(), piece(Tetromino::I, 0, 3, 0));
    assert_eq!(g.cell(3, 1), 1);
}

#[test]
fn counters_never_fall_in_play() {
    for seed in 0..12u64 {
        let mut g = Game::with_seed(seed);
        let mut state = seed.wrapping_mul(6364136223846793005).wrapping_add(1442695040888963407);
        let (mut score, mut lines) = (0u32, 0u32);
        let mut steps = 0;
        while !g.is_game_over() && steps < 4000 {
            state = state.wrapping_mul(6364136223846793005).wrapping_add(1442695040888963407);
            match (state >> 33) % 6 {
                0 => g.move_left(),
                1 => g.move_right(),
                2 => g.rotate_cw(),
                3 => {
                    g.tick();
                }
                4 => {
                    g.soft_drop();
                }
                _ => {
                    g.hard_drop();
                }
            }
            assert!(g.score() >= score);
            assert!(g.lines() >= lines);
            assert!(g.lines() <= lines + 4);
            for y in 0..20 {
                assert!((0..10).any(|x| g.cell(x, y) == 0));
            }
            assert_eq!(g.level(), g.lines() / 10 + 1);
            assert_eq!(g.board().len(), 200);
            assert!(g.board().iter().all(|&c| c <= 7));
            assert!(g.current_piece().rot < 4);
            if !g.is_game_over() {
                for (x, y) in blocks_for(g.current_piece()) {
                    assert!(x >= 0 && x < 10 && y >= 0 && y < 20);
                    assert_eq!(g.cell(x, y), 0);
                }
            }
            score = g.score();
            lines = g.lines();
            steps += 1;
        }
        assert!(g.is_game_over());
        assert_eq!(g.tick(), Step::GameOver);
    }
}

#[test]
fn clone_is_a_game_of_its_own() {
    let mut a = Game::with_seed(77);
    let mut b = a.clone();
    a.hard_drop();
    assert_eq!(count_filled(&a), 4);
    assert_eq!(count_filled(&b), 0);
    b.hard_drop();
    assert_eq!(a.board(), b.board());
    assert_eq!(a.current_piece(), b.current_piece());
}
