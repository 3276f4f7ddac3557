use ray_tracer::life::{init_board, is_alive, step};

fn fresh_board(n: usize, m: usize) -> Vec<Vec<char>> {
    let row = vec!['.'; m];
    vec![row; n]
}

#[test]
fn alive_cells() {
    assert!(is_alive('x'));
    assert!(is_alive('l'));
    assert!(!is_alive('.'));
    assert!(!is_alive('d'));
}

#[test]
fn initial_pattern() {
    let mut board = fresh_board(10, 10);
    init_board(&mut board);
    for row in 0..10 {
        for col in 0..10 {
            let expect = (3..6).contains(&row) && (2..7).contains(&col);
            assert_eq!(board[row][col] == 'x', expect, "cell {} {}", row, col);
        }
    }
}

#[test]
fn blinker_oscillates() {
    // a vertical blinker becomes horizontal, and back again
    let mut board = fresh_board(5, 5);
    for row in 1..4 {
        board[row][2] = 'x';
    }
    let before = board.clone();
    step(&mut board);
    for col in 0..5 {
        assert_eq!(board[2][col] == 'x', (1..4).contains(&col), "col {}", col);
    }
    for row in [0, 1, 3, 4] {
        for col in 0..5 {
            assert_eq!(board[row][col], if row == 2 && (1..4).contains(&col) { 'x' } else { '.' });
        }
    }
    step(&mut board);
    assert_eq!(board, before);
}

#[test]
fn block_is_still() {
    // a two-by-two block is a still life
    let mut board = fresh_board(4, 4);
    board[1][1] = 'x';
    board[1][2] = 'x';
    board[2][1] = 'x';
    board[2][2] = 'x';
    let before = board.clone();
    step(&mut board);
    assert_eq!(board, before);
}

#[test]
fn lonely_cell_dies() {
    let mut board = fresh_board(3, 3);
    board[1][1] = 'x';
    step(&mut board);
    for row in 0..3 {
        for col in 0..3 {
            assert_eq!(board[row][col], '.');
        }
    }
}
