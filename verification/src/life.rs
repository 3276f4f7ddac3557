use vstd::prelude::*;

verus! {

/// A rectangular board: at least one row, and every row as long as the
/// first.
pub open spec fn board_wf(b: Seq<Seq<char>>) -> bool {
    b.len() > 0 && (forall|i: int| 0 <= i < b.len() ==> (#[trigger] b[i]).len() == b[0].len())
}

/// A settled board holds only live and dead cells.
pub open spec fn cells_wf(b: Seq<Seq<char>>) -> bool {
    forall|i: int, j: int| 0 <= i < b.len() && 0 <= j < b[i].len() ==> (#[trigger] b[i][j])
        == 'x' || b[i][j] == '.'
}

/// A cell counts as alive both as a plain live cell and while it carries
/// the transient mark of a live cell about to die.
pub open spec fn alive_spec(c: char) -> bool {
    c == 'x' || c == 'l'
}

/// One neighbor's contribution: a cell outside the board counts as dead.
pub open spec fn nbr(b: Seq<Seq<char>>, i: int, j: int) -> int {
    if 0 <= i < b.len() && 0 <= j < b[0].len() && alive_spec(b[i][j]) {
        1
    } else {
        0
    }
}

/// How many of the eight neighbors of `(i, j)` are alive.
pub open spec fn live_neighbors(b: Seq<Seq<char>>, i: int, j: int) -> int {
    nbr(b, i - 1, j - 1) + nbr(b, i - 1, j) + nbr(b, i - 1, j + 1) + nbr(b, i, j - 1) + nbr(b,
        i, j + 1) + nbr(b, i + 1, j - 1) + nbr(b, i + 1, j) + nbr(b, i + 1, j + 1)
}

/// The rule of the game: a live cell survives with two or three live
/// neighbors, a dead cell with exactly three becomes alive, every other
/// cell is dead in the next generation.
pub open spec fn next_cell(b: Seq<Seq<char>>, i: int, j: int) -> char {
    let c = b[i][j];
    let n = live_neighbors(b, i, j);
    if c == 'x' && (n == 2 || n == 3) {
        'x'
    } else if c == '.' && n == 3 {
        'x'
    } else {
        '.'
    }
}

/// The transient mark the first pass leaves: `d` for a dead cell that
/// comes alive, `l` for a live cell that dies; marks keep the old
/// liveness, so later neighbor counts still see the old generation.
pub open spec fn mark_of(c: char, n: int) -> char {
    if c == 'x' && (n == 2 || n == 3) {
        'x'
    } else if c == '.' && n == 3 {
        'd'
    } else if c == 'x' {
        'l'
    } else {
        '.'
    }
}

/// Decode a mark into the next generation's cell.
pub open spec fn decode_mark(c: char) -> char {
    if c == 'l' {
        '.'
    } else if c == 'd' {
        'x'
    } else {
        c
    }
}

/// Is this cell alive, counting a mark of a dying cell as still alive?
pub fn is_alive(c: char) -> (r: bool)
    ensures
        r == alive_spec(c),
{
    return c == 'x' || c == 'l';
}

/// The seed pattern: an empty board with a five-by-three block of live
/// cells.
pub fn init_board(board: &mut Vec<Vec<char>>)
    requires
        board_wf(old(board)@.map_values(|row: Vec<char>| row@)),
        old(board)@.len() >= 6,
        old(board)@[0]@.len() >= 7,
    ensures
        final(board)@.len() == old(board)@.len(),
        forall|i: int| 0 <= i < final(board)@.len() ==> (#[trigger] final(board)@[i])@.len()
            == old(board)@[i]@.len(),
        forall|i: int, j: int| 0 <= i < final(board)@.len() && 0 <= j < final(
            board)@[i]@.len() ==> (#[trigger] final(board)@[i]@[j]) == (if 3 <= i < 6 && 2 <= j
            < 7 {
            'x'
        } else {
            '.'
        }),
{
    let n = board.len();
    let m = board[0].len();
    let ghost orig = board@;
    for row in 0..n
        invariant
            n == board@.len(),
            n == orig.len(),
            m == orig[0]@.len(),
            board_wf(orig.map_values(|r: Vec<char>| r@)),
            forall|i: int| 0 <= i < n ==> (#[trigger] board@[i])@.len() == orig[i]@.len(),
            forall|i: int, j: int| 0 <= i < row && 0 <= j < board@[i]@.len() ==> (
                #[trigger] board@[i]@[j]) == (if 3 <= i < 6 && 2 <= j < 7 {
                'x'
            } else {
                '.'
            }),
            forall|i: int| row <= i < n ==> (#[trigger] board@[i])@ == orig[i]@,
    {
        let width = board[row].len();
        let mut newrow: Vec<char> = Vec::new();
        for col in 0..width
            invariant
                newrow@.len() == col,
                forall|j: int| 0 <= j < col ==> (#[trigger] newrow@[j]) == (if 3 <= row < 6
                    && 2 <= j < 7 {
                    'x'
                } else {
                    '.'
                }),
        {
            if 3 <= row && row < 6 && 2 <= col && col < 7 {
                newrow.push('x');
            } else {
                newrow.push('.');
            }
        }
        board[row] = newrow;
    }
}

/// One neighbor of `(r, c)`, offset by `(di - 1, dj - 1)`: one when it is
/// on the board and alive, else zero.
fn alive_at(board: &Vec<Vec<char>>, r: usize, c: usize, di: usize, dj: usize) -> (k: u32)
    requires
        board_wf(board@.map_values(|row: Vec<char>| row@)),
        r < board@.len(),
        c < board@[0]@.len(),
        di < 3,
        dj < 3,
    ensures
        k == nbr(board@.map_values(|row: Vec<char>| row@), r + di - 1, c + dj - 1),
{
    let ghost b = board@.map_values(|row: Vec<char>| row@);
    let rs: u128 = r as u128 + di as u128;
    let cs: u128 = c as u128 + dj as u128;
    if rs >= 1 && rs <= board.len() as u128 && cs >= 1 && cs <= board[0].len() as u128 {
        let i = (rs - 1) as usize;
        let j = (cs - 1) as usize;
        proof {
            assert(b[i as int].len() == b[0].len());
        }
        if is_alive(board[i][j]) {
            1
        } else {
            0
        }
    } else {
        0
    }
}

/// Count the live neighbors of `(r, c)`.
fn count_neighbors(board: &Vec<Vec<char>>, r: usize, c: usize) -> (k: u32)
    requires
        board_wf(board@.map_values(|row: Vec<char>| row@)),
        r < board@.len(),
        c < board@[0]@.len(),
    ensures
        k == live_neighbors(board@.map_values(|row: Vec<char>| row@), r as int, c as int),
{
    let mut k: u32 = 0;
    k = k + alive_at(board, r, c, 0, 0);
    k = k + alive_at(board, r, c, 0, 1);
    k = k + alive_at(board, r, c, 0, 2);
    k = k + alive_at(board, r, c, 1, 0);
    k = k + alive_at(board, r, c, 1, 2);
    k = k + alive_at(board, r, c, 2, 0);
    k = k + alive_at(board, r, c, 2, 1);
    k = k + alive_at(board, r, c, 2, 2);
    k
}

/// One neighbor term agrees between two boards that agree on liveness.
proof fn lemma_nbr_eq(b1: Seq<Seq<char>>, b2: Seq<Seq<char>>, i: int, j: int)
    requires
        board_wf(b1),
        board_wf(b2),
        b1.len() == b2.len(),
        b1[0].len() == b2[0].len(),
        forall|r: int, c: int| 0 <= r < b1.len() && 0 <= c < b1[r].len() ==> alive_spec(
            #[trigger] b1[r][c]) == alive_spec(b2[r][c]),
    ensures
        nbr(b1, i, j) == nbr(b2, i, j),
{
    if 0 <= i < b1.len() && 0 <= j < b1[0].len() {
        assert(b1[i].len() == b1[0].len());
        assert(alive_spec(b1[i][j]) == alive_spec(b2[i][j]));
    }
}

/// Liveness is all the neighbor count reads, so two boards that agree on
/// liveness everywhere give every cell the same count.
proof fn lemma_count_alive_eq(b1: Seq<Seq<char>>, b2: Seq<Seq<char>>, i: int, j: int)
    requires
        board_wf(b1),
        board_wf(b2),
        b1.len() == b2.len(),
        b1[0].len() == b2[0].len(),
        forall|r: int, c: int| 0 <= r < b1.len() && 0 <= c < b1[r].len() ==> alive_spec(
            #[trigger] b1[r][c]) == alive_spec(b2[r][c]),
    ensures
        live_neighbors(b1, i, j) == live_neighbors(b2, i, j),
{
    lemma_nbr_eq(b1, b2, i - 1, j - 1);
    lemma_nbr_eq(b1, b2, i - 1, j);
    lemma_nbr_eq(b1, b2, i - 1, j + 1);
    lemma_nbr_eq(b1, b2, i, j - 1);
    lemma_nbr_eq(b1, b2, i, j + 1);
    lemma_nbr_eq(b1, b2, i + 1, j - 1);
    lemma_nbr_eq(b1, b2, i + 1, j);
    lemma_nbr_eq(b1, b2, i + 1, j + 1);
}

/// Advance the board one generation, in place: a first pass writes each
/// cell's fate as a mark that keeps the old liveness, so the neighbor
/// counts of later cells still see the old generation; a second pass
/// settles the marks.
pub fn step(board: &mut Vec<Vec<char>>)
    requires
        board_wf(old(board)@.map_values(|row: Vec<char>| row@)),
        cells_wf(old(board)@.map_values(|row: Vec<char>| row@)),
    ensures
        final(board)@.len() == old(board)@.len(),
        forall|i: int| 0 <= i < final(board)@.len() ==> (#[trigger] final(board)@[i])@.len()
            == old(board)@[i]@.len(),
        forall|i: int, j: int| 0 <= i < final(board)@.len() && 0 <= j < final(
            board)@[i]@.len() ==> (#[trigger] final(board)@[i]@[j]) == next_cell(old(
            board)@.map_values(|row: Vec<char>| row@), i, j),
        cells_wf(final(board)@.map_values(|row: Vec<char>| row@)),
{
    let ghost orig = old(board)@.map_values(|row: Vec<char>| row@);
    let n = board.len();
    let m = board[0].len();
    // first pass: mark each cell with its fate
    for row in 0..n
        invariant
            n == board@.len(),
            n == orig.len(),
            m == orig[0].len(),
            board_wf(orig),
            cells_wf(orig),
            forall|i: int| 0 <= i < n ==> (#[trigger] board@[i])@.len() == orig[i].len(),
            forall|i: int, j: int| 0 <= i < row && 0 <= j < orig[i].len() ==> (
                #[trigger] board@[i]@[j]) == mark_of(orig[i][j], live_neighbors(orig, i, j)),
            forall|i: int| row <= i < n ==> (#[trigger] board@[i])@ == orig[i],
            forall|i: int, j: int| 0 <= i < n && 0 <= j < orig[i].len() ==> alive_spec(
                #[trigger] board@[i]@[j]) == alive_spec(orig[i][j]),
    {
        let width = board[row].len();
        let mut newrow: Vec<char> = Vec::new();
        for col in 0..width
            invariant
                n == board@.len(),
                n == orig.len(),
                m == orig[0].len(),
                board_wf(orig),
                cells_wf(orig),
                row < n,
                width == orig[row as int].len(),
                forall|i: int| 0 <= i < n ==> (#[trigger] board@[i])@.len() == orig[i].len(),
                forall|i: int, j: int| 0 <= i < row && 0 <= j < orig[i].len() ==> (
                    #[trigger] board@[i]@[j]) == mark_of(orig[i][j], live_neighbors(orig, i,
                    j)),
                forall|i: int| row <= i < n ==> (#[trigger] board@[i])@ == orig[i],
                forall|i: int, j: int| 0 <= i < n && 0 <= j < orig[i].len() ==> alive_spec(
                    #[trigger] board@[i]@[j]) == alive_spec(orig[i][j]),
                newrow@.len() == col,
                forall|j: int| 0 <= j < col ==> (#[trigger] newrow@[j]) == mark_of(
                    orig[row as int][j], live_neighbors(orig, row as int, j)),
        {
            let count = count_neighbors(board, row, col);
            proof {
                lemma_count_alive_eq(board@.map_values(|r: Vec<char>| r@), orig, row as int,
                    col as int);
            }
            let cur = board[row][col];
            proof {
                assert(board@[row as int]@[col as int] == orig[row as int][col as int]);
            }
            if cur == 'x' && (count == 2 || count == 3) {
                newrow.push('x');
            } else if cur == '.' && count == 3 {
                newrow.push('d');
            } else if cur == 'x' {
                newrow.push('l');
            } else {
                newrow.push('.');
            }
        }
        board[row] = newrow;
    }
    // second pass: settle the marks
    let ghost marked = board@.map_values(|row: Vec<char>| row@);
    for row in 0..n
        invariant
            n == board@.len(),
            n == orig.len(),
            n == marked.len(),
            forall|i: int| 0 <= i < n ==> (#[trigger] board@[i])@.len() == orig[i].len(),
            forall|i: int| 0 <= i < n ==> (#[trigger] marked[i]).len() == orig[i].len(),
            forall|i: int, j: int| 0 <= i < n && 0 <= j < orig[i].len() ==> (
                #[trigger] marked[i][j]) == mark_of(orig[i][j], live_neighbors(orig, i, j)),
            forall|i: int, j: int| 0 <= i < row && 0 <= j < orig[i].len() ==> (
                #[trigger] board@[i]@[j]) == decode_mark(marked[i][j]),
            forall|i: int| row <= i < n ==> (#[trigger] board@[i])@ == marked[i],
    {
        let width = board[row].len();
        let mut newrow: Vec<char> = Vec::new();
        for col in 0..width
            invariant
                n == board@.len(),
                row < n,
                width == marked[row as int].len(),
                forall|i: int| row <= i < n ==> (#[trigger] board@[i])@ == marked[i],
                newrow@.len() == col,
                forall|j: int| 0 <= j < col ==> (#[trigger] newrow@[j]) == decode_mark(
                    marked[row as int][j]),
        {
            let cur = board[row][col];
            if cur == 'l' {
                newrow.push('.');
            } else if cur == 'd' {
                newrow.push('x');
            } else {
                newrow.push(cur);
            }
        }
        board[row] = newrow;
    }
    proof {
        assert forall|i: int, j: int| 0 <= i < final(board)@.len() && 0 <= j < final(
            board)@[i]@.len() implies (#[trigger] final(board)@[i]@[j]) == next_cell(orig, i,
            j) by {
            assert(final(board)@[i]@[j] == decode_mark(mark_of(orig[i][j], live_neighbors(
                orig, i, j))));
        }
    }
}

} // verus!
