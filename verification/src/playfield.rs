//! The playfield: a grid of rows of cells, where 0 is an empty cell and
//! 1 to 7 a block locked by a piece of that kind. Collision tests, line
//! clearing and scoring.
use vstd::prelude::*;
use crate::pieces::{BlockOffset, Tetromino};

verus! {

/// Number of columns of the visible playfield.
pub const PLAYFIELD_WIDTH: usize = 10;

/// Number of rows of the visible playfield.
pub const PLAYFIELD_HEIGHT: usize = 20;

/// The rows of a playfield, each as the sequence of its cells.
pub open spec fn rows_of(p: Seq<Vec<u8>>) -> Seq<Seq<u8>> {
    Seq::new(p.len(), |i: int| p[i]@)
}

/// The playfield has at least `PLAYFIELD_HEIGHT` rows, and each of those rows
/// at least `PLAYFIELD_WIDTH` cells: every visible cell exists.
pub open spec fn playfield_shaped(rows: Seq<Seq<u8>>) -> bool {
    &&& rows.len() >= PLAYFIELD_HEIGHT
    &&& forall|r: int| 0 <= r < PLAYFIELD_HEIGHT ==> #[trigger] rows[r].len() >= PLAYFIELD_WIDTH
}

/// The visible playfield of `PLAYFIELD_HEIGHT` rows of `PLAYFIELD_WIDTH` empty cells.
pub open spec fn empty_playfield() -> Seq<Seq<u8>> {
    Seq::new(PLAYFIELD_HEIGHT as nat, |i: int| empty_row())
}

/// A row of `PLAYFIELD_WIDTH` empty cells.
pub open spec fn empty_row() -> Seq<u8> {
    Seq::new(PLAYFIELD_WIDTH as nat, |j: int| 0u8)
}

/// A block at column `x`, row `y` cannot be there: it is left or right of the
/// playfield, below its floor, or on an occupied cell. Rows above the top
/// (negative `y`) are open.
pub open spec fn cell_blocked(rows: Seq<Seq<u8>>, x: int, y: int) -> bool {
    ||| x < 0
    ||| x >= PLAYFIELD_WIDTH
    ||| (y >= 0 && (y >= PLAYFIELD_HEIGHT || rows[y][x] != 0))
}

/// The block at offset `b` from the pivot at (`px`, `py`) cannot be there.
pub open spec fn block_blocked(rows: Seq<Seq<u8>>, b: BlockOffset, px: int, py: int) -> bool {
    cell_blocked(rows, px + b.0, py + b.1)
}

/// A piece made of `blocks` with its pivot at (`px`, `py`) collides: one of
/// its blocks cannot be there.
pub open spec fn collides(blocks: Seq<BlockOffset>, rows: Seq<Seq<u8>>, px: int, py: int) -> bool {
    exists|i: int| 0 <= i < blocks.len() && #[trigger] block_blocked(rows, blocks[i], px, py)
}

/// The coordinates of every block of a piece at (`px`, `py`) fit in an `i32`.
pub open spec fn offsets_fit_i32(blocks: Seq<BlockOffset>, px: int, py: int) -> bool {
    forall|i: int|
        0 <= i < blocks.len() ==> i32::MIN <= px + (#[trigger] blocks[i]).0 <= i32::MAX && i32::MIN
            <= py + blocks[i].1 <= i32::MAX
}

/// Whether a piece made of `blocks`, with its pivot at (`new_x`, `new_y`),
/// would overlap a wall, the floor or a locked block.
pub fn check_collision(
    blocks: &[BlockOffset],
    playfield: &Vec<Vec<u8>>,
    new_x: i32,
    new_y: i32,
) -> (hit: bool)
    requires
        playfield_shaped(rows_of(playfield@)),
        offsets_fit_i32(blocks@, new_x as int, new_y as int),
    ensures
        hit == collides(blocks@, rows_of(playfield@), new_x as int, new_y as int),
{
    let ghost rows = rows_of(playfield@);
    let mut i: usize = 0;
    while i < blocks.len()
        invariant
            0 <= i <= blocks@.len(),
            rows == rows_of(playfield@),
            playfield_shaped(rows),
            offsets_fit_i32(blocks@, new_x as int, new_y as int),
            forall|j: int|
                0 <= j < i ==> !#[trigger] block_blocked(rows, blocks@[j], new_x as int, new_y as int),
        decreases blocks@.len() - i,
    {
        let (block_dx, block_dy) = blocks[i];
        assert(blocks@[i as int] == (block_dx, block_dy));
        let block_abs_x = new_x + block_dx;
        let block_abs_y = new_y + block_dy;
        if block_abs_x < 0 || block_abs_x >= PLAYFIELD_WIDTH as i32 {
            assert(block_blocked(rows, blocks@[i as int], new_x as int, new_y as int));
            return true;
        }
        if block_abs_y >= 0 {
            if block_abs_y >= PLAYFIELD_HEIGHT as i32 {
                assert(block_blocked(rows, blocks@[i as int], new_x as int, new_y as int));
                return true;
            }
            assert(rows[block_abs_y as int].len() >= PLAYFIELD_WIDTH);
            if playfield[block_abs_y as usize][block_abs_x as usize] != 0 {
                assert(block_blocked(rows, blocks@[i as int], new_x as int, new_y as int));
                return true;
            }
        }
        i += 1;
    }
    false
}

/// Every cell of the row is occupied.
pub open spec fn row_full(row: Seq<u8>) -> bool {
    forall|j: int| 0 <= j < row.len() ==> row[j] != 0
}

/// Some row other than the top one is full.
pub open spec fn full_row_below_top(rows: Seq<Seq<u8>>) -> bool {
    exists|j: int| 1 <= j < rows.len() && #[trigger] row_full(rows[j])
}

/// Row `i` of the visible rows is removed by a line clear: it is full, and,
/// for the top row, some row below it is full as well (the top row is only
/// looked at once the rows above a cleared line have moved down).
pub open spec fn row_cleared(rows: Seq<Seq<u8>>, i: int) -> bool {
    row_full(rows[i]) && (i > 0 || full_row_below_top(rows))
}

/// The rows from index `lo` on that a line clear keeps, top to bottom.
pub open spec fn surviving_rows(rows: Seq<Seq<u8>>, lo: int) -> Seq<Seq<u8>>
    decreases rows.len() - lo,
{
    if lo < 0 || lo >= rows.len() {
        Seq::empty()
    } else if row_cleared(rows, lo) {
        surviving_rows(rows, lo + 1)
    } else {
        seq![rows[lo]] + surviving_rows(rows, lo + 1)
    }
}

/// The number of visible rows that a line clear removes.
pub open spec fn lines_cleared(rows: Seq<Seq<u8>>) -> int {
    PLAYFIELD_HEIGHT - surviving_rows(rows.take(PLAYFIELD_HEIGHT as int), 0).len()
}

/// The playfield after a line clear: as many empty rows as were cleared on
/// top, the surviving visible rows below them in their order, and any rows
/// past the visible ones unchanged.
pub open spec fn after_clearing(rows: Seq<Seq<u8>>) -> Seq<Seq<u8>> {
    let kept = surviving_rows(rows.take(PLAYFIELD_HEIGHT as int), 0);
    Seq::new((PLAYFIELD_HEIGHT - kept.len()) as nat, |i: int| empty_row()) + kept + rows.skip(
        PLAYFIELD_HEIGHT as int,
    )
}

/// Points for clearing `lines` lines at once on `level`.
pub open spec fn line_score(lines: int, level: int) -> int {
    if lines == 1 {
        100 * level
    } else if lines == 2 {
        300 * level
    } else if lines == 3 {
        500 * level
    } else if lines == 4 {
        800 * level
    } else {
        0
    }
}

/// A clear of one to four lines earns 100, 300, 500 or 800 points times the
/// level; clearing none, or more than four, earns nothing. The points are
/// those of level 1 multiplied by the level.
pub proof fn lemma_line_score_table(lines: int, level: int)
    ensures
        line_score(0, level) == 0,
        line_score(1, level) == 100 * level,
        line_score(2, level) == 300 * level,
        line_score(3, level) == 500 * level,
        line_score(4, level) == 800 * level,
        lines > 4 || lines < 1 ==> line_score(lines, level) == 0,
        line_score(lines, level) == line_score(lines, 1) * level,
{
}

/// The surviving rows from `lo` on are a selection of the rows from `lo` on;
/// below the top row, fewer rows survive exactly when one of them is full.
pub proof fn lemma_surviving_rows_len(rows: Seq<Seq<u8>>, lo: int)
    requires
        0 <= lo <= rows.len(),
    ensures
        surviving_rows(rows, lo).len() <= rows.len() - lo,
        lo >= 1 ==> (surviving_rows(rows, lo).len() < rows.len() - lo <==> exists|j: int|
            lo <= j < rows.len() && #[trigger] row_full(rows[j])),
    decreases rows.len() - lo,
{
    if lo < rows.len() {
        lemma_surviving_rows_len(rows, lo + 1);
        let s = surviving_rows(rows, lo);
        let t = surviving_rows(rows, lo + 1);
        if row_cleared(rows, lo) {
            if lo >= 1 {
                assert(row_full(rows[lo]));
            }
        } else {
            assert(s == seq![rows[lo]] + t);
            if lo >= 1 {
                assert(!row_full(rows[lo]));
                if exists|j: int| lo <= j < rows.len() && #[trigger] row_full(rows[j]) {
                    let j = choose|j: int| lo <= j < rows.len() && #[trigger] row_full(rows[j]);
                    assert(j != lo);
                }
            }
        }
    }
}

/// Whether every cell of `row` is occupied.
fn row_is_full(row: &Vec<u8>) -> (full: bool)
    ensures
        full == row_full(row@),
{
    let mut j: usize = 0;
    while j < row.len()
        invariant
            0 <= j <= row@.len(),
            forall|k: int| 0 <= k < j ==> row@[k] != 0,
        decreases row@.len() - j,
    {
        if row[j] == 0 {
            return false;
        }
        j += 1;
    }
    true
}

/// Move rows `0..y` one row down, onto rows `1..=y`, and put an empty row on top.
fn shift_rows_down(playfield: &mut Vec<Vec<u8>>, y: usize)
    requires
        y < old(playfield)@.len(),
    ensures
        final(playfield)@.len() == old(playfield)@.len(),
        final(playfield)@[0]@ == empty_row(),
        forall|i: int| 1 <= i <= y ==> #[trigger] final(playfield)@[i]@ == old(playfield)@[i - 1]@,
        forall|i: int|
            y < i < old(playfield)@.len() ==> #[trigger] final(playfield)@[i]@ == old(playfield)@[i]@,
{
    let ghost start = playfield@;
    let mut row_idx: usize = y;
    while row_idx > 0
        invariant
            row_idx <= y < start.len(),
            playfield@.len() == start.len(),
            forall|i: int| 0 <= i <= row_idx ==> #[trigger] playfield@[i]@ == start[i]@,
            forall|i: int| row_idx < i <= y ==> #[trigger] playfield@[i]@ == start[i - 1]@,
            forall|i: int| y < i < start.len() ==> #[trigger] playfield@[i]@ == start[i]@,
        decreases row_idx,
    {
        let above = playfield[row_idx - 1].clone();
        assert(above@ =~= start[row_idx - 1]@);
        playfield.set(row_idx, above);
        row_idx -= 1;
    }
    let top: Vec<u8> = vec![0; PLAYFIELD_WIDTH];
    assert(top@ =~= empty_row());
    playfield.set(0, top);
}

/// Remove the full rows of the visible playfield, scanning from the bottom
/// row up: the rows above a full row move down by one and an empty row
/// enters at the top. Returns the number of rows removed and the points
/// they earn on `current_level`.
pub fn check_and_clear_lines(playfield: &mut Vec<Vec<u8>>, current_level: u32) -> (result: (
    u32,
    u32,
))
    requires
        old(playfield)@.len() >= PLAYFIELD_HEIGHT,
        line_score(lines_cleared(rows_of(old(playfield)@)), current_level as int) <= u32::MAX,
    ensures
        rows_of(final(playfield)@) == after_clearing(rows_of(old(playfield)@)),
        result.0 == lines_cleared(rows_of(old(playfield)@)),
        result.1 == line_score(result.0 as int, current_level as int),
        result.0 == 0 ==> result.1 == 0,
        result.0 == 1 ==> result.1 == 100 * current_level,
        result.0 == 2 ==> result.1 == 300 * current_level,
        result.0 == 3 ==> result.1 == 500 * current_level,
        result.0 == 4 ==> result.1 == 800 * current_level,
        result.0 > 4 ==> result.1 == 0,
{
    let ghost orig = rows_of(playfield@);
    let ghost vis = orig.take(PLAYFIELD_HEIGHT as int);
    let ghost h = PLAYFIELD_HEIGHT as int;
    let mut lines_cleared_this_turn: u32 = 0;
    let mut y: usize = PLAYFIELD_HEIGHT - 1;
    let ghost mut u: int = h;
    proof {
        lemma_surviving_rows_len(vis, h);
    }
    while y > 0
        invariant
            orig == rows_of(old(playfield)@),
            vis == orig.take(h),
            h == PLAYFIELD_HEIGHT,
            playfield@.len() == orig.len(),
            orig.len() >= h,
            0 <= u <= h,
            y < h,
            u > 0 ==> lines_cleared_this_turn + u == y + 1,
            u == 0 ==> y < lines_cleared_this_turn,
            lines_cleared_this_turn as int + u <= h,
            surviving_rows(vis, u).len() == h - lines_cleared_this_turn - u,
            forall|i: int| 0 <= i < lines_cleared_this_turn ==> #[trigger] playfield@[i]@ == empty_row(),
            forall|i: int|
                lines_cleared_this_turn <= i < lines_cleared_this_turn + u ==> #[trigger] playfield@[i]@
                    == vis[i - lines_cleared_this_turn],
            forall|i: int|
                lines_cleared_this_turn + u <= i < h ==> #[trigger] playfield@[i]@ == surviving_rows(
                    vis,
                    u,
                )[i - lines_cleared_this_turn - u],
            forall|i: int| h <= i < orig.len() ==> #[trigger] playfield@[i]@ == orig[i],
        decreases y + u,
    {
        let is_full = row_is_full(&playfield[y]);
        if is_full {
            proof {
                if u == 0 {
                    assert(playfield@[y as int]@ == empty_row());
                    assert(playfield@[y as int]@[0] == 0);
                    assert(false);
                }
                assert(playfield@[y as int]@ == vis[u - 1]);
                if u - 1 == 0 {
                    lemma_surviving_rows_len(vis, 1);
                    assert(full_row_below_top(vis));
                }
                assert(row_cleared(vis, u - 1));
                assert(surviving_rows(vis, u - 1) == surviving_rows(vis, u));
            }
            let ghost before = playfield@;
            shift_rows_down(playfield, y);
            lines_cleared_this_turn = lines_cleared_this_turn + 1;
            proof {
                u = u - 1;
                let c = lines_cleared_this_turn as int;
                assert forall|i: int| 0 <= i < c implies #[trigger] playfield@[i]@ == empty_row() by {
                    if i > 0 {
                        assert(playfield@[i]@ == before[i - 1]@);
                    }
                }
                assert forall|i: int| c <= i < c + u implies #[trigger] playfield@[i]@ == vis[i - c] by {
                    assert(playfield@[i]@ == before[i - 1]@);
                }
                assert forall|i: int| c + u <= i < h implies #[trigger] playfield@[i]@ == surviving_rows(
                    vis,
                    u,
                )[i - c - u] by {
                    assert(playfield@[i]@ == before[i]@);
                }
                assert forall|i: int| h <= i < orig.len() implies #[trigger] playfield@[i]@ == orig[i] by {
                    assert(playfield@[i]@ == before[i]@);
                }
            }
        } else {
            proof {
                if u > 0 {
                    let c = lines_cleared_this_turn as int;
                    assert(playfield@[y as int]@ == vis[u - 1]);
                    assert(!row_cleared(vis, u - 1));
                    let t = surviving_rows(vis, u);
                    let s = surviving_rows(vis, u - 1);
                    assert(s == seq![vis[u - 1]] + t);
                    u = u - 1;
                    assert forall|i: int| c + u <= i < h implies #[trigger] playfield@[i]@
                        == surviving_rows(vis, u)[i - c - u] by {
                        if i > c + u {
                            assert(s[i - c - u] == t[i - c - u - 1]);
                        }
                    }
                }
            }
            y -= 1;
        }
    }
    proof {
        let c = lines_cleared_this_turn as int;
        let kept = surviving_rows(vis, 0);
        if u > 0 {
            assert(c == 0 && u == 1);
            lemma_surviving_rows_len(vis, 1);
            assert(!full_row_below_top(vis));
            assert(!row_cleared(vis, 0));
            assert(kept == seq![vis[0]] + surviving_rows(vis, 1));
        }
        let fin = rows_of(playfield@);
        let expected = after_clearing(orig);
        assert(kept.len() == h - c);
        assert forall|i: int| 0 <= i < fin.len() implies #[trigger] fin[i] == expected[i] by {
            if i < c {
            } else if i < h {
                if u > 0 {
                    if i == 0 {
                    } else {
                        assert(kept[i] == surviving_rows(vis, 1)[i - 1]);
                    }
                }
            } else {
            }
        }
        assert(fin =~= expected);
    }
    let score_gained: u32 = match lines_cleared_this_turn {
        1 => 100 * current_level,
        2 => 300 * current_level,
        3 => 500 * current_level,
        4 => 800 * current_level,
        _ => 0,
    };
    (lines_cleared_this_turn, score_gained)
}

/// A block of the piece made of `blocks`, with its pivot at (`px`, `py`),
/// lies on column `x`, row `y`.
pub open spec fn covers(blocks: Seq<BlockOffset>, px: int, py: int, x: int, y: int) -> bool {
    exists|i: int| 0 <= i < blocks.len() && #[trigger] block_at(blocks[i], px, py, x, y)
}

/// The block at offset `b` from the pivot (`px`, `py`) lies on (`x`, `y`).
pub open spec fn block_at(b: BlockOffset, px: int, py: int, x: int, y: int) -> bool {
    px + b.0 == x && py + b.1 == y
}

/// The rows with the value `v` written into every visible cell that a block
/// of the piece covers; blocks outside the visible playfield leave no mark.
pub open spec fn with_piece(rows: Seq<Seq<u8>>, blocks: Seq<BlockOffset>, px: int, py: int, v: u8) -> Seq<
    Seq<u8>,
> {
    Seq::new(
        rows.len(),
        |y: int|
            Seq::new(
                rows[y].len(),
                |x: int|
                    if 0 <= x < PLAYFIELD_WIDTH && 0 <= y < PLAYFIELD_HEIGHT && covers(
                        blocks,
                        px,
                        py,
                        x,
                        y,
                    ) {
                        v
                    } else {
                        rows[y][x]
                    },
            ),
    )
}

/// The rows after the piece `t` is written into them.
pub open spec fn locked_rows(rows: Seq<Seq<u8>>, t: Tetromino) -> Seq<Seq<u8>> {
    with_piece(rows, t.blocks@, t.x as int, t.y as int, t.tetromino_type.cell_value())
}

/// Write the blocks of `tetromino` into the playfield.
fn place_blocks(tetromino: &Tetromino, playfield: &mut Vec<Vec<u8>>)
    requires
        playfield_shaped(rows_of(old(playfield)@)),
        offsets_fit_i32(tetromino.blocks@, tetromino.x as int, tetromino.y as int),
    ensures
        rows_of(final(playfield)@) == locked_rows(rows_of(old(playfield)@), *tetromino),
{
    let ghost orig = rows_of(playfield@);
    let ghost blocks = tetromino.blocks@;
    let ghost px = tetromino.x as int;
    let ghost py = tetromino.y as int;
    let piece_value = tetromino.tetromino_type.value();
    let mut i: usize = 0;
    proof {
        assert(rows_of(playfield@) =~= with_piece(orig, blocks.take(0), px, py, piece_value)) by {
            assert forall|y: int| 0 <= y < orig.len() implies #[trigger] rows_of(playfield@)[y]
                =~= with_piece(orig, blocks.take(0), px, py, piece_value)[y] by {}
        }
    }
    while i < tetromino.blocks.len()
        invariant
            0 <= i <= blocks.len(),
            blocks == tetromino.blocks@,
            px == tetromino.x as int,
            py == tetromino.y as int,
            piece_value == tetromino.tetromino_type.cell_value(),
            playfield_shaped(orig),
            offsets_fit_i32(blocks, px, py),
            rows_of(playfield@) == with_piece(orig, blocks.take(i as int), px, py, piece_value),
        decreases blocks.len() - i,
    {
        let (block_dx, block_dy) = tetromino.blocks[i];
        assert(blocks[i as int] == (block_dx, block_dy));
        let block_abs_x = tetromino.x + block_dx;
        let block_abs_y = tetromino.y + block_dy;
        let ghost before = rows_of(playfield@);
        if block_abs_x >= 0 && block_abs_x < PLAYFIELD_WIDTH as i32 && block_abs_y >= 0
            && block_abs_y < PLAYFIELD_HEIGHT as i32 {
            assert(before.len() == orig.len());
            assert(before[block_abs_y as int] == playfield@[block_abs_y as int]@);
            assert(before[block_abs_y as int].len() == orig[block_abs_y as int].len());
            playfield[block_abs_y as usize][block_abs_x as usize] = piece_value;
        }
        proof {
            let next = blocks.take(i + 1);
            let prev = blocks.take(i as int);
            assert forall|x: int, y: int| #[trigger] covers(next, px, py, x, y) <==> (covers(
                prev,
                px,
                py,
                x,
                y,
            ) || block_at(blocks[i as int], px, py, x, y)) by {
                if covers(next, px, py, x, y) {
                    let k = choose|k: int| 0 <= k < next.len() && #[trigger] block_at(next[k], px, py, x, y);
                    if k < i {
                        assert(prev[k] == next[k]);
                    }
                }
                if covers(prev, px, py, x, y) {
                    let k = choose|k: int| 0 <= k < prev.len() && #[trigger] block_at(prev[k], px, py, x, y);
                    assert(prev[k] == next[k]);
                }
                if block_at(blocks[i as int], px, py, x, y) {
                    assert(next[i as int] == blocks[i as int]);
                }
            }
            let after = rows_of(playfield@);
            let target = with_piece(orig, next, px, py, piece_value);
            assert(after.len() == orig.len());
            let ax = block_abs_x as int;
            let ay = block_abs_y as int;
            let wrote = 0 <= ax < PLAYFIELD_WIDTH && 0 <= ay < PLAYFIELD_HEIGHT;
            assert(block_at(blocks[i as int], px, py, ax, ay));
            assert forall|y: int| 0 <= y < orig.len() implies #[trigger] after[y] =~= target[y] by {
                if wrote && y == ay {
                    assert(after[y] == before[y].update(ax, piece_value));
                    assert forall|x: int| 0 <= x < after[y].len() implies after[y][x] == target[y][x] by {
                        if x == ax {
                            assert(covers(next, px, py, x, y));
                        }
                    }
                } else {
                    assert(after[y] == before[y]);
                    assert forall|x: int| 0 <= x < after[y].len() implies after[y][x] == target[y][x] by {
                        if 0 <= x < PLAYFIELD_WIDTH && 0 <= y < PLAYFIELD_HEIGHT {
                            assert(!block_at(blocks[i as int], px, py, x, y));
                        }
                    }
                }
            }
            assert(after =~= target);
        }
        i += 1;
    }
    proof {
        assert(blocks.take(blocks.len() as int) =~= blocks);
    }
}

/// The playfield stays fully shaped when a piece is written into it.
pub proof fn lemma_with_piece_keeps_shape(rows: Seq<Seq<u8>>, blocks: Seq<BlockOffset>, px: int, py: int, v: u8)
    requires
        playfield_shaped(rows),
    ensures
        playfield_shaped(with_piece(rows, blocks, px, py, v)),
        lines_cleared(with_piece(rows, blocks, px, py, v)) >= 0,
{
    let w = with_piece(rows, blocks, px, py, v);
    assert forall|r: int| 0 <= r < PLAYFIELD_HEIGHT implies #[trigger] w[r].len() >= PLAYFIELD_WIDTH by {}
    lemma_surviving_rows_len(w.take(PLAYFIELD_HEIGHT as int), 0);
}

/// Lock `tetromino` into the playfield, clear the full lines, add the points
/// they earn on `current_level` to `score` and their number to
/// `total_lines_cleared`, and set `game_level` to one more than a tenth of
/// the total lines (rounded down).
pub fn lock_piece(
    tetromino: &Tetromino,
    playfield: &mut Vec<Vec<u8>>,
    current_level: u32,
    score: &mut u32,
    total_lines_cleared: &mut u32,
    game_level: &mut u32,
)
    requires
        playfield_shaped(rows_of(old(playfield)@)),
        offsets_fit_i32(tetromino.blocks@, tetromino.x as int, tetromino.y as int),
        *old(score) + line_score(
            lines_cleared(locked_rows(rows_of(old(playfield)@), *tetromino)),
            current_level as int,
        ) <= u32::MAX,
        *old(total_lines_cleared) + lines_cleared(locked_rows(rows_of(old(playfield)@), *tetromino))
            <= u32::MAX,
    ensures
        rows_of(final(playfield)@) == after_clearing(
            locked_rows(rows_of(old(playfield)@), *tetromino),
        ),
        *final(score) == *old(score) + line_score(
            lines_cleared(locked_rows(rows_of(old(playfield)@), *tetromino)),
            current_level as int,
        ),
        *final(total_lines_cleared) == *old(total_lines_cleared) + lines_cleared(
            locked_rows(rows_of(old(playfield)@), *tetromino),
        ),
        *final(game_level) == *final(total_lines_cleared) / 10 + 1,
{
    proof {
        lemma_with_piece_keeps_shape(
            rows_of(playfield@),
            tetromino.blocks@,
            tetromino.x as int,
            tetromino.y as int,
            tetromino.tetromino_type.cell_value(),
        );
    }
    place_blocks(tetromino, playfield);
    let (lines_cleared_now, score_gained_from_lines) = check_and_clear_lines(playfield, current_level);
    *score = *score + score_gained_from_lines;
    *total_lines_cleared = *total_lines_cleared + lines_cleared_now;
    *game_level = *total_lines_cleared / 10 + 1;
}

/// How many rows a piece made of `blocks`, with its pivot at (`x`, `y`), can
/// fall before the row below would make it collide, looking at most `fuel`
/// rows down.
pub open spec fn fall_within(blocks: Seq<BlockOffset>, rows: Seq<Seq<u8>>, x: int, y: int, fuel: nat) -> int
    decreases fuel,
{
    if fuel == 0 || collides(blocks, rows, x, y + 1) {
        0
    } else {
        1 + fall_within(blocks, rows, x, y + 1, (fuel - 1) as nat)
    }
}

/// How many rows a piece at (`x`, `y`) falls before it lands: it never needs
/// to look past the floor.
pub open spec fn fall_distance(blocks: Seq<BlockOffset>, rows: Seq<Seq<u8>>, x: int, y: int) -> int {
    fall_within(blocks, rows, x, y, (PLAYFIELD_HEIGHT - y) as nat)
}

/// A piece that has a block on its pivot collides at and below the floor.
pub proof fn lemma_pivot_block_bounds(blocks: Seq<BlockOffset>, rows: Seq<Seq<u8>>, x: int, y: int)
    requires
        blocks.len() > 0,
        blocks[0] == (0i32, 0i32),
    ensures
        !collides(blocks, rows, x, y) ==> 0 <= x < PLAYFIELD_WIDTH && y < PLAYFIELD_HEIGHT,
{
    if !(0 <= x < PLAYFIELD_WIDTH && y < PLAYFIELD_HEIGHT) {
        assert(block_blocked(rows, blocks[0], x, y));
    }
}

/// The fall distance of a piece with a block on its pivot, resting at a free
/// place, is where it lands: every row it passes is free and the next one is not.
pub proof fn lemma_fall_distance(blocks: Seq<BlockOffset>, rows: Seq<Seq<u8>>, x: int, y: int)
    requires
        blocks.len() > 0,
        blocks[0] == (0i32, 0i32),
        y < PLAYFIELD_HEIGHT,
    ensures
        0 <= fall_distance(blocks, rows, x, y) < PLAYFIELD_HEIGHT - y,
        collides(blocks, rows, x, y + fall_distance(blocks, rows, x, y) + 1),
        forall|j: int|
            1 <= j <= fall_distance(blocks, rows, x, y) ==> !#[trigger] collides(blocks, rows, x, y + j),
    decreases PLAYFIELD_HEIGHT - y,
{
    let fuel = (PLAYFIELD_HEIGHT - y) as nat;
    if !collides(blocks, rows, x, y + 1) {
        lemma_pivot_block_bounds(blocks, rows, x, y + 1);
        lemma_fall_distance(blocks, rows, x, y + 1);
        assert(fall_distance(blocks, rows, x, y) == 1 + fall_distance(blocks, rows, x, y + 1));
        assert forall|j: int|
            1 <= j <= fall_distance(blocks, rows, x, y) implies !#[trigger] collides(blocks, rows, x, y + j) by {
            if j > 1 {
                assert(y + j == (y + 1) + (j - 1));
            }
        }
    }
}

/// The playfield has exactly `PLAYFIELD_HEIGHT` rows of `PLAYFIELD_WIDTH`
/// cells, each empty or holding the value of a kind of piece.
pub open spec fn playfield_exact(rows: Seq<Seq<u8>>) -> bool {
    &&& rows.len() == PLAYFIELD_HEIGHT
    &&& forall|r: int| 0 <= r < PLAYFIELD_HEIGHT ==> #[trigger] rows[r].len() == PLAYFIELD_WIDTH
    &&& forall|r: int, c: int|
        0 <= r < PLAYFIELD_HEIGHT && 0 <= c < PLAYFIELD_WIDTH ==> #[trigger] rows[r][c] <= 7
}

/// Every surviving row is one of the rows it was selected from.
pub proof fn lemma_surviving_rows_members(rows: Seq<Seq<u8>>, lo: int)
    requires
        0 <= lo <= rows.len(),
    ensures
        forall|k: int|
            0 <= k < surviving_rows(rows, lo).len() ==> exists|j: int|
                lo <= j < rows.len() && #[trigger] surviving_rows(rows, lo)[k] == rows[j],
    decreases rows.len() - lo,
{
    if lo < rows.len() {
        lemma_surviving_rows_members(rows, lo + 1);
        let s = surviving_rows(rows, lo);
        let t = surviving_rows(rows, lo + 1);
        if row_cleared(rows, lo) {
            assert forall|k: int| 0 <= k < s.len() implies exists|j: int|
                lo <= j < rows.len() && #[trigger] s[k] == rows[j] by {
                let j = choose|j: int| lo + 1 <= j < rows.len() && #[trigger] t[k] == rows[j];
            }
        } else {
            assert(s == seq![rows[lo]] + t);
            assert forall|k: int| 0 <= k < s.len() implies exists|j: int|
                lo <= j < rows.len() && #[trigger] s[k] == rows[j] by {
                if k == 0 {
                    assert(s[0] == rows[lo]);
                } else {
                    assert(s[k] == t[k - 1]);
                    let j = choose|j: int| lo + 1 <= j < rows.len() && #[trigger] t[k - 1] == rows[j];
                }
            }
        }
    }
}

/// Locking a piece and clearing lines keeps a playfield of exact size whose
/// cells hold kinds of pieces.
pub proof fn lemma_lock_keeps_exact(rows: Seq<Seq<u8>>, blocks: Seq<BlockOffset>, px: int, py: int, v: u8)
    requires
        playfield_exact(rows),
        1 <= v <= 7,
    ensures
        playfield_exact(with_piece(rows, blocks, px, py, v)),
        playfield_exact(after_clearing(with_piece(rows, blocks, px, py, v))),
        0 <= lines_cleared(with_piece(rows, blocks, px, py, v)) <= PLAYFIELD_HEIGHT,
{
    let w = with_piece(rows, blocks, px, py, v);
    let h = PLAYFIELD_HEIGHT as int;
    assert forall|r: int, c: int| 0 <= r < h && 0 <= c < PLAYFIELD_WIDTH implies #[trigger] w[r][c] <= 7 by {}
    assert(playfield_exact(w));
    assert(w.take(h) =~= w);
    lemma_surviving_rows_len(w, 0);
    lemma_surviving_rows_members(w, 0);
    let kept = surviving_rows(w, 0);
    let c = h - kept.len();
    let a = after_clearing(w);
    assert(w.skip(h) =~= Seq::<Seq<u8>>::empty());
    assert(a.len() == h);
    assert forall|r: int| 0 <= r < h implies #[trigger] a[r].len() == PLAYFIELD_WIDTH && (forall|col: int|
        0 <= col < PLAYFIELD_WIDTH ==> a[r][col] <= 7) by {
        if r < c {
            assert(a[r] == empty_row());
        } else {
            assert(a[r] == kept[r - c]);
            let j = choose|j: int| 0 <= j < w.len() && #[trigger] kept[r - c] == w[j];
        }
    }
}

/// A line clear keeps the number of rows, and removes between none and all
/// of the visible ones.
pub proof fn lemma_clearing_keeps_row_count(rows: Seq<Seq<u8>>)
    requires
        rows.len() >= PLAYFIELD_HEIGHT,
    ensures
        after_clearing(rows).len() == rows.len(),
        0 <= lines_cleared(rows) <= PLAYFIELD_HEIGHT,
{
    lemma_surviving_rows_len(rows.take(PLAYFIELD_HEIGHT as int), 0);
}

/// Without a full visible row, a line clear removes nothing and leaves the
/// playfield as it was.
pub proof fn lemma_no_full_row_no_change(rows: Seq<Seq<u8>>)
    requires
        rows.len() >= PLAYFIELD_HEIGHT,
        forall|r: int| 0 <= r < PLAYFIELD_HEIGHT ==> !#[trigger] row_full(rows[r]),
    ensures
        lines_cleared(rows) == 0,
        after_clearing(rows) == rows,
{
    let vis = rows.take(PLAYFIELD_HEIGHT as int);
    lemma_surviving_rows_all_kept(vis, 0);
    assert(after_clearing(rows) =~= rows);
}

/// When no row from `lo` on is full, every one of them survives.
proof fn lemma_surviving_rows_all_kept(rows: Seq<Seq<u8>>, lo: int)
    requires
        0 <= lo <= rows.len(),
        forall|r: int| 0 <= r < rows.len() ==> !#[trigger] row_full(rows[r]),
    ensures
        surviving_rows(rows, lo) == rows.skip(lo),
    decreases rows.len() - lo,
{
    if lo < rows.len() {
        lemma_surviving_rows_all_kept(rows, lo + 1);
        assert(!row_full(rows[lo]));
        assert(surviving_rows(rows, lo) =~= rows.skip(lo));
    } else {
        assert(rows.skip(lo) =~= Seq::<Seq<u8>>::empty());
    }
}

/// A row of empty cells is never full, so it is never cleared.
pub proof fn lemma_empty_row_not_full()
    ensures
        !row_full(empty_row()),
{
    assert(empty_row()[0] == 0);
}

} // verus!
