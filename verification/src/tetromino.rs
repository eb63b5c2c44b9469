//! Creating pieces at their spawn position and rotating them with wall kicks.
use vstd::prelude::*;
use rand::Rng;
use crate::pieces::{
    BlockOffset, Tetromino, TetrominoType, get_kick_offsets, get_rotated_shape, kick_offsets,
    lemma_kick_offsets_bounded, lemma_shape_cells_bounded, shape_cells,
};
use crate::playfield::{check_collision, collides, playfield_shaped, rows_of};

verus! {

/// A number drawn uniformly from 1 to 7 with `rand::thread_rng().gen_range(1..=7)`.
/// What is stated of it is only the range that rand documents for an inclusive
/// range; the value itself depends on the thread's random generator.
#[verifier::external_body]
fn random_kind_index() -> (index: i32)
    ensures
        1 <= index <= 7,
{
    rand::thread_rng().gen_range(1..=7)
}

/// A kind of piece chosen at random.
pub fn random_tetromino_type() -> (t: TetrominoType) {
    let index = random_kind_index();
    TetrominoType::from_index(index)
}

/// The row on which the pivot of a new piece of kind `t` appears: one row
/// down for the T, S, Z and I pieces (whose layouts reach one row above the
/// pivot), the top row otherwise.
pub open spec fn spawn_row(t: TetrominoType) -> i32 {
    match t {
        TetrominoType::T | TetrominoType::S | TetrominoType::Z | TetrominoType::I => 1,
        _ => 0,
    }
}

/// The column on which the pivot of a new piece appears, on a playfield
/// `playfield_width` columns wide (the width taken as an `i32`).
pub open spec fn spawn_column(playfield_width: usize) -> int {
    let w = (playfield_width as i32) as int;
    // halving rounds toward zero
    if w >= 0 {
        w / 2 - 1
    } else {
        -((-w) / 2) - 1
    }
}

/// A new piece of kind `t` is in its first rotation state at its spawn position.
pub open spec fn is_spawned(p: Tetromino, t: TetrominoType, playfield_width: usize) -> bool {
    &&& p.tetromino_type == t
    &&& p.rotation_index == 0
    &&& p.blocks@ == shape_cells(t, 0)
    &&& p.x as int == spawn_column(playfield_width)
    &&& p.y == spawn_row(t)
}

/// The row on which a new piece of kind `t` appears.
pub fn spawn_y(t: TetrominoType) -> (y: i32)
    ensures
        y == spawn_row(t),
{
    match t {
        TetrominoType::T | TetrominoType::S | TetrominoType::Z | TetrominoType::I => 1,
        _ => 0,
    }
}

/// The column on which a new piece appears on a playfield `playfield_width` wide.
pub fn spawn_x(playfield_width: usize) -> (x: i32)
    ensures
        x as int == spawn_column(playfield_width),
{
    let w = playfield_width as i32;
    w / 2 - 1
}

/// A new piece of kind `t` at its spawn position.
pub fn new_tetromino(t: TetrominoType, playfield_width: usize) -> (p: Tetromino)
    ensures
        is_spawned(p, t, playfield_width),
{
    let initial_rotation_index: usize = 0;
    let initial_blocks = get_rotated_shape(t, initial_rotation_index);
    Tetromino {
        tetromino_type: t,
        rotation_index: initial_rotation_index,
        blocks: initial_blocks,
        x: spawn_x(playfield_width),
        y: spawn_y(t),
    }
}

/// A new piece of a kind chosen at random, at its spawn position.
pub fn spawn_tetromino(playfield_width: usize) -> (p: Tetromino)
    ensures
        is_spawned(p, p.tetromino_type, playfield_width),
{
    let random_type = random_tetromino_type();
    new_tetromino(random_type, playfield_width)
}

/// The rotation state reached by one turn from state `r`.
pub open spec fn target_rotation(r: int, clockwise: bool) -> int {
    if clockwise {
        (r + 1) % 4
    } else {
        (r + 3) % 4
    }
}

/// The index of the first kick, from index `k` on, that moves a piece made of
/// `blocks` with its pivot at (`x`, `y`) to a place where it does not collide.
pub open spec fn first_free_kick(
    blocks: Seq<BlockOffset>,
    rows: Seq<Seq<u8>>,
    x: int,
    y: int,
    kicks: Seq<BlockOffset>,
    k: int,
) -> Option<int>
    decreases kicks.len() - k,
{
    if k < 0 || k >= kicks.len() {
        None
    } else if !collides(blocks, rows, x + kicks[k].0, y + kicks[k].1) {
        Some(k)
    } else {
        first_free_kick(blocks, rows, x, y, kicks, k + 1)
    }
}

/// The kick chosen when rotating piece `t` on `rows`, if any fits.
pub open spec fn chosen_kick(t: Tetromino, rows: Seq<Seq<u8>>, clockwise: bool) -> Option<int> {
    let target = target_rotation(t.rotation_index as int, clockwise);
    first_free_kick(
        shape_cells(t.tetromino_type, target),
        rows,
        t.x as int,
        t.y as int,
        kick_offsets(t.tetromino_type, clockwise, t.rotation_index as int),
        0,
    )
}

/// The piece is far enough from the edges of the `i32` range that every kick
/// and every block of a rotated layout has representable coordinates.
pub open spec fn rotation_in_range(t: Tetromino) -> bool {
    &&& t.rotation_index < 4
    &&& i32::MIN + 3 <= t.x <= i32::MAX - 4
    &&& i32::MIN + 3 <= t.y <= i32::MAX - 4
}

/// The first free kick found from index `k` on is an index of the list at or after `k`.
pub proof fn lemma_first_free_kick_range(
    blocks: Seq<BlockOffset>,
    rows: Seq<Seq<u8>>,
    x: int,
    y: int,
    kicks: Seq<BlockOffset>,
    k: int,
)
    ensures
        first_free_kick(blocks, rows, x, y, kicks, k) matches Some(found) ==> k <= found < kicks.len(),
    decreases kicks.len() - k,
{
    if 0 <= k < kicks.len() {
        lemma_first_free_kick_range(blocks, rows, x, y, kicks, k + 1);
    }
}

/// Kicks before the `k`-th that all collide do not change the first free one.
proof fn lemma_first_free_kick_skip(
    blocks: Seq<BlockOffset>,
    rows: Seq<Seq<u8>>,
    x: int,
    y: int,
    kicks: Seq<BlockOffset>,
    lo: int,
    k: int,
)
    requires
        0 <= lo <= k,
        forall|j: int| lo <= j < k ==> collides(blocks, rows, x + #[trigger] kicks[j].0, y + kicks[j].1),
        k <= kicks.len(),
    ensures
        first_free_kick(blocks, rows, x, y, kicks, lo) == first_free_kick(blocks, rows, x, y, kicks, k),
    decreases k - lo,
{
    if lo < k {
        let _ = kicks[lo];
        lemma_first_free_kick_skip(blocks, rows, x, y, kicks, lo + 1, k);
    }
}

/// Try to turn the piece once (clockwise when `clockwise`): the wall kicks of
/// the turn are tried in order, and the first one that puts the rotated layout
/// on free cells gives the new layout, pivot and rotation state. The O piece
/// never turns, and no result comes back when every kick collides.
pub fn attempt_rotation(tetromino: &Tetromino, playfield: &Vec<Vec<u8>>, clockwise: bool) -> (result:
    Option<(Vec<BlockOffset>, i32, i32, usize)>)
    requires
        playfield_shaped(rows_of(playfield@)),
        tetromino.tetromino_type != TetrominoType::O ==> rotation_in_range(*tetromino),
    ensures
        result is None <==> (tetromino.tetromino_type == TetrominoType::O || chosen_kick(
            *tetromino,
            rows_of(playfield@),
            clockwise,
        ) is None),
        result matches Some((blocks, new_x, new_y, new_rotation)) ==> {
            let k = chosen_kick(*tetromino, rows_of(playfield@), clockwise)->0;
            let kick = kick_offsets(
                tetromino.tetromino_type,
                clockwise,
                tetromino.rotation_index as int,
            )[k];
            &&& new_rotation == target_rotation(tetromino.rotation_index as int, clockwise)
            &&& blocks@ == shape_cells(tetromino.tetromino_type, new_rotation as int)
            &&& new_x == tetromino.x + kick.0
            &&& new_y == tetromino.y + kick.1
            &&& !collides(blocks@, rows_of(playfield@), new_x as int, new_y as int)
        },
{
    if tetromino.tetromino_type == TetrominoType::O {
        return None;
    }
    let current_rotation_index = tetromino.rotation_index;
    let target_rotation_index = if clockwise {
        (current_rotation_index + 1) % 4
    } else {
        (current_rotation_index + 3) % 4
    };
    let target_shape_blocks = get_rotated_shape(tetromino.tetromino_type, target_rotation_index);
    let relevant_kicks = get_kick_offsets(tetromino.tetromino_type, clockwise, current_rotation_index);
    let ghost rows = rows_of(playfield@);
    let ghost shape = target_shape_blocks@;
    let ghost kicks = relevant_kicks@;
    proof {
        assert(target_rotation_index as int == target_rotation(current_rotation_index as int, clockwise));
        lemma_kick_offsets_bounded(tetromino.tetromino_type, clockwise, current_rotation_index as int);
        lemma_shape_cells_bounded(tetromino.tetromino_type, target_rotation_index as int);
        assert(target_rotation_index % 4 == target_rotation_index);
    }
    let mut kick_test_idx: usize = 0;
    while kick_test_idx < relevant_kicks.len()
        invariant
            0 <= kick_test_idx <= kicks.len(),
            kicks == relevant_kicks@,
            kicks.len() == 5,
            current_rotation_index == tetromino.rotation_index,
            tetromino.tetromino_type != TetrominoType::O,
            target_rotation_index as int == target_rotation(current_rotation_index as int, clockwise),
            shape == shape_cells(tetromino.tetromino_type, target_rotation_index as int),
            kicks == kick_offsets(tetromino.tetromino_type, clockwise, current_rotation_index as int),
            shape == target_shape_blocks@,
            shape.len() == 4,
            rows == rows_of(playfield@),
            playfield_shaped(rows),
            rotation_in_range(*tetromino),
            forall|k: int|
                0 <= k < 5 ==> -2 <= (#[trigger] kicks[k]).0 <= 2 && -2 <= kicks[k].1 <= 2,
            forall|k: int| 0 <= k < 4 ==> -1 <= (#[trigger] shape[k]).0 <= 2 && -1 <= shape[k].1 <= 2,
            forall|j: int|
                0 <= j < kick_test_idx ==> collides(
                    shape,
                    rows,
                    tetromino.x + #[trigger] kicks[j].0,
                    tetromino.y + kicks[j].1,
                ),
        decreases kicks.len() - kick_test_idx,
    {
        let kick = relevant_kicks[kick_test_idx];
        let new_x = tetromino.x + kick.0;
        let new_y = tetromino.y + kick.1;
        if !check_collision(target_shape_blocks.as_slice(), playfield, new_x, new_y) {
            proof {
                lemma_first_free_kick_skip(
                    shape,
                    rows,
                    tetromino.x as int,
                    tetromino.y as int,
                    kicks,
                    0,
                    kick_test_idx as int,
                );
                assert(kick == kicks[kick_test_idx as int]);
                assert(first_free_kick(shape, rows, tetromino.x as int, tetromino.y as int, kicks, kick_test_idx as int)
                    == Some(kick_test_idx as int));
                assert(chosen_kick(*tetromino, rows, clockwise) == first_free_kick(
                    shape, rows, tetromino.x as int, tetromino.y as int, kicks, 0));
                assert(target_rotation_index as int == target_rotation(current_rotation_index as int, clockwise));
            }
            return Some((target_shape_blocks, new_x, new_y, target_rotation_index));
        }
        kick_test_idx += 1;
    }
    proof {
        lemma_first_free_kick_skip(shape, rows, tetromino.x as int, tetromino.y as int, kicks, 0, 5);
    }
    None
}

/// A turn one way followed by a turn the other way returns to the first
/// rotation state, and four turns the same way come back to it too.
pub proof fn lemma_turns_return(r: int, clockwise: bool)
    requires
        0 <= r < 4,
    ensures
        target_rotation(target_rotation(r, clockwise), !clockwise) == r,
        target_rotation(
            target_rotation(target_rotation(target_rotation(r, clockwise), clockwise), clockwise),
            clockwise,
        ) == r,
        0 <= target_rotation(r, clockwise) < 4,
{
}

} // verus!
