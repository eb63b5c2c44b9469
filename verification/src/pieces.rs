//! The seven tetrominoes: their kinds, their block layouts in each of the
//! four rotation states, the wall-kick offsets tried when rotating, and the
//! colours they are drawn in.
use vstd::prelude::*;

verus! {

/// The kind of a falling piece.
#[derive(Debug, Clone, Copy, PartialEq, Eq, Structural)]
pub enum TetrominoType {
    I,
    O,
    T,
    S,
    Z,
    J,
    L,
}

/// Offset of one block relative to the pivot of its piece, as (dx, dy).
pub type BlockOffset = (i32, i32);

impl TetrominoType {
    /// The number stored in a playfield cell for a locked block of this kind (1 to 7).
    pub open spec fn cell_value(self) -> u8 {
        match self {
            TetrominoType::I => 1,
            TetrominoType::O => 2,
            TetrominoType::T => 3,
            TetrominoType::S => 4,
            TetrominoType::Z => 5,
            TetrominoType::J => 6,
            TetrominoType::L => 7,
        }
    }

    /// The kind whose cell value is `index`; every index outside 1 to 6 gives `L`.
    pub open spec fn kind_of_index(index: int) -> TetrominoType {
        if index == 1 {
            TetrominoType::I
        } else if index == 2 {
            TetrominoType::O
        } else if index == 3 {
            TetrominoType::T
        } else if index == 4 {
            TetrominoType::S
        } else if index == 5 {
            TetrominoType::Z
        } else if index == 6 {
            TetrominoType::J
        } else {
            TetrominoType::L
        }
    }

    /// Cell value of this kind.
    pub fn value(self) -> (v: u8)
        ensures
            v == self.cell_value(),
            1 <= v <= 7,
    {
        match self {
            TetrominoType::I => 1,
            TetrominoType::O => 2,
            TetrominoType::T => 3,
            TetrominoType::S => 4,
            TetrominoType::Z => 5,
            TetrominoType::J => 6,
            TetrominoType::L => 7,
        }
    }

    /// The kind numbered `index` (1 = I, 2 = O, ... 7 = L); any other number gives `L`.
    pub fn from_index(index: i32) -> (t: TetrominoType)
        ensures
            t == Self::kind_of_index(index as int),
    {
        match index {
            1 => TetrominoType::I,
            2 => TetrominoType::O,
            3 => TetrominoType::T,
            4 => TetrominoType::S,
            5 => TetrominoType::Z,
            6 => TetrominoType::J,
            _ => TetrominoType::L,
        }
    }
}

/// The cell value of a kind leads back to that kind.
pub proof fn lemma_cell_value_round_trip(t: TetrominoType)
    ensures
        TetrominoType::kind_of_index(t.cell_value() as int) == t,
        1 <= t.cell_value() <= 7,
{
}

/// Block layout of kind `t` in rotation state `r` (0 to 3; 3 is also used
/// for any other number).
pub open spec fn shape_cells(t: TetrominoType, r: int) -> Seq<BlockOffset> {
    match t {
        TetrominoType::I => if r == 0 || r == 2 {
            seq![(0i32, 0i32), (-1i32, 0), (1, 0), (2, 0)]
        } else {
            seq![(0i32, 0i32), (0, -1i32), (0, 1), (0, 2)]
        },
        TetrominoType::O => seq![(0i32, 0i32), (1, 0), (0, 1), (1, 1)],
        TetrominoType::T => if r == 0 {
            seq![(0i32, 0i32), (-1i32, 0), (1, 0), (0, -1i32)]
        } else if r == 1 {
            seq![(0i32, 0i32), (0, -1i32), (0, 1), (1, 0)]
        } else if r == 2 {
            seq![(0i32, 0i32), (-1i32, 0), (1, 0), (0, 1)]
        } else {
            seq![(0i32, 0i32), (0, -1i32), (0, 1), (-1i32, 0)]
        },
        TetrominoType::S => if r == 0 || r == 2 {
            seq![(0i32, 0i32), (-1i32, 0), (0, -1i32), (1, -1i32)]
        } else {
            seq![(0i32, 0i32), (0, 1), (1, 0), (1, -1i32)]
        },
        TetrominoType::Z => if r == 0 || r == 2 {
            seq![(0i32, 0i32), (1, 0), (0, -1i32), (-1i32, -1i32)]
        } else {
            seq![(0i32, 0i32), (0, -1i32), (1, 0), (1, 1)]
        },
        TetrominoType::J => if r == 0 {
            seq![(0i32, 0i32), (-1i32, 0), (1, 0), (1, -1i32)]
        } else if r == 1 {
            seq![(0i32, 0i32), (0, -1i32), (0, 1), (1, 1)]
        } else if r == 2 {
            seq![(0i32, 0i32), (-1i32, 0), (1, 0), (-1i32, 1)]
        } else {
            seq![(0i32, 0i32), (0, -1i32), (0, 1), (-1i32, -1i32)]
        },
        TetrominoType::L => if r == 0 {
            seq![(0i32, 0i32), (-1i32, 0), (1, 0), (-1i32, -1i32)]
        } else if r == 1 {
            seq![(0i32, 0i32), (0, -1i32), (0, 1), (1, -1i32)]
        } else if r == 2 {
            seq![(0i32, 0i32), (-1i32, 0), (1, 0), (1, 1)]
        } else {
            seq![(0i32, 0i32), (0, -1i32), (0, 1), (-1i32, 1)]
        },
    }
}

/// Every layout has four blocks, each within one column/row left or up and
/// two right or down of the pivot.
pub proof fn lemma_shape_cells_bounded(t: TetrominoType, r: int)
    ensures
        shape_cells(t, r).len() == 4,
        shape_cells(t, r)[0] == (0i32, 0i32),
        forall|k: int|
            0 <= k < 4 ==> -1 <= (#[trigger] shape_cells(t, r)[k]).0 <= 2 && -1 <= shape_cells(
                t,
                r,
            )[k].1 <= 2,
{
}

/// The layout of `tetromino_type` in rotation state `rotation_index % 4`.
pub fn get_rotated_shape(tetromino_type: TetrominoType, rotation_index: usize) -> (shape: Vec<
    BlockOffset,
>)
    ensures
        shape@ == shape_cells(tetromino_type, (rotation_index % 4) as int),
{
    let r = rotation_index % 4;
    match tetromino_type {
        TetrominoType::I => if r == 0 || r == 2 {
            vec![(0, 0), (-1, 0), (1, 0), (2, 0)]
        } else {
            vec![(0, 0), (0, -1), (0, 1), (0, 2)]
        },
        TetrominoType::O => vec![(0, 0), (1, 0), (0, 1), (1, 1)],
        TetrominoType::T => if r == 0 {
            vec![(0, 0), (-1, 0), (1, 0), (0, -1)]
        } else if r == 1 {
            vec![(0, 0), (0, -1), (0, 1), (1, 0)]
        } else if r == 2 {
            vec![(0, 0), (-1, 0), (1, 0), (0, 1)]
        } else {
            vec![(0, 0), (0, -1), (0, 1), (-1, 0)]
        },
        TetrominoType::S => if r == 0 || r == 2 {
            vec![(0, 0), (-1, 0), (0, -1), (1, -1)]
        } else {
            vec![(0, 0), (0, 1), (1, 0), (1, -1)]
        },
        TetrominoType::Z => if r == 0 || r == 2 {
            vec![(0, 0), (1, 0), (0, -1), (-1, -1)]
        } else {
            vec![(0, 0), (0, -1), (1, 0), (1, 1)]
        },
        TetrominoType::J => if r == 0 {
            vec![(0, 0), (-1, 0), (1, 0), (1, -1)]
        } else if r == 1 {
            vec![(0, 0), (0, -1), (0, 1), (1, 1)]
        } else if r == 2 {
            vec![(0, 0), (-1, 0), (1, 0), (-1, 1)]
        } else {
            vec![(0, 0), (0, -1), (0, 1), (-1, -1)]
        },
        TetrominoType::L => if r == 0 {
            vec![(0, 0), (-1, 0), (1, 0), (-1, -1)]
        } else if r == 1 {
            vec![(0, 0), (0, -1), (0, 1), (1, -1)]
        } else if r == 2 {
            vec![(0, 0), (-1, 0), (1, 0), (1, 1)]
        } else {
            vec![(0, 0), (0, -1), (0, 1), (-1, 1)]
        },
    }
}

/// Wall-kick offsets for the J, L, S, T and Z pieces, tried in order when
/// rotating out of state `from` (clockwise when `clockwise`).
pub open spec fn jlstz_kicks(clockwise: bool, from: int) -> Seq<BlockOffset> {
    if clockwise {
        if from == 0 {
            seq![(0i32, 0i32), (-1i32, 0), (-1i32, -1i32), (0, 2), (-1i32, 2)]
        } else if from == 1 {
            seq![(0i32, 0i32), (1, 0), (1, 1), (0, -2i32), (1, -2i32)]
        } else if from == 2 {
            seq![(0i32, 0i32), (1, 0), (1, -1i32), (0, 2), (1, 2)]
        } else {
            seq![(0i32, 0i32), (-1i32, 0), (-1i32, 1), (0, -2i32), (-1i32, -2i32)]
        }
    } else {
        if from == 0 {
            seq![(0i32, 0i32), (1, 0), (1, -1i32), (0, 2), (1, 2)]
        } else if from == 1 {
            seq![(0i32, 0i32), (1, 0), (1, 1), (0, -2i32), (1, -2i32)]
        } else if from == 2 {
            seq![(0i32, 0i32), (-1i32, 0), (-1i32, -1i32), (0, 2), (-1i32, 2)]
        } else {
            seq![(0i32, 0i32), (-1i32, 0), (-1i32, 1), (0, -2i32), (-1i32, -2i32)]
        }
    }
}

/// Wall-kick offsets for the I piece, tried in order when rotating out of
/// state `from` (clockwise when `clockwise`).
pub open spec fn i_kicks(clockwise: bool, from: int) -> Seq<BlockOffset> {
    if clockwise {
        if from == 0 {
            seq![(0i32, 0i32), (-2i32, 0), (1, 0), (-2i32, 1), (1, -2i32)]
        } else if from == 1 {
            seq![(0i32, 0i32), (-1i32, 0), (2, 0), (-1i32, -2i32), (2, 1)]
        } else if from == 2 {
            seq![(0i32, 0i32), (2, 0), (-1i32, 0), (2, -1i32), (-1i32, 2)]
        } else {
            seq![(0i32, 0i32), (1, 0), (-2i32, 0), (1, 2), (-2i32, -1i32)]
        }
    } else {
        if from == 0 {
            seq![(0i32, 0i32), (-1i32, 0), (2, 0), (-1i32, -2i32), (2, 1)]
        } else if from == 1 {
            seq![(0i32, 0i32), (2, 0), (-1i32, 0), (2, -1i32), (-1i32, 2)]
        } else if from == 2 {
            seq![(0i32, 0i32), (1, 0), (-2i32, 0), (1, 2), (-2i32, -1i32)]
        } else {
            seq![(0i32, 0i32), (-2i32, 0), (1, 0), (-2i32, 1), (1, -2i32)]
        }
    }
}

/// The kick offsets that apply to kind `t`.
pub open spec fn kick_offsets(t: TetrominoType, clockwise: bool, from: int) -> Seq<BlockOffset> {
    if t == TetrominoType::I {
        i_kicks(clockwise, from)
    } else {
        jlstz_kicks(clockwise, from)
    }
}

/// Every kick list has five entries, each at most two cells away on either axis.
pub proof fn lemma_kick_offsets_bounded(t: TetrominoType, clockwise: bool, from: int)
    ensures
        kick_offsets(t, clockwise, from).len() == 5,
        forall|k: int|
            0 <= k < 5 ==> -2 <= (#[trigger] kick_offsets(t, clockwise, from)[k]).0 <= 2 && -2
                <= kick_offsets(t, clockwise, from)[k].1 <= 2,
{
}

/// The wall-kick offsets tried for kind `t` when rotating out of state `from`.
pub fn get_kick_offsets(t: TetrominoType, clockwise: bool, from: usize) -> (kicks: Vec<
    BlockOffset,
>)
    ensures
        kicks@ == kick_offsets(t, clockwise, from as int),
{
    let is_i = match t {
        TetrominoType::I => true,
        _ => false,
    };
    if is_i {
        if clockwise {
            if from == 0 {
                vec![(0, 0), (-2, 0), (1, 0), (-2, 1), (1, -2)]
            } else if from == 1 {
                vec![(0, 0), (-1, 0), (2, 0), (-1, -2), (2, 1)]
            } else if from == 2 {
                vec![(0, 0), (2, 0), (-1, 0), (2, -1), (-1, 2)]
            } else {
                vec![(0, 0), (1, 0), (-2, 0), (1, 2), (-2, -1)]
            }
        } else {
            if from == 0 {
                vec![(0, 0), (-1, 0), (2, 0), (-1, -2), (2, 1)]
            } else if from == 1 {
                vec![(0, 0), (2, 0), (-1, 0), (2, -1), (-1, 2)]
            } else if from == 2 {
                vec![(0, 0), (1, 0), (-2, 0), (1, 2), (-2, -1)]
            } else {
                vec![(0, 0), (-2, 0), (1, 0), (-2, 1), (1, -2)]
            }
        }
    } else {
        if clockwise {
            if from == 0 {
                vec![(0, 0), (-1, 0), (-1, -1), (0, 2), (-1, 2)]
            } else if from == 1 {
                vec![(0, 0), (1, 0), (1, 1), (0, -2), (1, -2)]
            } else if from == 2 {
                vec![(0, 0), (1, 0), (1, -1), (0, 2), (1, 2)]
            } else {
                vec![(0, 0), (-1, 0), (-1, 1), (0, -2), (-1, -2)]
            }
        } else {
            if from == 0 {
                vec![(0, 0), (1, 0), (1, -1), (0, 2), (1, 2)]
            } else if from == 1 {
                vec![(0, 0), (1, 0), (1, 1), (0, -2), (1, -2)]
            } else if from == 2 {
                vec![(0, 0), (-1, 0), (-1, -1), (0, 2), (-1, 2)]
            } else {
                vec![(0, 0), (-1, 0), (-1, 1), (0, -2), (-1, -2)]
            }
        }
    }
}

/// The layout `s` has a block on the cell (`x`, `y`) relative to the pivot.
pub open spec fn has_cell(s: Seq<BlockOffset>, x: int, y: int) -> bool {
    exists|i: int| 0 <= i < s.len() && s[i].0 == x && s[i].1 == y
}

/// The cells of a four-block layout are its four entries.
pub proof fn lemma_has_cell_four(s: Seq<BlockOffset>, x: int, y: int)
    requires
        s.len() == 4,
    ensures
        has_cell(s, x, y) <==> ((s[0].0 == x && s[0].1 == y) || (s[1].0 == x && s[1].1 == y) || (
        s[2].0 == x && s[2].1 == y) || (s[3].0 == x && s[3].1 == y)),
{
    if (s[0].0 == x && s[0].1 == y) {
        assert(has_cell(s, x, y));
    } else if (s[1].0 == x && s[1].1 == y) {
        assert(has_cell(s, x, y));
    } else if (s[2].0 == x && s[2].1 == y) {
        assert(has_cell(s, x, y));
    } else if (s[3].0 == x && s[3].1 == y) {
        assert(has_cell(s, x, y));
    }
}

/// The cells of every kind in its first rotation state: I flat on the pivot
/// row from one left to two right; O a square right and below; T a row of
/// three with a block above the pivot; S and Z with their upper pair to the
/// right and left; J and L a row of three with a block above the right and
/// the left end.
pub proof fn lemma_spawn_layouts(x: int, y: int)
    ensures
        has_cell(shape_cells(TetrominoType::I, 0), x, y) <==> (y == 0 && -1 <= x <= 2),
        has_cell(shape_cells(TetrominoType::O, 0), x, y) <==> (0 <= x <= 1 && 0 <= y <= 1),
        has_cell(shape_cells(TetrominoType::T, 0), x, y) <==> ((y == 0 && -1 <= x <= 1) || (x == 0
            && y == -1)),
        has_cell(shape_cells(TetrominoType::S, 0), x, y) <==> ((y == 0 && -1 <= x <= 0) || (y == -1
            && 0 <= x <= 1)),
        has_cell(shape_cells(TetrominoType::Z, 0), x, y) <==> ((y == 0 && 0 <= x <= 1) || (y == -1
            && -1 <= x <= 0)),
        has_cell(shape_cells(TetrominoType::J, 0), x, y) <==> ((y == 0 && -1 <= x <= 1) || (x == 1
            && y == -1)),
        has_cell(shape_cells(TetrominoType::L, 0), x, y) <==> ((y == 0 && -1 <= x <= 1) || (x == -1
            && y == -1)),
{
    lemma_has_cell_four(shape_cells(TetrominoType::I, 0), x, y);
    lemma_has_cell_four(shape_cells(TetrominoType::O, 0), x, y);
    lemma_has_cell_four(shape_cells(TetrominoType::T, 0), x, y);
    lemma_has_cell_four(shape_cells(TetrominoType::S, 0), x, y);
    lemma_has_cell_four(shape_cells(TetrominoType::Z, 0), x, y);
    lemma_has_cell_four(shape_cells(TetrominoType::J, 0), x, y);
    lemma_has_cell_four(shape_cells(TetrominoType::L, 0), x, y);
}

/// For the T, J and L pieces each rotation state is the one before it turned
/// a quarter clockwise about the pivot, (dx, dy) becoming (-dy, dx): the
/// cell (x, y) is in state r + 1 exactly when (y, -x) is in state r.
pub proof fn lemma_tjl_quarter_turns(t: TetrominoType, r: int, x: int, y: int)
    requires
        t == TetrominoType::T || t == TetrominoType::J || t == TetrominoType::L,
        0 <= r < 4,
    ensures
        has_cell(shape_cells(t, (r + 1) % 4), x, y) <==> has_cell(shape_cells(t, r), y, -x),
{
    lemma_has_cell_four(shape_cells(t, (r + 1) % 4), x, y);
    lemma_has_cell_four(shape_cells(t, r), y, -x);
}

/// The I piece stands upright in state 1, its flat state turned a quarter
/// clockwise about the pivot; the I, S and Z pieces have only two layouts,
/// states 2 and 3 repeating states 0 and 1; the O piece has one.
pub proof fn lemma_two_state_layouts(r: int, x: int, y: int)
    requires
        0 <= r < 4,
    ensures
        has_cell(shape_cells(TetrominoType::I, 1), x, y) <==> has_cell(
            shape_cells(TetrominoType::I, 0),
            y,
            -x,
        ),
        has_cell(shape_cells(TetrominoType::I, 1), x, y) <==> (x == 0 && -1 <= y <= 2),
        has_cell(shape_cells(TetrominoType::S, 1), x, y) <==> ((x == 0 && 0 <= y <= 1) || (x == 1
            && -1 <= y <= 0)),
        has_cell(shape_cells(TetrominoType::Z, 1), x, y) <==> ((x == 0 && -1 <= y <= 0) || (x == 1
            && 0 <= y <= 1)),
        shape_cells(TetrominoType::I, (r + 2) % 4) == shape_cells(TetrominoType::I, r),
        shape_cells(TetrominoType::S, (r + 2) % 4) == shape_cells(TetrominoType::S, r),
        shape_cells(TetrominoType::Z, (r + 2) % 4) == shape_cells(TetrominoType::Z, r),
        shape_cells(TetrominoType::O, r) == shape_cells(TetrominoType::O, 0),
{
    lemma_has_cell_four(shape_cells(TetrominoType::I, 1), x, y);
    lemma_has_cell_four(shape_cells(TetrominoType::I, 0), y, -x);
    lemma_has_cell_four(shape_cells(TetrominoType::S, 1), x, y);
    lemma_has_cell_four(shape_cells(TetrominoType::Z, 1), x, y);
}

/// J and L, and S and Z, are mirror images of each other in x in their
/// first rotation state.
pub proof fn lemma_mirror_pairs(x: int, y: int)
    ensures
        has_cell(shape_cells(TetrominoType::J, 0), x, y) <==> has_cell(
            shape_cells(TetrominoType::L, 0),
            -x,
            y,
        ),
        has_cell(shape_cells(TetrominoType::S, 0), x, y) <==> has_cell(
            shape_cells(TetrominoType::Z, 0),
            -x,
            y,
        ),
{
    lemma_has_cell_four(shape_cells(TetrominoType::J, 0), x, y);
    lemma_has_cell_four(shape_cells(TetrominoType::L, 0), -x, y);
    lemma_has_cell_four(shape_cells(TetrominoType::S, 0), x, y);
    lemma_has_cell_four(shape_cells(TetrominoType::Z, 0), -x, y);
}

/// The kicks tried when turning back counter-clockwise out of the state a
/// clockwise turn reached are the opposites of the clockwise kicks, in the
/// same order.
pub proof fn lemma_kicks_undo(t: TetrominoType, r: int, k: int)
    requires
        0 <= r < 4,
        0 <= k < 5,
    ensures
        kick_offsets(t, false, (r + 1) % 4)[k].0 == -kick_offsets(t, true, r)[k].0,
        kick_offsets(t, false, (r + 1) % 4)[k].1 == -kick_offsets(t, true, r)[k].1,
{
}

/// Clockwise kicks out of state r + 2 are those out of state r mirrored:
/// in x only for the J, L, S, T and Z pieces, in both axes for the I piece.
pub proof fn lemma_kicks_half_turn(t: TetrominoType, r: int, k: int)
    requires
        0 <= r < 4,
        0 <= k < 5,
    ensures
        kick_offsets(t, true, (r + 2) % 4)[k].0 == -kick_offsets(t, true, r)[k].0,
        t != TetrominoType::I ==> kick_offsets(t, true, (r + 2) % 4)[k].1 == kick_offsets(
            t,
            true,
            r,
        )[k].1,
        t == TetrominoType::I ==> kick_offsets(t, true, (r + 2) % 4)[k].1 == -kick_offsets(
            t,
            true,
            r,
        )[k].1,
{
}

/// The clockwise kicks out of states 0 and 1, in the order they are tried;
/// with the two laws above they give every list. Every list starts with no kick.
pub proof fn lemma_clockwise_kicks(t: TetrominoType, clockwise: bool, r: int)
    requires
        0 <= r < 4,
    ensures
        kick_offsets(t, clockwise, r)[0] == (0i32, 0i32),
        t != TetrominoType::I ==> kick_offsets(t, true, 0) == seq![
            (0i32, 0i32),
            (-1i32, 0i32),
            (-1i32, -1i32),
            (0i32, 2i32),
            (-1i32, 2i32),
        ],
        t != TetrominoType::I ==> kick_offsets(t, true, 1) == seq![
            (0i32, 0i32),
            (1i32, 0i32),
            (1i32, 1i32),
            (0i32, -2i32),
            (1i32, -2i32),
        ],
        kick_offsets(TetrominoType::I, true, 0) == seq![
            (0i32, 0i32),
            (-2i32, 0i32),
            (1i32, 0i32),
            (-2i32, 1i32),
            (1i32, -2i32),
        ],
        kick_offsets(TetrominoType::I, true, 1) == seq![
            (0i32, 0i32),
            (-1i32, 0i32),
            (2i32, 0i32),
            (-1i32, -2i32),
            (2i32, 1i32),
        ],
{
}

/// Each index from 1 to 7 names a different kind, and every kind is named by one.
pub proof fn lemma_kind_indices_name_every_kind(t: TetrominoType, i: int, j: int)
    ensures
        1 <= i <= 7 && 1 <= j <= 7 && TetrominoType::kind_of_index(i) == TetrominoType::kind_of_index(j)
            ==> i == j,
        TetrominoType::kind_of_index(t.cell_value() as int) == t,
        1 <= t.cell_value() <= 7,
{
}

/// A piece on the playfield: its kind, its rotation state, the block layout
/// it currently has, and the position of its pivot (column `x`, row `y`).
#[derive(Debug)]
pub struct Tetromino {
    pub tetromino_type: TetrominoType,
    pub rotation_index: usize,
    pub blocks: Vec<BlockOffset>,
    pub x: i32,
    pub y: i32,
}

/// A colour as red, green and blue intensities.
#[derive(Debug, Clone, Copy, PartialEq, Eq, Structural)]
pub struct Rgb {
    pub r: u8,
    pub g: u8,
    pub b: u8,
}

/// Build a colour from its three channels.
pub fn rgb(r: u8, g: u8, b: u8) -> (c: Rgb)
    ensures
        c == (Rgb { r, g, b }),
{
    Rgb { r, g, b }
}

/// The colour each kind of piece is drawn in.
pub open spec fn tetromino_color(t: TetrominoType) -> Rgb {
    match t {
        TetrominoType::I => Rgb { r: 255, g: 215, b: 0 },
        TetrominoType::O => Rgb { r: 0, g: 100, b: 0 },
        TetrominoType::T => Rgb { r: 138, g: 43, b: 226 },
        TetrominoType::S => Rgb { r: 178, g: 34, b: 34 },
        TetrominoType::Z => Rgb { r: 80, g: 80, b: 80 },
        TetrominoType::J => Rgb { r: 72, g: 61, b: 139 },
        TetrominoType::L => Rgb { r: 205, g: 92, b: 92 },
    }
}

/// Colour of a locked cell holding `value`: the colour of the kind with that
/// cell value, or dark grey for any value outside 1 to 7.
pub open spec fn locked_block_color(value: u8) -> Rgb {
    if 1 <= value <= 7 {
        tetromino_color(TetrominoType::kind_of_index(value as int))
    } else {
        Rgb { r: 70, g: 70, b: 70 }
    }
}

/// The colour a falling piece of kind `tetromino_type` is drawn in.
pub fn get_tetromino_color(tetromino_type: TetrominoType) -> (c: Rgb)
    ensures
        c == tetromino_color(tetromino_type),
{
    match tetromino_type {
        TetrominoType::I => rgb(255, 215, 0),
        TetrominoType::O => rgb(0, 100, 0),
        TetrominoType::T => rgb(138, 43, 226),
        TetrominoType::S => rgb(178, 34, 34),
        TetrominoType::Z => rgb(80, 80, 80),
        TetrominoType::J => rgb(72, 61, 139),
        TetrominoType::L => rgb(205, 92, 92),
    }
}

/// The colour of a locked cell holding `value`.
pub fn get_locked_block_color(value: u8) -> (c: Rgb)
    ensures
        c == locked_block_color(value),
{
    match value {
        1 => get_tetromino_color(TetrominoType::I),
        2 => get_tetromino_color(TetrominoType::O),
        3 => get_tetromino_color(TetrominoType::T),
        4 => get_tetromino_color(TetrominoType::S),
        5 => get_tetromino_color(TetrominoType::Z),
        6 => get_tetromino_color(TetrominoType::J),
        7 => get_tetromino_color(TetrominoType::L),
        _ => rgb(70, 70, 70),
    }
}

/// A locked block is drawn in the colour of the piece that left it.
pub proof fn lemma_locked_color_matches_piece(t: TetrominoType)
    ensures
        locked_block_color(t.cell_value()) == tetromino_color(t),
{
}

} // verus!
