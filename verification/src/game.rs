//! The game as a state machine. Each player input and each timer event is a
//! method that updates the state and tells the caller what to do with its
//! two timers (the lock delay and the gravity interval), which the caller
//! keeps, because reading the clock is outside work.
use vstd::prelude::*;
use crate::pieces::{
    Tetromino, TetrominoType, kick_offsets, lemma_cell_value_round_trip,
    lemma_shape_cells_bounded, shape_cells,
};
use crate::playfield::{
    PLAYFIELD_HEIGHT, PLAYFIELD_WIDTH, after_clearing, check_collision, collides, empty_playfield,
    empty_row, fall_distance, lemma_fall_distance, lemma_lock_keeps_exact,
    lemma_pivot_block_bounds, line_score, lines_cleared, lock_piece, locked_rows,
    playfield_exact, rows_of, with_piece,
};
use crate::tetromino::{
    attempt_rotation, chosen_kick, is_spawned, new_tetromino, spawn_column, spawn_row,
    target_rotation,
};

verus! {

/// What the caller does with the lock-delay timer after a step.
#[derive(Debug, Clone, Copy, PartialEq, Eq, Structural)]
pub enum LockTimerCommand {
    /// Leave it as it is.
    Keep,
    /// Start it now.
    Start,
    /// Stop it.
    Cancel,
}

/// What the caller does after a step: with the lock-delay timer, whether it
/// restarts the gravity timer, and whether the step ended the game.
#[derive(Debug, Clone, Copy, PartialEq, Eq, Structural)]
pub struct StepOutcome {
    pub lock_timer: LockTimerCommand,
    pub restart_gravity_timer: bool,
    pub game_ended: bool,
}

/// The outcome of a step that changed nothing.
pub open spec fn no_change() -> StepOutcome {
    StepOutcome { lock_timer: LockTimerCommand::Keep, restart_gravity_timer: false, game_ended: false }
}

/// Everything about the game but its timers.
pub struct GameState {
    pub playfield: Vec<Vec<u8>>,
    pub current: Tetromino,
    pub next: Tetromino,
    pub score: u32,
    pub total_lines_cleared: u32,
    pub current_level: u32,
    pub game_over: bool,
    /// Whether the lock-delay timer is running.
    pub lock_timer_running: bool,
}

/// The piece is in one of the four rotation states of its kind, with the
/// layout of that state.
pub open spec fn piece_placed(p: Tetromino) -> bool {
    &&& p.rotation_index < 4
    &&& p.blocks@ == shape_cells(p.tetromino_type, p.rotation_index as int)
}

/// Two pieces have the same kind, rotation, layout and position.
pub open spec fn same_piece(a: Tetromino, b: Tetromino) -> bool {
    &&& a.tetromino_type == b.tetromino_type
    &&& a.rotation_index == b.rotation_index
    &&& a.blocks@ == b.blocks@
    &&& a.x == b.x
    &&& a.y == b.y
}

/// Piece `b` is piece `a` moved by (`dx`, `dy`).
pub open spec fn piece_moved(a: Tetromino, b: Tetromino, dx: int, dy: int) -> bool {
    &&& a.tetromino_type == b.tetromino_type
    &&& a.rotation_index == b.rotation_index
    &&& a.blocks@ == b.blocks@
    &&& b.x == a.x + dx
    &&& b.y == a.y + dy
}

/// The piece would not collide if moved by (`dx`, `dy`).
pub open spec fn can_move(p: Tetromino, rows: Seq<Seq<u8>>, dx: int, dy: int) -> bool {
    !collides(p.blocks@, rows, p.x + dx, p.y + dy)
}

/// Rows the current piece `p` falls in a hard drop.
pub open spec fn drop_rows(p: Tetromino, rows: Seq<Seq<u8>>) -> int {
    fall_distance(p.blocks@, rows, p.x as int, p.y as int)
}

/// The rows after piece `p` is locked `dy` rows below where it is.
pub open spec fn locked_after_drop(rows: Seq<Seq<u8>>, p: Tetromino, dy: int) -> Seq<Seq<u8>> {
    with_piece(rows, p.blocks@, p.x as int, p.y + dy, p.tetromino_type.cell_value())
}

impl GameState {
    /// The rows of the playfield.
    pub open spec fn rows(&self) -> Seq<Seq<u8>> {
        rows_of(self.playfield@)
    }

    /// The state is consistent: the playfield has its exact size with cells
    /// holding kinds of pieces, the current piece has the layout of its
    /// rotation state and its pivot on a column of the playfield and above
    /// the floor (and above the lowest `i32`), the next piece waits at its spawn position, the current
    /// piece lies on free cells while the game runs, and the level is one
    /// more than a tenth of the cleared lines.
    pub open spec fn wf(&self) -> bool {
        &&& playfield_exact(self.rows())
        &&& piece_placed(self.current)
        &&& 0 <= self.current.x < PLAYFIELD_WIDTH
        &&& i32::MIN < self.current.y < PLAYFIELD_HEIGHT
        &&& is_spawned(self.next, self.next.tetromino_type, PLAYFIELD_WIDTH)
        &&& !self.game_over ==> !collides(
            self.current.blocks@,
            self.rows(),
            self.current.x as int,
            self.current.y as int,
        )
        &&& self.current_level == self.total_lines_cleared / 10 + 1
    }

    /// Only the current piece and the lock-delay flag may differ between the two states.
    pub open spec fn same_except_current(&self, other: &GameState) -> bool {
        &&& self.rows() == other.rows()
        &&& same_piece(self.next, other.next)
        &&& self.score == other.score
        &&& self.total_lines_cleared == other.total_lines_cleared
        &&& self.current_level == other.current_level
        &&& self.game_over == other.game_over
    }

    /// The points, lines and level stay in range when the current piece
    /// locks `dy` rows below where it is.
    pub open spec fn lock_fits(&self, extra_points: int, dy: int) -> bool {
        let locked = locked_after_drop(self.rows(), self.current, dy);
        &&& self.score + extra_points + line_score(lines_cleared(locked), self.current_level as int)
            <= u32::MAX
        &&& self.total_lines_cleared + lines_cleared(locked) <= u32::MAX
    }

    /// The state after the current piece locked `dy` rows below where it was,
    /// `extra_points` were earned on the way down, and the next piece became
    /// the current one with a piece of kind `fresh` waiting after it.
    pub open spec fn locked_and_spawned(
        &self,
        old: &GameState,
        dy: int,
        extra_points: int,
        fresh: TetrominoType,
    ) -> bool {
        let locked = locked_after_drop(old.rows(), old.current, dy);
        let lines = lines_cleared(locked);
        &&& self.rows() == after_clearing(locked)
        &&& self.score == old.score + extra_points + line_score(lines, old.current_level as int)
        &&& self.total_lines_cleared == old.total_lines_cleared + lines
        &&& self.current_level == self.total_lines_cleared / 10 + 1
        &&& same_piece(self.current, old.next)
        &&& is_spawned(self.next, fresh, PLAYFIELD_WIDTH)
        &&& self.game_over == collides(
            old.next.blocks@,
            self.rows(),
            old.next.x as int,
            old.next.y as int,
        )
        &&& !self.lock_timer_running
    }

    /// Nothing differs between the two states.
    pub open spec fn unchanged_from(&self, other: &GameState) -> bool {
        &&& self.same_except_current(other)
        &&& same_piece(self.current, other.current)
        &&& self.lock_timer_running == other.lock_timer_running
    }

    /// A soft drop keeps the score in range.
    pub open spec fn soft_drop_fits(&self) -> bool {
        !self.game_over && can_move(self.current, self.rows(), 0, 1) ==> self.score < u32::MAX
    }

    /// A turn keeps every tried position in range.
    pub open spec fn rotate_fits(&self) -> bool {
        self.current.y >= i32::MIN + 3
    }

    /// A hard drop keeps the points for the rows fallen, the line points and
    /// the line count in range.
    pub open spec fn hard_drop_fits(&self) -> bool {
        !self.game_over ==> {
            let d = drop_rows(self.current, self.rows());
            &&& 2 * d <= i32::MAX
            &&& self.lock_fits(2 * d, d)
        }
    }

    /// Locking the landed piece when the lock delay has run out keeps the
    /// line points and the line count in range.
    pub open spec fn lock_check_fits(&self, delay_elapsed: bool) -> bool {
        !self.game_over && self.lock_timer_running && delay_elapsed && !can_move(
            self.current,
            self.rows(),
            0,
            1,
        ) ==> self.lock_fits(0, 0)
    }

    /// Lock the current piece where it is, clear lines, and bring in the next piece.
    fn lock_and_spawn(&mut self, fresh: TetrominoType)
        requires
            old(self).wf(),
            !old(self).game_over,
            old(self).lock_fits(0, 0),
        ensures
            final(self).wf(),
            final(self).locked_and_spawned(old(self), 0, 0, fresh),
    {
        proof {
            assert(locked_after_drop(self.rows(), self.current, 0) == locked_rows(
                self.rows(),
                self.current,
            ));
            lemma_cell_value_round_trip(self.current.tetromino_type);
            lemma_lock_keeps_exact(
                self.rows(),
                self.current.blocks@,
                self.current.x as int,
                self.current.y as int,
                self.current.tetromino_type.cell_value(),
            );
            crate::playfield::lemma_with_piece_keeps_shape(
                self.rows(),
                self.current.blocks@,
                self.current.x as int,
                self.current.y as int,
                self.current.tetromino_type.cell_value(),
            );
            lemma_shape_cells_bounded(self.current.tetromino_type, self.current.rotation_index as int);
        }
        let level = self.current_level;
        lock_piece(
            &self.current,
            &mut self.playfield,
            level,
            &mut self.score,
            &mut self.total_lines_cleared,
            &mut self.current_level,
        );
        std::mem::swap(&mut self.current, &mut self.next);
        self.current.x = crate::tetromino::spawn_x(PLAYFIELD_WIDTH);
        self.current.y = crate::tetromino::spawn_y(self.current.tetromino_type);
        self.next = new_tetromino(fresh, PLAYFIELD_WIDTH);
        self.lock_timer_running = false;
        proof {
            lemma_shape_cells_bounded(self.current.tetromino_type, 0);
            assert(spawn_column(PLAYFIELD_WIDTH) == 4);
        }
        if check_collision(self.current.blocks.as_slice(), &self.playfield, self.current.x, self.current.y) {
            self.game_over = true;
        }
    }

    /// Hard drop: if the game runs, let the current piece fall as far as it
    /// can, earning two points per row, lock it there and bring in the next
    /// piece, with one of kind `fresh` waiting after it.
    pub fn hard_drop(&mut self, fresh: TetrominoType) -> (out: StepOutcome)
        requires
            old(self).wf(),
            old(self).hard_drop_fits(),
        ensures
            final(self).wf(),
            old(self).game_over ==> final(self).unchanged_from(old(self)) && out == no_change(),
            !old(self).game_over ==> {
                let d = drop_rows(old(self).current, old(self).rows());
                &&& final(self).locked_and_spawned(old(self), d, 2 * d, fresh)
                &&& out == (StepOutcome {
                    lock_timer: LockTimerCommand::Cancel,
                    restart_gravity_timer: true,
                    game_ended: final(self).game_over,
                })
            },
    {
        if self.game_over {
            return StepOutcome {
                lock_timer: LockTimerCommand::Keep,
                restart_gravity_timer: false,
                game_ended: false,
            };
        }
        let ghost rows = self.rows();
        let ghost d = drop_rows(self.current, rows);
        proof {
            lemma_shape_cells_bounded(self.current.tetromino_type, self.current.rotation_index as int);
            lemma_fall_distance(self.current.blocks@, rows, self.current.x as int, self.current.y as int);
        }
        let mut final_y = self.current.y;
        while !check_collision(self.current.blocks.as_slice(), &self.playfield, self.current.x, final_y + 1)
            invariant
                self.wf(),
                !self.game_over,
                rows == self.rows(),
                self.current.y <= final_y <= self.current.y + d,
                d == fall_distance(self.current.blocks@, rows, self.current.x as int, self.current.y as int),
                0 <= d < PLAYFIELD_HEIGHT - self.current.y,
                collides(self.current.blocks@, rows, self.current.x as int, self.current.y + d + 1),
                forall|j: int|
                    1 <= j <= d ==> !#[trigger] collides(
                        self.current.blocks@,
                        rows,
                        self.current.x as int,
                        self.current.y + j,
                    ),
                self.current.blocks@.len() == 4,
                forall|k: int|
                    0 <= k < 4 ==> -1 <= (#[trigger] self.current.blocks@[k]).0 <= 2 && -1
                        <= self.current.blocks@[k].1 <= 2,
            decreases self.current.y + d - final_y,
        {
            proof {
                if final_y == self.current.y + d {
                    assert(self.current.y + d + 1 == final_y + 1);
                }
            }
            final_y += 1;
        }
        proof {
            if final_y < self.current.y + d {
                assert(!collides(
                    self.current.blocks@,
                    rows,
                    self.current.x as int,
                    self.current.y + (final_y + 1 - self.current.y),
                ));
            }
            if d > 0 {
                assert(!collides(self.current.blocks@, rows, self.current.x as int, self.current.y + d));
            }
        }
        let cells_dropped = final_y - self.current.y;
        self.score = self.score + (cells_dropped * 2) as u32;
        self.current.y = final_y;
        proof {
            assert(locked_after_drop(rows, self.current, 0) == locked_after_drop(rows, old(self).current, d));
        }
        self.lock_and_spawn(fresh);
        StepOutcome {
            lock_timer: LockTimerCommand::Cancel,
            restart_gravity_timer: true,
            game_ended: self.game_over,
        }
    }

    /// The lock delay ran (`delay_elapsed` when it has lasted long enough).
    /// If the game runs and the delay is running: when the piece still rests
    /// on something and the delay is over, lock it and bring in the next piece
    /// (with one of kind `fresh` after it); when the piece no longer rests on
    /// anything, stop the delay.
    pub fn lock_delay_check(&mut self, delay_elapsed: bool, fresh: TetrominoType) -> (out: StepOutcome)
        requires
            old(self).wf(),
            old(self).lock_check_fits(delay_elapsed),
        ensures
            final(self).wf(),
            ({
                let active = !old(self).game_over && old(self).lock_timer_running;
                let landed = !can_move(old(self).current, old(self).rows(), 0, 1);
                &&& (!active || (landed && !delay_elapsed)) ==> final(self).unchanged_from(old(self))
                    && out == no_change()
                &&& active && landed && delay_elapsed ==> final(self).locked_and_spawned(
                    old(self),
                    0,
                    0,
                    fresh,
                ) && out == (StepOutcome {
                    lock_timer: LockTimerCommand::Cancel,
                    restart_gravity_timer: true,
                    game_ended: final(self).game_over,
                })
                &&& active && !landed ==> final(self).same_except_current(old(self)) && same_piece(
                    final(self).current,
                    old(self).current,
                ) && !final(self).lock_timer_running && out == (StepOutcome {
                    lock_timer: LockTimerCommand::Cancel,
                    restart_gravity_timer: false,
                    game_ended: false,
                })
            }),
    {
        if self.game_over || !self.lock_timer_running {
            return StepOutcome {
                lock_timer: LockTimerCommand::Keep,
                restart_gravity_timer: false,
                game_ended: false,
            };
        }
        proof {
            lemma_shape_cells_bounded(self.current.tetromino_type, self.current.rotation_index as int);
        }
        let still_landed = check_collision(
            self.current.blocks.as_slice(),
            &self.playfield,
            self.current.x,
            self.current.y + 1,
        );
        if still_landed && delay_elapsed {
            self.lock_and_spawn(fresh);
            StepOutcome {
                lock_timer: LockTimerCommand::Cancel,
                restart_gravity_timer: true,
                game_ended: self.game_over,
            }
        } else if !still_landed {
            self.lock_timer_running = false;
            StepOutcome { lock_timer: LockTimerCommand::Cancel, restart_gravity_timer: false, game_ended: false }
        } else {
            StepOutcome { lock_timer: LockTimerCommand::Keep, restart_gravity_timer: false, game_ended: false }
        }
    }

    /// The gravity interval passed: if the game runs, move the current piece
    /// one row down if it fits there, or else start the lock delay unless it
    /// runs already; the gravity timer restarts.
    pub fn gravity(&mut self) -> (out: StepOutcome)
        requires
            old(self).wf(),
        ensures
            final(self).wf(),
            old(self).game_over ==> final(self).unchanged_from(old(self)) && out == no_change(),
            !old(self).game_over ==> final(self).same_except_current(old(self)),
            !old(self).game_over && can_move(old(self).current, old(self).rows(), 0, 1) ==> {
                &&& piece_moved(old(self).current, final(self).current, 0, 1)
                &&& final(self).lock_timer_running == old(self).lock_timer_running
                &&& out == (StepOutcome {
                    lock_timer: LockTimerCommand::Keep,
                    restart_gravity_timer: true,
                    game_ended: false,
                })
            },
            !old(self).game_over && !can_move(old(self).current, old(self).rows(), 0, 1) ==> {
                &&& same_piece(final(self).current, old(self).current)
                &&& final(self).lock_timer_running
                &&& out == (StepOutcome {
                    lock_timer: if old(self).lock_timer_running {
                        LockTimerCommand::Keep
                    } else {
                        LockTimerCommand::Start
                    },
                    restart_gravity_timer: true,
                    game_ended: false,
                })
            },
    {
        if self.game_over {
            return StepOutcome {
                lock_timer: LockTimerCommand::Keep,
                restart_gravity_timer: false,
                game_ended: false,
            };
        }
        let new_y = self.current.y + 1;
        proof {
            lemma_shape_cells_bounded(self.current.tetromino_type, self.current.rotation_index as int);
        }
        if !check_collision(self.current.blocks.as_slice(), &self.playfield, self.current.x, new_y) {
            self.current.y = new_y;
            proof {
                lemma_pivot_block_bounds(
                    self.current.blocks@,
                    self.rows(),
                    self.current.x as int,
                    self.current.y as int,
                );
            }
            StepOutcome { lock_timer: LockTimerCommand::Keep, restart_gravity_timer: true, game_ended: false }
        } else {
            let command = if self.lock_timer_running {
                LockTimerCommand::Keep
            } else {
                LockTimerCommand::Start
            };
            self.lock_timer_running = true;
            StepOutcome { lock_timer: command, restart_gravity_timer: true, game_ended: false }
        }
    }

    /// Restart after a game over: an empty playfield, no points, no lines,
    /// level 1, a piece of kind `first` at its spawn position and one of kind
    /// `second` waiting. While the game runs, nothing happens.
    pub fn restart(&mut self, first: TetrominoType, second: TetrominoType) -> (out: StepOutcome)
        requires
            old(self).wf(),
        ensures
            final(self).wf(),
            !old(self).game_over ==> final(self).unchanged_from(old(self)) && out == no_change(),
            old(self).game_over ==> {
                &&& final(self).rows() == empty_playfield()
                &&& is_spawned(final(self).current, first, PLAYFIELD_WIDTH)
                &&& is_spawned(final(self).next, second, PLAYFIELD_WIDTH)
                &&& final(self).score == 0
                &&& final(self).total_lines_cleared == 0
                &&& final(self).current_level == 1
                &&& final(self).game_over == collides(
                    final(self).current.blocks@,
                    empty_playfield(),
                    final(self).current.x as int,
                    final(self).current.y as int,
                )
                &&& !final(self).game_over
                &&& !final(self).lock_timer_running
                &&& out == (StepOutcome {
                    lock_timer: LockTimerCommand::Cancel,
                    restart_gravity_timer: true,
                    game_ended: false,
                })
            },
    {
        if !self.game_over {
            return StepOutcome {
                lock_timer: LockTimerCommand::Keep,
                restart_gravity_timer: false,
                game_ended: false,
            };
        }
        self.playfield = new_playfield();
        self.score = 0;
        self.total_lines_cleared = 0;
        self.current_level = 1;
        self.current = new_tetromino(first, PLAYFIELD_WIDTH);
        self.current.x = crate::tetromino::spawn_x(PLAYFIELD_WIDTH);
        self.current.y = crate::tetromino::spawn_y(self.current.tetromino_type);
        self.next = new_tetromino(second, PLAYFIELD_WIDTH);
        self.game_over = false;
        self.lock_timer_running = false;
        proof {
            lemma_spawn_fits_empty(first);
            lemma_shape_cells_bounded(first, 0);
        }
        if check_collision(self.current.blocks.as_slice(), &self.playfield, self.current.x, self.current.y) {
            self.game_over = true;
        }
        StepOutcome {
            lock_timer: LockTimerCommand::Cancel,
            restart_gravity_timer: true,
            game_ended: self.game_over,
        }
    }

    /// A check, made before a step, that no number the step computes can
    /// leave its range: the score leaves room for any drop and line clear on
    /// the current level, the line count for any clear, and the current
    /// piece is far from the lowest row number.
    pub fn has_headroom(&self) -> (ok: bool)
        requires
            self.wf(),
        ensures
            ok == (self.current.y >= -1000 && self.current_level <= 1_000_000 && self.score + 2200
                + 800 * self.current_level <= u32::MAX && self.total_lines_cleared + 20 <= u32::MAX),
            ok ==> self.soft_drop_fits() && self.rotate_fits() && self.hard_drop_fits()
                && self.lock_check_fits(true) && self.lock_check_fits(false),
    {
        let ok = self.current.y >= -1000 && self.current_level <= 1_000_000 && self.score
            <= u32::MAX - 2200 - 800 * self.current_level && self.total_lines_cleared <= u32::MAX
            - 20;
        proof {
            if ok {
                let rows = self.rows();
                let p = self.current;
                lemma_shape_cells_bounded(p.tetromino_type, p.rotation_index as int);
                lemma_fall_distance(p.blocks@, rows, p.x as int, p.y as int);
                let d = drop_rows(p, rows);
                lemma_cell_value_round_trip(p.tetromino_type);
                lemma_lock_keeps_exact(rows, p.blocks@, p.x as int, p.y + d, p.tetromino_type.cell_value());
                lemma_lock_keeps_exact(rows, p.blocks@, p.x as int, p.y as int, p.tetromino_type.cell_value());
                let l1 = lines_cleared(locked_after_drop(rows, p, d));
                let l0 = lines_cleared(locked_after_drop(rows, p, 0));
                assert(locked_after_drop(rows, p, 0) == with_piece(rows, p.blocks@, p.x as int, p.y as int, p.tetromino_type.cell_value()));
                assert(line_score(l1, self.current_level as int) <= 800 * self.current_level);
                assert(line_score(l0, self.current_level as int) <= 800 * self.current_level);
            }
        }
        ok
    }

    /// A new game: an empty playfield, a piece of kind `first` at its spawn
    /// position and one of kind `second` waiting, no points, no lines, level 1.
    pub fn new(first: TetrominoType, second: TetrominoType) -> (s: GameState)
        ensures
            s.wf(),
            s.rows() == empty_playfield(),
            is_spawned(s.current, first, PLAYFIELD_WIDTH),
            is_spawned(s.next, second, PLAYFIELD_WIDTH),
            s.score == 0,
            s.total_lines_cleared == 0,
            s.current_level == 1,
            !s.game_over,
            !s.lock_timer_running,
    {
        let playfield = new_playfield();
        let current = new_tetromino(first, PLAYFIELD_WIDTH);
        let next = new_tetromino(second, PLAYFIELD_WIDTH);
        proof {
            lemma_spawn_fits_empty(first);
            lemma_shape_cells_bounded(first, 0);
        }
        GameState {
            playfield,
            current,
            next,
            score: 0,
            total_lines_cleared: 0,
            current_level: 1,
            game_over: false,
            lock_timer_running: false,
        }
    }

    /// Move the current piece one column left (or right when `to_right`) if
    /// the game runs and the piece fits there; a move stops the lock delay.
    pub fn shift(&mut self, to_right: bool) -> (out: StepOutcome)
        requires
            old(self).wf(),
        ensures
            final(self).wf(),
            final(self).same_except_current(old(self)),
            ({
                let dx: int = if to_right { 1 } else { -1 };
                let moved = !old(self).game_over && can_move(old(self).current, old(self).rows(), dx, 0);
                &&& moved ==> piece_moved(old(self).current, final(self).current, dx, 0)
                &&& !moved ==> same_piece(old(self).current, final(self).current)
                &&& final(self).lock_timer_running == (old(self).lock_timer_running && !moved)
                &&& out == (if moved {
                    StepOutcome {
                        lock_timer: LockTimerCommand::Cancel,
                        restart_gravity_timer: false,
                        game_ended: false,
                    }
                } else {
                    no_change()
                })
            }),
    {
        if self.game_over {
            return StepOutcome {
                lock_timer: LockTimerCommand::Keep,
                restart_gravity_timer: false,
                game_ended: false,
            };
        }
        let new_x = if to_right {
            self.current.x + 1
        } else {
            self.current.x - 1
        };
        proof {
            lemma_shape_cells_bounded(self.current.tetromino_type, self.current.rotation_index as int);
        }
        if !check_collision(self.current.blocks.as_slice(), &self.playfield, new_x, self.current.y) {
            self.current.x = new_x;
            self.lock_timer_running = false;
            proof {
                lemma_pivot_block_bounds(
                    self.current.blocks@,
                    self.rows(),
                    self.current.x as int,
                    self.current.y as int,
                );
            }
            StepOutcome { lock_timer: LockTimerCommand::Cancel, restart_gravity_timer: false, game_ended: false }
        } else {
            StepOutcome { lock_timer: LockTimerCommand::Keep, restart_gravity_timer: false, game_ended: false }
        }
    }

    /// Soft drop: move the current piece one row down if the game runs and it
    /// fits there, earning one point and restarting the gravity timer; when it
    /// does not fit, start the lock delay unless it runs already.
    pub fn soft_drop(&mut self) -> (out: StepOutcome)
        requires
            old(self).wf(),
            !old(self).game_over && can_move(old(self).current, old(self).rows(), 0, 1)
                ==> old(self).score < u32::MAX,
        ensures
            final(self).wf(),
            final(self).rows() == old(self).rows(),
            same_piece(final(self).next, old(self).next),
            final(self).total_lines_cleared == old(self).total_lines_cleared,
            final(self).current_level == old(self).current_level,
            final(self).game_over == old(self).game_over,
            old(self).game_over ==> {
                &&& same_piece(final(self).current, old(self).current)
                &&& final(self).score == old(self).score
                &&& final(self).lock_timer_running == old(self).lock_timer_running
                &&& out == no_change()
            },
            !old(self).game_over && can_move(old(self).current, old(self).rows(), 0, 1) ==> {
                &&& piece_moved(old(self).current, final(self).current, 0, 1)
                &&& final(self).score == old(self).score + 1
                &&& final(self).lock_timer_running == old(self).lock_timer_running
                &&& out == (StepOutcome {
                    lock_timer: LockTimerCommand::Keep,
                    restart_gravity_timer: true,
                    game_ended: false,
                })
            },
            !old(self).game_over && !can_move(old(self).current, old(self).rows(), 0, 1) ==> {
                &&& same_piece(final(self).current, old(self).current)
                &&& final(self).score == old(self).score
                &&& final(self).lock_timer_running
                &&& out == (StepOutcome {
                    lock_timer: if old(self).lock_timer_running {
                        LockTimerCommand::Keep
                    } else {
                        LockTimerCommand::Start
                    },
                    restart_gravity_timer: false,
                    game_ended: false,
                })
            },
    {
        if self.game_over {
            return StepOutcome {
                lock_timer: LockTimerCommand::Keep,
                restart_gravity_timer: false,
                game_ended: false,
            };
        }
        let new_y = self.current.y + 1;
        proof {
            lemma_shape_cells_bounded(self.current.tetromino_type, self.current.rotation_index as int);
        }
        if !check_collision(self.current.blocks.as_slice(), &self.playfield, self.current.x, new_y) {
            self.current.y = new_y;
            self.score = self.score + 1;
            proof {
                lemma_pivot_block_bounds(
                    self.current.blocks@,
                    self.rows(),
                    self.current.x as int,
                    self.current.y as int,
                );
            }
            StepOutcome { lock_timer: LockTimerCommand::Keep, restart_gravity_timer: true, game_ended: false }
        } else {
            let command = if self.lock_timer_running {
                LockTimerCommand::Keep
            } else {
                LockTimerCommand::Start
            };
            self.lock_timer_running = true;
            StepOutcome { lock_timer: command, restart_gravity_timer: false, game_ended: false }
        }
    }

    /// Turn the current piece (clockwise when `clockwise`) with wall kicks if
    /// the game runs; a turn stops the lock delay.
    pub fn rotate(&mut self, clockwise: bool) -> (out: StepOutcome)
        requires
            old(self).wf(),
            old(self).current.y >= i32::MIN + 3,
        ensures
            final(self).wf(),
            final(self).same_except_current(old(self)),
            ({
                let turned = !old(self).game_over && old(self).current.tetromino_type
                    != TetrominoType::O && chosen_kick(old(self).current, old(self).rows(), clockwise) is Some;
                &&& turned ==> {
                    let k = chosen_kick(old(self).current, old(self).rows(), clockwise)->0;
                    let kick = kick_offsets(
                        old(self).current.tetromino_type,
                        clockwise,
                        old(self).current.rotation_index as int,
                    )[k];
                    let r = target_rotation(old(self).current.rotation_index as int, clockwise);
                    &&& final(self).current.tetromino_type == old(self).current.tetromino_type
                    &&& final(self).current.rotation_index == r
                    &&& final(self).current.blocks@ == shape_cells(old(self).current.tetromino_type, r)
                    &&& final(self).current.x == old(self).current.x + kick.0
                    &&& final(self).current.y == old(self).current.y + kick.1
                }
                &&& !turned ==> same_piece(old(self).current, final(self).current)
                &&& final(self).lock_timer_running == (old(self).lock_timer_running && !turned)
                &&& out == (if turned {
                    StepOutcome {
                        lock_timer: LockTimerCommand::Cancel,
                        restart_gravity_timer: false,
                        game_ended: false,
                    }
                } else {
                    no_change()
                })
            }),
    {
        if self.game_over {
            return StepOutcome {
                lock_timer: LockTimerCommand::Keep,
                restart_gravity_timer: false,
                game_ended: false,
            };
        }
        match attempt_rotation(&self.current, &self.playfield, clockwise) {
            Some((new_blocks, new_x, new_y, new_rotation_index)) => {
                self.current.blocks = new_blocks;
                self.current.x = new_x;
                self.current.y = new_y;
                self.current.rotation_index = new_rotation_index;
                self.lock_timer_running = false;
                proof {
                    let old_piece = old(self).current;
                    let target = target_rotation(old_piece.rotation_index as int, clockwise);
                    crate::tetromino::lemma_first_free_kick_range(
                        shape_cells(old_piece.tetromino_type, target),
                        old(self).rows(),
                        old_piece.x as int,
                        old_piece.y as int,
                        kick_offsets(old_piece.tetromino_type, clockwise, old_piece.rotation_index as int),
                        0,
                    );
                    crate::pieces::lemma_kick_offsets_bounded(
                        old_piece.tetromino_type,
                        clockwise,
                        old_piece.rotation_index as int,
                    );
                    lemma_shape_cells_bounded(self.current.tetromino_type, new_rotation_index as int);
                    lemma_pivot_block_bounds(
                        self.current.blocks@,
                        self.rows(),
                        self.current.x as int,
                        self.current.y as int,
                    );
                }
                StepOutcome {
                    lock_timer: LockTimerCommand::Cancel,
                    restart_gravity_timer: false,
                    game_ended: false,
                }
            },
            None => StepOutcome {
                lock_timer: LockTimerCommand::Keep,
                restart_gravity_timer: false,
                game_ended: false,
            },
        }
    }
}

/// A playfield of `PLAYFIELD_HEIGHT` empty rows of `PLAYFIELD_WIDTH` cells.
pub fn new_playfield() -> (p: Vec<Vec<u8>>)
    ensures
        rows_of(p@) == empty_playfield(),
{
    let mut p: Vec<Vec<u8>> = Vec::new();
    let mut i: usize = 0;
    while i < PLAYFIELD_HEIGHT
        invariant
            0 <= i <= PLAYFIELD_HEIGHT,
            p@.len() == i,
            forall|r: int| 0 <= r < i ==> #[trigger] p@[r]@ == empty_row(),
        decreases PLAYFIELD_HEIGHT - i,
    {
        let row: Vec<u8> = vec![0; PLAYFIELD_WIDTH];
        assert(row@ =~= empty_row());
        p.push(row);
        i += 1;
    }
    assert(rows_of(p@) =~= empty_playfield());
    p
}

/// A new piece of any kind fits on an empty playfield.
pub proof fn lemma_spawn_fits_empty(t: TetrominoType)
    ensures
        !collides(
            shape_cells(t, 0),
            empty_playfield(),
            spawn_column(PLAYFIELD_WIDTH),
            spawn_row(t) as int,
        ),
        playfield_exact(empty_playfield()),
{
    let blocks = shape_cells(t, 0);
    let rows = empty_playfield();
    lemma_shape_cells_bounded(t, 0);
    assert(spawn_column(PLAYFIELD_WIDTH) == 4);
    assert forall|i: int| 0 <= i < blocks.len() implies !#[trigger] crate::playfield::block_blocked(
        rows,
        blocks[i],
        4,
        spawn_row(t) as int,
    ) by {
        let y = spawn_row(t) + blocks[i].1;
        if 0 <= y < PLAYFIELD_HEIGHT {
            assert(rows[y] == empty_row());
        }
    }
}

} // verus!
