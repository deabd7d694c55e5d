//! What an interactive front end decides once per frame: clearing, pausing,
//! painting cells under the pointer while paused, and stepping the grid at a
//! fixed cadence while running.
use vstd::prelude::*;

use crate::grid::{dead_grid, height_of, in_grid, next_generation, set_cell, width_of, Game};

verus! {

/// Side of one cell on screen, in pixels.
pub const CELL_SIZE: usize = 20;

/// Generations per second of a new session.
pub const DEFAULT_STEPS_PER_SECOND: u64 = 12;

/// Timer units in one second; the timer advances by the elapsed
/// microseconds times the steps per second, and one step costs this much.
pub const MICROS_PER_SECOND: u64 = 1_000_000;

/// The cell under the pixel position `pos`.
pub fn calculate_pos(pos: (usize, usize)) -> (r: (usize, usize))
    ensures
        r.0 == pos.0 / CELL_SIZE,
        r.1 == pos.1 / CELL_SIZE,
{
    (pos.0 / CELL_SIZE, pos.1 / CELL_SIZE)
}

/// What the front end saw during one frame.
pub struct FrameInput {
    /// The reset key went down.
    pub clear: bool,
    /// The run/pause key went down.
    pub toggle: bool,
    /// Pointer position in pixels, negative coordinates taken as zero.
    pub cursor: (usize, usize),
    /// The button that brings cells to life is held.
    pub paint: bool,
    /// The button that kills cells is held.
    pub erase: bool,
    /// Length of the frame in microseconds.
    pub elapsed_us: u64,
}

/// A grid together with its run/pause mode and step timer.
pub struct Session {
    game: Game,
    running: bool,
    steps_per_second: u64,
    timer: u64,
}

/// The timer after a frame of `elapsed_us` microseconds, held at `u64::MAX`.
pub open spec fn advanced(timer: u64, elapsed_us: u64, steps_per_second: u64) -> u64 {
    let t = timer + elapsed_us * steps_per_second;
    if t > u64::MAX {
        u64::MAX
    } else {
        t as u64
    }
}

/// `g` after the pointer edits of a paused frame: the cell under `cursor`,
/// if it lies in the grid, is made alive while painting and then dead while
/// erasing.
pub open spec fn edited(g: Seq<Seq<bool>>, cursor: (usize, usize), paint: bool, erase: bool) -> Seq<
    Seq<bool>,
> {
    let (x, y) = ((cursor.0 / CELL_SIZE) as int, (cursor.1 / CELL_SIZE) as int);
    if !in_grid(g, x, y) {
        g
    } else {
        let painted = if paint {
            set_cell(g, x, y, true)
        } else {
            g
        };
        if erase {
            set_cell(painted, x, y, false)
        } else {
            painted
        }
    }
}

impl Session {
    /// The grid is well formed and the session steps at a positive rate.
    pub closed spec fn wf(&self) -> bool {
        self.game.wf() && self.steps_per_second > 0
    }

    /// The cells of the grid.
    pub closed spec fn cells(&self) -> Seq<Seq<bool>> {
        self.game@
    }

    /// Whether the grid advances over time.
    pub closed spec fn is_running(&self) -> bool {
        self.running
    }

    /// Time gathered towards the next step.
    pub closed spec fn timer_value(&self) -> u64 {
        self.timer
    }

    /// Generations per second while running.
    pub closed spec fn rate(&self) -> u64 {
        self.steps_per_second
    }

    /// A paused session over `game` that steps `steps_per_second` times a
    /// second while running.
    pub fn new(game: Game, steps_per_second: u64) -> (r: Session)
        requires
            game.wf(),
            steps_per_second > 0,
        ensures
            r.wf(),
            r.cells() == game@,
            !r.is_running(),
            r.timer_value() == 0,
            r.rate() == steps_per_second,
    {
        Session { game, running: false, steps_per_second, timer: 0 }
    }

    /// The grid.
    pub fn game(&self) -> (r: &Game)
        requires
            self.wf(),
        ensures
            r.wf(),
            r@ == self.cells(),
    {
        &self.game
    }

    /// Whether the grid advances over time.
    pub fn running(&self) -> (r: bool)
        ensures
            r == self.is_running(),
    {
        self.running
    }

    /// Applies one frame of input: the reset key clears the grid, the
    /// run/pause key flips the mode, then a paused session takes pointer
    /// edits and a running one gathers time and steps once a full step has
    /// gathered. Returns whether a step was taken.
    pub fn frame(&mut self, input: &FrameInput) -> (stepped: bool)
        requires
            old(self).wf(),
        ensures
            final(self).wf(),
            final(self).rate() == old(self).rate(),
            final(self).is_running() == (old(self).is_running() != input.toggle),
            ({
                let g0 = old(self).cells();
                let g1 = if input.clear {
                    dead_grid(width_of(g0) as nat, height_of(g0) as nat)
                } else {
                    g0
                };
                let t = advanced(old(self).timer_value(), input.elapsed_us, old(self).rate());
                if !final(self).is_running() {
                    &&& !stepped
                    &&& final(self).timer_value() == old(self).timer_value()
                    &&& final(self).cells() == edited(g1, input.cursor, input.paint, input.erase)
                } else if t >= MICROS_PER_SECOND {
                    &&& stepped
                    &&& final(self).timer_value() == t - MICROS_PER_SECOND
                    &&& final(self).cells() == next_generation(g1)
                } else {
                    &&& !stepped
                    &&& final(self).timer_value() == t
                    &&& final(self).cells() == g1
                }
            }),
    {
        if input.clear {
            self.game.clear_grid();
        }
        if input.toggle {
            self.running = !self.running;
        }
        if !self.running {
            let (x, y) = calculate_pos(input.cursor);
            if x < self.game.width() && y < self.game.height() {
                if input.paint {
                    self.game.set(x, y, true);
                }
                if input.erase {
                    self.game.set(x, y, false);
                }
            }
            false
        } else {
            let gained = match input.elapsed_us.checked_mul(self.steps_per_second) {
                Some(v) => v,
                None => u64::MAX,
            };
            self.timer = self.timer.saturating_add(gained);
            if self.timer >= MICROS_PER_SECOND {
                self.game.update();
                self.timer = self.timer - MICROS_PER_SECOND;
                true
            } else {
                false
            }
        }
    }
}

} // verus!
