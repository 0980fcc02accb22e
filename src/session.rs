//! The decisions of the interactive loop: input events, speed, pointer painting and stepping.
//! The loop itself, which polls events, draws and sleeps, runs outside the library and hands
//! each event and the pointer position to a `Session`.
use vstd::prelude::*;
use crate::grid::{cells_of, is_grid, width, height, dead_grid, new_field, clear};
use crate::engine::{next_gen, game_step};
use crate::pattern::{stamp, glider_gun, preset};

verus! {

/// Width of the drawing area, in pixels.
pub const WIDTH: usize = 800;

/// Height of the drawing area, in pixels.
pub const HEIGHT: usize = 600;

/// Side of one cell, in pixels.
pub const CELLSIZE: usize = 10;

/// Number of columns of the field.
pub const COLUMNS: usize = WIDTH / CELLSIZE;

/// Number of rows of the field.
pub const ROWS: usize = HEIGHT / CELLSIZE;

/// Slowest pace, in steps per second.
pub const MIN_RATE: u32 = 1;

/// Fastest pace, in steps per second.
pub const MAX_RATE: u32 = 500;

/// Change of pace for one key press, in steps per second.
pub const RATE_STEP: u32 = 10;

/// Pace at start, in steps per second.
pub const START_RATE: u32 = 50;

/// Pattern stamped at start and on reset.
pub const START_PATTERN: u32 = 0;

/// What the user did, as the loop reports it.
#[derive(Clone, Copy, Debug, PartialEq, Eq, Structural)]
pub enum Input {
    /// Close the window or press Escape.
    Quit,
    /// Start or pause the simulation.
    ToggleRun,
    /// Clear the field and stamp the start pattern again.
    Reset,
    /// Fewer steps per second.
    SlowDown,
    /// More steps per second.
    SpeedUp,
    /// The paint button went down.
    PaintDown,
    /// The paint button went up.
    PaintUp,
    /// The erase button went down.
    EraseDown,
    /// The erase button went up.
    EraseUp,
}

/// The pace after one step down: ten fewer steps per second, never under the minimum.
pub open spec fn slower(rate: int) -> int {
    if rate - RATE_STEP >= MIN_RATE { rate - RATE_STEP } else { MIN_RATE as int }
}

/// The pace after one step up: ten more steps per second, never over the maximum.
pub open spec fn faster(rate: int) -> int {
    if rate + RATE_STEP <= MAX_RATE { rate + RATE_STEP } else { MAX_RATE as int }
}

/// The cell index under a pointer coordinate `p` on an axis of `extent` pixels: the coordinate
/// is clamped into the drawing area first.
pub open spec fn pointer_cell(p: int, extent: int) -> int {
    let c = if p < 0 {
        0
    } else if p > extent - 1 {
        extent - 1
    } else {
        p
    };
    c / CELLSIZE as int
}

/// The pace one step slower.
pub fn slow_down(rate: u32) -> (r: u32)
    ensures
        r as int == slower(rate as int),
{
    if rate >= MIN_RATE + RATE_STEP {
        rate - RATE_STEP
    } else {
        MIN_RATE
    }
}

/// The pace one step faster.
pub fn speed_up(rate: u32) -> (r: u32)
    ensures
        r as int == faster(rate as int),
{
    if rate <= MAX_RATE - RATE_STEP {
        rate + RATE_STEP
    } else {
        MAX_RATE
    }
}

/// Nanoseconds to pause between frames at `rate` steps per second.
pub fn frame_pause_nanos(rate: u32) -> (r: u32)
    requires
        rate > 0,
    ensures
        r as int == 1_000_000_000int / rate as int,
{
    1_000_000_000u32 / rate
}

/// The cell index under pointer coordinate `p` on an axis of `extent` pixels.
pub fn cell_at_pointer(p: i32, extent: usize) -> (r: usize)
    requires
        0 < extent <= i32::MAX,
    ensures
        r as int == pointer_cell(p as int, extent as int),
{
    let c: usize = if p < 0 {
        0
    } else if p as usize > extent - 1 {
        extent - 1
    } else {
        p as usize
    };
    c / CELLSIZE
}

/// The field at start or after a reset: all dead but the start pattern at the origin.
pub open spec fn start_cells() -> Seq<Seq<bool>> {
    stamp(dead_grid(COLUMNS as int, ROWS as int), glider_gun(), 0, 0)
}

/// The field after a frame's paint edit at `(x, y)`: painting wins over erasing.
pub open spec fn painted(g: Seq<Seq<bool>>, x: int, y: int, paint: bool, erase: bool) -> Seq<
    Seq<bool>,
> {
    if paint {
        g.update(y, g[y].update(x, true))
    } else if erase {
        g.update(y, g[y].update(x, false))
    } else {
        g
    }
}

/// The state the interactive loop keeps between frames.
pub struct Session {
    /// The cells, `ROWS` rows of `COLUMNS` cells.
    pub field: Vec<Vec<bool>>,
    /// Whether the simulation steps on each frame.
    pub running: bool,
    /// Steps per second.
    pub rate: u32,
    /// Whether the paint button is held.
    pub painting: bool,
    /// Whether the erase button is held.
    pub erasing: bool,
}

impl Session {
    /// The field has the fixed size and the pace lies within its bounds.
    pub open spec fn wf(&self) -> bool {
        &&& is_grid(cells_of(&self.field))
        &&& width(cells_of(&self.field)) == COLUMNS
        &&& height(cells_of(&self.field)) == ROWS
        &&& MIN_RATE <= self.rate <= MAX_RATE
    }

    /// A paused session at the start pace, with the start pattern stamped and no button held.
    pub fn new() -> (r: Session)
        ensures
            r.wf(),
            cells_of(&r.field) == start_cells(),
            !r.running,
            r.rate == START_RATE,
            !r.painting,
            !r.erasing,
    {
        let mut field = new_field(COLUMNS, ROWS);
        preset(START_PATTERN, 0, 0, &mut field);
        Session { field, running: false, rate: START_RATE, painting: false, erasing: false }
    }

    /// Applies one input event; returns `false` when the session should end.
    pub fn handle(&mut self, input: Input) -> (go_on: bool)
        requires
            old(self).wf(),
        ensures
            final(self).wf(),
            go_on == (input != Input::Quit),
            final(self).running == (if input == Input::ToggleRun { !old(self).running } else { old(self).running }),
            final(self).rate == (match input {
                Input::SlowDown => slower(old(self).rate as int),
                Input::SpeedUp => faster(old(self).rate as int),
                _ => old(self).rate as int,
            }),
            final(self).painting == (match input {
                Input::PaintDown => true,
                Input::PaintUp => false,
                _ => old(self).painting,
            }),
            final(self).erasing == (match input {
                Input::EraseDown => true,
                Input::EraseUp => false,
                _ => old(self).erasing,
            }),
            cells_of(&final(self).field) == (if input == Input::Reset { start_cells() } else {
                cells_of(&old(self).field)
            }),
    {
        match input {
            Input::Quit => {
                return false;
            },
            Input::ToggleRun => {
                self.running = !self.running;
            },
            Input::Reset => {
                clear(&mut self.field);
                preset(START_PATTERN, 0, 0, &mut self.field);
            },
            Input::SlowDown => {
                self.rate = slow_down(self.rate);
            },
            Input::SpeedUp => {
                self.rate = speed_up(self.rate);
            },
            Input::PaintDown => {
                self.painting = true;
            },
            Input::PaintUp => {
                self.painting = false;
            },
            Input::EraseDown => {
                self.erasing = true;
            },
            Input::EraseUp => {
                self.erasing = false;
            },
        }
        true
    }

    /// One frame after the events: the cell under the pointer at pixel `(px, py)` is painted
    /// alive or erased while a button is held, then the field steps once if running.
    pub fn frame(&mut self, px: i32, py: i32)
        requires
            old(self).wf(),
        ensures
            final(self).wf(),
            ({
                let edited = painted(
                    cells_of(&old(self).field),
                    pointer_cell(px as int, WIDTH as int),
                    pointer_cell(py as int, HEIGHT as int),
                    old(self).painting,
                    old(self).erasing,
                );
                cells_of(&final(self).field) == if old(self).running {
                    next_gen(edited)
                } else {
                    edited
                }
            }),
            final(self).running == old(self).running,
            final(self).rate == old(self).rate,
            final(self).painting == old(self).painting,
            final(self).erasing == old(self).erasing,
    {
        let x = cell_at_pointer(px, WIDTH);
        let y = cell_at_pointer(py, HEIGHT);
        let ghost g = cells_of(&self.field);
        assert(g[y as int] == self.field@[y as int]@);
        if self.painting {
            self.field[y][x] = true;
        } else if self.erasing {
            self.field[y][x] = false;
        }
        assert(cells_of(&self.field) =~= painted(g, x as int, y as int, self.painting, self.erasing));
        if self.running {
            self.field = game_step(&mut self.field);
        }
    }
}

} // verus!
