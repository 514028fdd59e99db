use vstd::prelude::*;

use crate::frame::{cell, frame_wf, Drawable, Frame, TermColour, Tile};
use crate::geometry::{get_tile_pos, tile_of};
use crate::particle::{particle_tile, particle_tile_for, Particle};
use crate::random::random_range;
use crate::render::grid;
use crate::smoke::{blinks, composite_smoke, draws_in_range, smoke_background, total_density};
use crate::state::{smoke_view, State, SMOKE_TOTAL_DENSITY_PROBABILITY_START};
use crate::{NUM_COLUMNS, NUM_ROWS};

verus! {

/// The grid `g` with the particles `ps` drawn on it one after the other,
/// each over the cell it is in; those off the grid are left out.
pub open spec fn painted(g: Seq<Seq<Tile>>, ps: Seq<Particle>) -> Seq<Seq<Tile>>
    decreases ps.len(),
{
    if ps.len() == 0 {
        g
    } else {
        let before = painted(g, ps.drop_last());
        let p = ps.last();
        match tile_of(p.position) {
            Some((x, y)) => before.update(x as int, before[x as int].update(y as int, particle_tile(p))),
            None => before,
        }
    }
}

/// `c` is a background that smoke of densities `ds` may show, for some
/// draws of the random values.
pub open spec fn smoke_shows(ds: Seq<u64>, c: TermColour) -> bool {
    exists|colour_draw: int, blink_draw: int|
        draws_in_range(total_density(ds), colour_draw, blink_draw)
        && c == #[trigger] smoke_background(ds, colour_draw, blink_draw)
}

/// A cell without smoke shows black whatever the draws, and never blinks.
pub proof fn lemma_empty_cell_is_black(ds: Seq<u64>, colour_draw: int, blink_draw: int)
    requires
        total_density(ds) == 0,
    ensures
        smoke_background(ds, colour_draw, blink_draw) == TermColour::Black,
        !blinks(total_density(ds), blink_draw),
{
}

proof fn lemma_set_cell(before: &Frame, after: &Frame, x: int, y: int, t: Tile)
    requires
        frame_wf(before),
        0 <= x < NUM_COLUMNS,
        0 <= y < NUM_ROWS,
        after@ == before@.update(x, after@[x]),
        after@[x]@ == before@[x]@.update(y, t),
    ensures
        frame_wf(after),
        grid(after) == grid(before).update(x, grid(before)[x].update(y, t)),
{
    assert(grid(after) =~~= grid(before).update(x, grid(before)[x].update(y, t)));
}

impl State {
    /// Draws every particle over the grid, one after the other, as its
    /// glyph in its bright colour on blue.
    pub fn draw_particles(&self, frame: &mut Frame)
        requires
            self.wf(),
            frame_wf(old(frame)),
        ensures
            frame_wf(final(frame)),
            grid(final(frame)) == painted(grid(old(frame)), self.particles@),
    {
        let mut i: usize = 0;
        while i < self.particles.len()
            invariant
                i <= self.particles@.len(),
                self.wf(),
                frame_wf(frame),
                grid(frame) == painted(grid(old(frame)), self.particles@.take(i as int)),
            decreases self.particles@.len() - i,
        {
            proof {
                assert(self.particles@.take(i as int + 1).drop_last() =~= self.particles@.take(i as int));
                assert(self.particles@.take(i as int + 1).last() == self.particles@[i as int]);
            }
            let p = &self.particles[i];
            match get_tile_pos(p.position) {
                Some((x, y)) => {
                    let ghost prev = *frame;
                    let t = particle_tile_for(p);
                    frame[x][y] = t;
                    proof {
                        lemma_set_cell(&prev, frame, x as int, y as int, t);
                    }
                },
                None => {},
            }
            i = i + 1;
        }
        assert(self.particles@.take(self.particles@.len() as int) =~= self.particles@);
    }

    /// Sets the background of every cell from its smoke, with fresh random
    /// draws for each cell; glyphs and foregrounds stay.
    pub fn draw_smoke(&self, frame: &mut Frame)
        requires
            self.wf(),
            frame_wf(old(frame)),
        ensures
            frame_wf(final(frame)),
            forall|x: int, y: int|
                0 <= x < NUM_COLUMNS && 0 <= y < NUM_ROWS ==> {
                    &&& (#[trigger] cell(final(frame), x, y)).icon == cell(old(frame), x, y).icon
                    &&& cell(final(frame), x, y).foreground_colour == cell(old(frame), x, y).foreground_colour
                    &&& smoke_shows(smoke_view(self.smoke_tiles@)[x][y], cell(final(frame), x, y).background_colour)
                },
    {
        let mut x: usize = 0;
        while x < NUM_COLUMNS
            invariant
                x <= NUM_COLUMNS,
                self.wf(),
                frame_wf(frame),
                forall|i: int, j: int|
                    0 <= i < NUM_COLUMNS && 0 <= j < NUM_ROWS ==> {
                        &&& (#[trigger] cell(frame, i, j)).icon == cell(old(frame), i, j).icon
                        &&& cell(frame, i, j).foreground_colour == cell(old(frame), i, j).foreground_colour
                        &&& (i < x ==> smoke_shows(smoke_view(self.smoke_tiles@)[i][j], cell(frame, i, j).background_colour))
                    },
            decreases NUM_COLUMNS - x,
        {
            let mut y: usize = 0;
            while y < NUM_ROWS
                invariant
                    x < NUM_COLUMNS,
                    y <= NUM_ROWS,
                    self.wf(),
                    frame_wf(frame),
                    forall|i: int, j: int|
                        0 <= i < NUM_COLUMNS && 0 <= j < NUM_ROWS ==> {
                            &&& (#[trigger] cell(frame, i, j)).icon == cell(old(frame), i, j).icon
                            &&& cell(frame, i, j).foreground_colour == cell(old(frame), i, j).foreground_colour
                            &&& (i < x || (i == x && j < y) ==> smoke_shows(
                                smoke_view(self.smoke_tiles@)[i][j],
                                cell(frame, i, j).background_colour,
                            ))
                        },
                decreases NUM_ROWS - y,
            {
                let tile = &self.smoke_tiles[x][y];
                let total = tile.total_density();
                let colour_draw: u64 = if total > 0 {
                    random_range(0, total)
                } else {
                    0
                };
                let blink_draw = random_range(0, SMOKE_TOTAL_DENSITY_PROBABILITY_START);
                let background = composite_smoke(tile, colour_draw, blink_draw);
                let ghost prev = *frame;
                let mut t = frame[x][y];
                t.background_colour = background;
                frame[x][y] = t;
                proof {
                    lemma_set_cell(&prev, frame, x as int, y as int, t);
                    let ds = smoke_view(self.smoke_tiles@)[x as int][y as int];
                    assert(ds == tile.colour_densities@);
                    assert(smoke_shows(ds, background)) by {
                        assert(draws_in_range(total_density(ds), colour_draw as int, blink_draw as int));
                        assert(background == smoke_background(ds, colour_draw as int, blink_draw as int));
                    }
                    assert forall|i: int, j: int|
                        0 <= i < NUM_COLUMNS && 0 <= j < NUM_ROWS implies {
                            &&& (#[trigger] cell(frame, i, j)).icon == cell(old(frame), i, j).icon
                            &&& cell(frame, i, j).foreground_colour == cell(old(frame), i, j).foreground_colour
                            &&& (i < x || (i == x && j < y + 1) ==> smoke_shows(
                                smoke_view(self.smoke_tiles@)[i][j],
                                cell(frame, i, j).background_colour,
                            ))
                        } by {
                        assert(cell(frame, i, j) == grid(frame)[i][j]);
                        assert(cell(&prev, i, j) == grid(&prev)[i][j]);
                    }
                }
                y = y + 1;
            }
            x = x + 1;
        }
    }

    /// Draws the scene onto `frame`: the particles over the grid first, then
    /// the background of every cell from its smoke.
    pub fn draw(&self, frame: &mut Frame)
        requires
            self.wf(),
            frame_wf(old(frame)),
        ensures
            frame_wf(final(frame)),
            forall|x: int, y: int|
                0 <= x < NUM_COLUMNS && 0 <= y < NUM_ROWS ==> {
                    &&& (#[trigger] cell(final(frame), x, y)).icon == painted(grid(old(frame)), self.particles@)[x][y].icon
                    &&& cell(final(frame), x, y).foreground_colour == painted(grid(old(frame)), self.particles@)[x][y].foreground_colour
                    &&& smoke_shows(smoke_view(self.smoke_tiles@)[x][y], cell(final(frame), x, y).background_colour)
                },
    {
        self.draw_particles(frame);
        let ghost middle = *frame;
        self.draw_smoke(frame);
        assert forall|x: int, y: int| 0 <= x < NUM_COLUMNS && 0 <= y < NUM_ROWS implies
            painted(grid(old(frame)), self.particles@)[x][y] == #[trigger] cell(&middle, x, y) by {
            assert(grid(&middle)[x][y] == cell(&middle, x, y));
        }
    }
}

impl Drawable for State {
    open spec fn ready(&self) -> bool {
        self.wf()
    }

    fn draw(&self, frame: &mut Frame) {
        State::draw(self, frame);
    }
}

} // verus!
