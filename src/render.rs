use vstd::prelude::*;

use crate::frame::{cell, frame_wf, Frame, Tile};
use crate::{NUM_COLUMNS, NUM_ROWS};

verus! {

/// Move the cursor to column `x`, row `y`, set both colours of `tile` and
/// write its glyph.
#[derive(Clone, Copy, Debug, PartialEq, Eq, Structural)]
pub struct Directive {
    pub x: usize,
    pub y: usize,
    pub tile: Tile,
}

/// The column of the cell at raster position `k` (columns first, then rows).
pub open spec fn raster_x(k: int) -> int {
    k / (NUM_ROWS as int)
}

/// The row of the cell at raster position `k`.
pub open spec fn raster_y(k: int) -> int {
    k % (NUM_ROWS as int)
}

/// Whether the cell at column `x`, row `y` must be written out.
pub open spec fn needs_write(last: &Frame, current: &Frame, force_redraw: bool, x: int, y: int) -> bool {
    force_redraw || cell(current, x, y) != cell(last, x, y)
}

/// The directives for the first `k` cells in raster order.
pub open spec fn directives_upto(last: &Frame, current: &Frame, force_redraw: bool, k: nat) -> Seq<Directive>
    decreases k,
{
    if k == 0 {
        seq![]
    } else {
        let p = k - 1;
        let (x, y) = (raster_x(p), raster_y(p));
        let earlier = directives_upto(last, current, force_redraw, (k - 1) as nat);
        if needs_write(last, current, force_redraw, x, y) {
            earlier.push(Directive { x: x as usize, y: y as usize, tile: cell(current, x, y) })
        } else {
            earlier
        }
    }
}

/// The number of cells of a frame.
pub open spec fn num_cells() -> nat {
    (NUM_COLUMNS * NUM_ROWS) as nat
}

/// The directives that turn `last` into `current` on the display.
pub open spec fn frame_directives(last: &Frame, current: &Frame, force_redraw: bool) -> Seq<Directive> {
    directives_upto(last, current, force_redraw, num_cells())
}

/// A grid of cells as nested sequences.
pub open spec fn grid(frame: &Frame) -> Seq<Seq<Tile>> {
    frame@.map_values(|column: Vec<Tile>| column@)
}

/// What a display showing `g` shows after carrying out `ds` in order.
pub open spec fn apply_directives(g: Seq<Seq<Tile>>, ds: Seq<Directive>) -> Seq<Seq<Tile>>
    decreases ds.len(),
{
    if ds.len() == 0 {
        g
    } else {
        let d = ds.last();
        let before = apply_directives(g, ds.drop_last());
        before.update(d.x as int, before[d.x as int].update(d.y as int, d.tile))
    }
}

proof fn lemma_raster_position(x: int, y: int)
    requires
        0 <= x,
        0 <= y < NUM_ROWS,
    ensures
        raster_x(x * NUM_ROWS + y) == x,
        raster_y(x * NUM_ROWS + y) == y,
{
    assert((x * 135 + y) / 135 == x && (x * 135 + y) % 135 == y) by (nonlinear_arith)
        requires
            0 <= x,
            0 <= y < 135,
    ;
}

proof fn lemma_raster_bounds(p: int)
    requires
        0 <= p < num_cells(),
    ensures
        0 <= raster_x(p) < NUM_COLUMNS,
        0 <= raster_y(p) < NUM_ROWS,
        p == raster_x(p) * NUM_ROWS + raster_y(p),
{
}

/// Lists the cells to write out to show `current` on a display that shows
/// `last`: every cell when `force_redraw` is set (the display is then
/// cleared first), else only the cells that differ, columns first.
pub fn render(last_frame: &Frame, current_frame: &Frame, force_redraw: bool) -> (directives: Vec<Directive>)
    requires
        frame_wf(last_frame),
        frame_wf(current_frame),
    ensures
        directives@ == frame_directives(last_frame, current_frame, force_redraw),
{
    let mut directives: Vec<Directive> = Vec::new();
    let mut x: usize = 0;
    while x < NUM_COLUMNS
        invariant
            x <= NUM_COLUMNS,
            frame_wf(last_frame),
            frame_wf(current_frame),
            directives@ == directives_upto(last_frame, current_frame, force_redraw, (x * NUM_ROWS) as nat),
        decreases NUM_COLUMNS - x,
    {
        let mut y: usize = 0;
        while y < NUM_ROWS
            invariant
                x < NUM_COLUMNS,
                y <= NUM_ROWS,
                frame_wf(last_frame),
                frame_wf(current_frame),
                directives@ == directives_upto(last_frame, current_frame, force_redraw, (x * NUM_ROWS + y) as nat),
            decreases NUM_ROWS - y,
        {
            proof {
                lemma_raster_position(x as int, y as int);
            }
            let tile = current_frame[x][y];
            if force_redraw || tile != last_frame[x][y] {
                directives.push(Directive { x, y, tile });
            }
            y = y + 1;
        }
        x = x + 1;
    }
    directives
}

/// Rendering a frame against an identical one, without forcing a redraw,
/// writes nothing.
pub proof fn lemma_render_unchanged_is_empty(last: &Frame, current: &Frame)
    requires
        frame_wf(last),
        frame_wf(current),
        forall|x: int, y: int|
            0 <= x < NUM_COLUMNS && 0 <= y < NUM_ROWS ==> #[trigger] cell(current, x, y) == cell(last, x, y),
    ensures
        frame_directives(last, current, false).len() == 0,
{
    lemma_unchanged_prefix_empty(last, current, num_cells());
}

proof fn lemma_unchanged_prefix_empty(last: &Frame, current: &Frame, k: nat)
    requires
        k <= num_cells(),
        forall|x: int, y: int|
            0 <= x < NUM_COLUMNS && 0 <= y < NUM_ROWS ==> #[trigger] cell(current, x, y) == cell(last, x, y),
    ensures
        directives_upto(last, current, false, k).len() == 0,
    decreases k,
{
    if k > 0 {
        lemma_unchanged_prefix_empty(last, current, (k - 1) as nat);
        lemma_raster_bounds(k - 1);
    }
}

proof fn lemma_apply_prefix(last: &Frame, current: &Frame, force_redraw: bool, k: nat)
    requires
        k <= num_cells(),
        frame_wf(last),
        frame_wf(current),
    ensures
        apply_directives(grid(last), directives_upto(last, current, force_redraw, k)).len() == NUM_COLUMNS,
        forall|x: int|
            0 <= x < NUM_COLUMNS ==> (#[trigger] apply_directives(
                grid(last),
                directives_upto(last, current, force_redraw, k),
            )[x]).len() == NUM_ROWS,
        forall|x: int, y: int|
            0 <= x < NUM_COLUMNS && 0 <= y < NUM_ROWS ==> #[trigger] apply_directives(
                grid(last),
                directives_upto(last, current, force_redraw, k),
            )[x][y] == if x * NUM_ROWS + y < k {
                cell(current, x, y)
            } else {
                cell(last, x, y)
            },
    decreases k,
{
    let ds = directives_upto(last, current, force_redraw, k);
    if k == 0 {
        assert forall|x: int| 0 <= x < NUM_COLUMNS implies #[trigger] grid(last)[x].len() == NUM_ROWS by {
            assert(last@[x]@.len() == NUM_ROWS);
        }
    } else {
        let p = k - 1;
        lemma_raster_bounds(p);
        lemma_apply_prefix(last, current, force_redraw, (k - 1) as nat);
        let earlier = directives_upto(last, current, force_redraw, (k - 1) as nat);
        let before = apply_directives(grid(last), earlier);
        let (px, py) = (raster_x(p), raster_y(p));
        if needs_write(last, current, force_redraw, px, py) {
            let d = Directive { x: px as usize, y: py as usize, tile: cell(current, px, py) };
            assert(ds == earlier.push(d));
            assert(ds.drop_last() =~= earlier);
            assert forall|x: int, y: int| 0 <= x < NUM_COLUMNS && 0 <= y < NUM_ROWS implies
                #[trigger] apply_directives(grid(last), ds)[x][y] == if x * NUM_ROWS + y < k {
                    cell(current, x, y)
                } else {
                    cell(last, x, y)
                } by {
                lemma_raster_position(x, y);
            }
        } else {
            assert forall|x: int, y: int| 0 <= x < NUM_COLUMNS && 0 <= y < NUM_ROWS implies
                #[trigger] apply_directives(grid(last), ds)[x][y] == if x * NUM_ROWS + y < k {
                    cell(current, x, y)
                } else {
                    cell(last, x, y)
                } by {
                lemma_raster_position(x, y);
            }
        }
    }
}

/// Carrying out the directives of `render` on a display that shows `last`
/// leaves it showing `current`, cell for cell.
pub proof fn lemma_render_round_trip(last: &Frame, current: &Frame, force_redraw: bool)
    requires
        frame_wf(last),
        frame_wf(current),
    ensures
        apply_directives(grid(last), frame_directives(last, current, force_redraw)).len() == NUM_COLUMNS,
        forall|x: int, y: int|
            0 <= x < NUM_COLUMNS && 0 <= y < NUM_ROWS ==> #[trigger] apply_directives(
                grid(last),
                frame_directives(last, current, force_redraw),
            )[x][y] == cell(current, x, y),
{
    lemma_apply_prefix(last, current, force_redraw, num_cells());
    assert forall|x: int, y: int| 0 <= x < NUM_COLUMNS && 0 <= y < NUM_ROWS implies
        #[trigger] cell(current, x, y) == cell(current, x, y) && x * NUM_ROWS + y < num_cells() by {
        assert(x * 135 + y < 240 * 135) by (nonlinear_arith)
            requires
                0 <= x < 240,
                0 <= y < 135,
        ;
    }
}

} // verus!
