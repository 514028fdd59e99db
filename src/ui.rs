use vstd::prelude::*;

use crate::frame::{cell, frame_wf, Frame, TermColour, Tile};
use crate::render::grid;
use crate::{NUM_COLUMNS, NUM_ROWS};

verus! {

/// The longest of the first `n` lines, in characters.
pub open spec fn widest(lines: Seq<Seq<char>>, n: int) -> int
    decreases n,
{
    if n <= 0 {
        0
    } else {
        let rest = widest(lines, n - 1);
        if lines[n - 1].len() > rest {
            lines[n - 1].len() as int
        } else {
            rest
        }
    }
}

/// The border glyph at column `lx`, row `ly` of a box `w` wide and `h`
/// high: slashes at the corners, bars on the sides and dashes on top and
/// bottom; blank inside.
pub open spec fn border_icon(lx: int, ly: int, w: int, h: int) -> char {
    if (lx == 0 && ly == 0) || (lx == w - 1 && ly == h - 1) {
        '/'
    } else if (lx == 0 && ly == h - 1) || (lx == w - 1 && ly == 0) {
        '\\'
    } else if lx == 0 || lx == w - 1 {
        '|'
    } else if ly == 0 || ly == h - 1 {
        '-'
    } else {
        ' '
    }
}

/// The glyph at column `lx`, row `ly` of a window around `lines`: the text
/// starts two cells in from the top left corner, within the border.
pub open spec fn window_icon(lines: Seq<Seq<char>>, lx: int, ly: int) -> char {
    let w = widest(lines, lines.len() as int) + 4;
    let h = lines.len() as int + 4;
    if 2 <= ly < lines.len() + 2 && 2 <= lx < lines[ly - 2].len() + 2 {
        lines[ly - 2][lx - 2]
    } else {
        border_icon(lx, ly, w, h)
    }
}

/// The cell at column `x`, row `y` after a window around `lines` is drawn
/// with its top left corner at (`wx`, `wy`), over `previous`.
pub open spec fn window_cell(
    lines: Seq<Seq<char>>,
    wx: int,
    wy: int,
    fg: TermColour,
    bg: TermColour,
    x: int,
    y: int,
    previous: Tile,
) -> Tile {
    let w = widest(lines, lines.len() as int) + 4;
    let h = lines.len() as int + 4;
    if wx <= x < wx + w && wy <= y < wy + h {
        Tile { icon: window_icon(lines, x - wx, y - wy), background_colour: bg, foreground_colour: fg }
    } else {
        previous
    }
}

/// The text of each line.
pub open spec fn line_text(lines: Seq<&str>) -> Seq<Seq<char>> {
    lines.map_values(|l: &str| l@)
}

proof fn lemma_greatest_width_bounds(lines: Seq<Seq<char>>, n: int)
    requires
        0 <= n <= lines.len(),
    ensures
        0 <= widest(lines, n),
        forall|i: int| 0 <= i < n ==> #[trigger] lines[i].len() <= widest(lines, n),
    decreases n,
{
    if n > 0 {
        lemma_greatest_width_bounds(lines, n - 1);
    }
}

/// Draws a box with `lines` of text in it onto the frame, its top left
/// corner at column `window_x`, row `window_y`, clipped to the frame.
pub fn draw_window(
    window_x: usize,
    window_y: usize,
    lines: Vec<&str>,
    current_frame: &mut Frame,
    foreground_colour: TermColour,
    background_colour: TermColour,
)
    requires
        frame_wf(old(current_frame)),
    ensures
        frame_wf(final(current_frame)),
        forall|x: int, y: int|
            0 <= x < NUM_COLUMNS && 0 <= y < NUM_ROWS ==> #[trigger] cell(final(current_frame), x, y) == window_cell(
                line_text(lines@),
                window_x as int,
                window_y as int,
                foreground_colour,
                background_colour,
                x,
                y,
                cell(old(current_frame), x, y),
            ),
{
    let ghost text = line_text(lines@);
    let mut greatest_width: usize = 0;
    let mut i: usize = 0;
    while i < lines.len()
        invariant
            i <= lines@.len(),
            text == line_text(lines@),
            greatest_width == widest(text, i as int),
        decreases lines@.len() - i,
    {
        let len = lines[i].unicode_len();
        if len > greatest_width {
            greatest_width = len;
        }
        i = i + 1;
    }
    proof {
        lemma_greatest_width_bounds(text, text.len() as int);
    }
    let num_lines = lines.len();
    // Any position past the frame's edge stands for the far border when the
    // box is wider or taller than the frame.
    let right: usize = if greatest_width < NUM_COLUMNS { greatest_width + 3 } else { NUM_COLUMNS + 3 };
    let bottom: usize = if num_lines < NUM_ROWS { num_lines + 3 } else { NUM_ROWS + 3 };
    if window_x >= NUM_COLUMNS || window_y >= NUM_ROWS {
        return;
    }
    assert(text.len() == num_lines);
    let end_x: usize = if NUM_COLUMNS - window_x < right + 1 { NUM_COLUMNS } else { window_x + right + 1 };
    let end_y: usize = if NUM_ROWS - window_y < bottom + 1 { NUM_ROWS } else { window_y + bottom + 1 };
    let mut y: usize = window_y;
    assert forall|a: int, b: int|
        0 <= a < NUM_COLUMNS && 0 <= b < window_y implies #[trigger] cell(current_frame, a, b) ==
            window_cell(text, window_x as int, window_y as int, foreground_colour, background_colour, a, b, cell(old(current_frame), a, b)) by {}
    while y < end_y
        invariant
            num_lines == lines@.len(),
            text == line_text(lines@),
            greatest_width == widest(text, text.len() as int),
            right == if greatest_width < NUM_COLUMNS { greatest_width + 3 } else { NUM_COLUMNS as int + 3 },
            bottom == if num_lines < NUM_ROWS { num_lines + 3 } else { NUM_ROWS as int + 3 },
            end_x == if NUM_COLUMNS - window_x < right + 1 { NUM_COLUMNS as int } else { window_x + right + 1 },
            end_y == if NUM_ROWS - window_y < bottom + 1 { NUM_ROWS as int } else { window_y + bottom + 1 },
            window_y <= y <= end_y <= NUM_ROWS,
            window_x < end_x <= NUM_COLUMNS,
            frame_wf(current_frame),
            forall|a: int, b: int|
                0 <= a < NUM_COLUMNS && 0 <= b < NUM_ROWS ==> #[trigger] cell(current_frame, a, b) == if b < y {
                    window_cell(text, window_x as int, window_y as int, foreground_colour, background_colour, a, b, cell(old(current_frame), a, b))
                } else {
                    cell(old(current_frame), a, b)
                },
        decreases end_y - y,
    {
        let mut x: usize = window_x;
        assert forall|a: int, b: int|
            0 <= a < window_x && b == y implies #[trigger] cell(current_frame, a, b) ==
                window_cell(text, window_x as int, window_y as int, foreground_colour, background_colour, a, b, cell(old(current_frame), a, b)) by {}
        while x < end_x
            invariant
                num_lines == lines@.len(),
                text == line_text(lines@),
                greatest_width == widest(text, text.len() as int),
                right == if greatest_width < NUM_COLUMNS { greatest_width + 3 } else { NUM_COLUMNS as int + 3 },
                bottom == if num_lines < NUM_ROWS { num_lines + 3 } else { NUM_ROWS as int + 3 },
                end_x == if NUM_COLUMNS - window_x < right + 1 { NUM_COLUMNS as int } else { window_x + right + 1 },
                end_y == if NUM_ROWS - window_y < bottom + 1 { NUM_ROWS as int } else { window_y + bottom + 1 },
                window_y <= y < end_y <= NUM_ROWS,
                window_x <= x <= end_x <= NUM_COLUMNS,
                frame_wf(current_frame),
                forall|a: int, b: int|
                    0 <= a < NUM_COLUMNS && 0 <= b < NUM_ROWS ==> #[trigger] cell(current_frame, a, b) == if b < y || (b == y && a < x) {
                        window_cell(text, window_x as int, window_y as int, foreground_colour, background_colour, a, b, cell(old(current_frame), a, b))
                    } else {
                        cell(old(current_frame), a, b)
                    },
            decreases end_x - x,
        {
            let local_x = x - window_x;
            let local_y = y - window_y;
            let icon = if 2 <= local_y && local_y - 2 < num_lines && 2 <= local_x && local_x - 2 < lines[local_y - 2].unicode_len() {
                lines[local_y - 2].get_char(local_x - 2)
            } else if (local_x == 0 && local_y == 0) || (local_x == right && local_y == bottom) {
                '/'
            } else if (local_x == 0 && local_y == bottom) || (local_x == right && local_y == 0) {
                '\\'
            } else if local_x == 0 || local_x == right {
                '|'
            } else if local_y == 0 || local_y == bottom {
                '-'
            } else {
                ' '
            };
            let ghost prev = *current_frame;
            current_frame[x][y] = Tile { icon, background_colour, foreground_colour };
            proof {
                assert(grid(current_frame) =~~= grid(&prev).update(x as int, grid(&prev)[x as int].update(y as int, Tile { icon, background_colour, foreground_colour })));
                assert(icon == window_icon(text, local_x as int, local_y as int));
                assert forall|a: int, b: int|
                    0 <= a < NUM_COLUMNS && 0 <= b < NUM_ROWS implies #[trigger] cell(current_frame, a, b) == if b < y || (b == y && a < x + 1) {
                        window_cell(text, window_x as int, window_y as int, foreground_colour, background_colour, a, b, cell(old(current_frame), a, b))
                    } else {
                        cell(old(current_frame), a, b)
                    } by {
                    assert(cell(current_frame, a, b) == grid(current_frame)[a][b]);
                    assert(cell(&prev, a, b) == grid(&prev)[a][b]);
                }
            }
            x = x + 1;
        }
        assert forall|a: int, b: int|
            end_x <= a < NUM_COLUMNS && b == y implies #[trigger] cell(current_frame, a, b) ==
                window_cell(text, window_x as int, window_y as int, foreground_colour, background_colour, a, b, cell(old(current_frame), a, b)) by {}
        y = y + 1;
    }
    assert forall|a: int, b: int|
        0 <= a < NUM_COLUMNS && end_y <= b < NUM_ROWS implies #[trigger] cell(current_frame, a, b) ==
            window_cell(text, window_x as int, window_y as int, foreground_colour, background_colour, a, b, cell(old(current_frame), a, b)) by {}
}

} // verus!
