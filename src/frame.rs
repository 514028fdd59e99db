use vstd::prelude::*;

use crate::{NUM_COLUMNS, NUM_ROWS};

verus! {

/// The concrete colours a cell of the display can show.
#[derive(Clone, Copy, Debug, PartialEq, Eq, Structural)]
pub enum TermColour {
    Black,
    DarkGrey,
    Grey,
    White,
    DarkRed,
    Red,
    DarkYellow,
    Yellow,
    DarkGreen,
    Green,
    DarkCyan,
    Cyan,
    DarkBlue,
    Blue,
    DarkMagenta,
    Magenta,
}

/// One cell of the display: a glyph with its two colours.
#[derive(Clone, Copy, Debug, PartialEq, Eq, Structural)]
pub struct Tile {
    pub icon: char,
    pub background_colour: TermColour,
    pub foreground_colour: TermColour,
}

/// A full display grid, indexed as `frame[column][row]`.
pub type Frame = Vec<Vec<Tile>>;

/// The cell every fresh frame starts with.
pub open spec fn blank_tile() -> Tile {
    Tile { icon: ' ', background_colour: TermColour::Black, foreground_colour: TermColour::White }
}

/// The frame has `NUM_COLUMNS` columns of `NUM_ROWS` cells each.
pub open spec fn frame_wf(frame: &Frame) -> bool {
    &&& frame@.len() == NUM_COLUMNS
    &&& forall|x: int| 0 <= x < NUM_COLUMNS ==> #[trigger] frame@[x]@.len() == NUM_ROWS
}

/// The cell at column `x`, row `y`.
pub open spec fn cell(frame: &Frame, x: int, y: int) -> Tile {
    frame@[x]@[y]
}

/// Builds a frame of blank cells.
pub fn new_frame() -> (frame: Frame)
    ensures
        frame_wf(&frame),
        forall|x: int, y: int|
            0 <= x < NUM_COLUMNS && 0 <= y < NUM_ROWS ==> #[trigger] cell(&frame, x, y) == blank_tile(),
{
    let mut columns: Vec<Vec<Tile>> = Vec::with_capacity(NUM_COLUMNS);
    let mut x: usize = 0;
    while x < NUM_COLUMNS
        invariant
            x <= NUM_COLUMNS,
            columns@.len() == x,
            forall|i: int| 0 <= i < x ==> #[trigger] columns@[i]@.len() == NUM_ROWS,
            forall|i: int, j: int|
                0 <= i < x && 0 <= j < NUM_ROWS ==> #[trigger] columns@[i]@[j] == blank_tile(),
        decreases NUM_COLUMNS - x,
    {
        let mut column: Vec<Tile> = Vec::with_capacity(NUM_ROWS);
        let mut y: usize = 0;
        while y < NUM_ROWS
            invariant
                y <= NUM_ROWS,
                column@.len() == y,
                forall|j: int| 0 <= j < y ==> #[trigger] column@[j] == blank_tile(),
            decreases NUM_ROWS - y,
        {
            column.push(Tile {
                icon: ' ',
                background_colour: TermColour::Black,
                foreground_colour: TermColour::White,
            });
            y = y + 1;
        }
        columns.push(column);
        x = x + 1;
    }
    columns
}

/// Something that can paint itself onto a frame.
pub trait Drawable {
    /// The drawable is in a state that can be drawn.
    spec fn ready(&self) -> bool;

    fn draw(&self, frame: &mut Frame)
        requires
            self.ready(),
            frame_wf(old(frame)),
        ensures
            frame_wf(final(frame)),
    ;
}

} // verus!
