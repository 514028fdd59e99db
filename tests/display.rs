use terminal_fireworks::frame::{new_frame, Frame, TermColour, Tile};
use terminal_fireworks::render::{render, Directive};
use terminal_fireworks::ui::draw_window;
use terminal_fireworks::{NUM_COLUMNS, NUM_ROWS};

fn apply(frame: &mut Frame, directives: &[Directive]) {
    for d in directives {
        frame[d.x][d.y] = d.tile;
    }
}

#[test]
fn new_frame_is_blank() {
    let frame = new_frame();
    assert_eq!(frame.len(), NUM_COLUMNS);
    for column in frame.iter() {
        assert_eq!(column.len(), NUM_ROWS);
        for tile in column.iter() {
            assert_eq!(*tile, Tile { icon: ' ', background_colour: TermColour::Black, foreground_colour: TermColour::White });
        }
    }
}

#[test]
fn unchanged_frame_renders_nothing() {
    let last = new_frame();
    let current = new_frame();
    assert!(render(&last, &current, false).is_empty());
    assert!(render(&last, &current, false).is_empty());
}

#[test]
fn changed_cells_render_in_column_order() {
    let last = new_frame();
    let mut current = new_frame();
    let star = Tile { icon: '*', background_colour: TermColour::DarkRed, foreground_colour: TermColour::Yellow };
    current[7][2] = star;
    current[3][4] = star;
    current[3][1].background_colour = TermColour::Blue;
    let directives = render(&last, &current, false);
    assert_eq!(directives.len(), 3);
    assert_eq!((directives[0].x, directives[0].y), (3, 1));
    assert_eq!(directives[0].tile.background_colour, TermColour::Blue);
    assert_eq!(directives[1], Directive { x: 3, y: 4, tile: star });
    assert_eq!(directives[2], Directive { x: 7, y: 2, tile: star });
}

#[test]
fn forced_redraw_writes_every_cell() {
    let frame = new_frame();
    let directives = render(&frame, &frame, true);
    assert_eq!(directives.len(), NUM_COLUMNS * NUM_ROWS);
    assert_eq!((directives[0].x, directives[0].y), (0, 0));
    assert_eq!((directives[1].x, directives[1].y), (0, 1));
    assert_eq!((directives[NUM_ROWS].x, directives[NUM_ROWS].y), (1, 0));
}

#[test]
fn directives_turn_last_into_current() {
    let last = new_frame();
    let mut current = new_frame();
    current[0][0].icon = '#';
    current[239][134].foreground_colour = TermColour::Green;
    current[100][50] = Tile { icon: '|', background_colour: TermColour::Blue, foreground_colour: TermColour::Cyan };
    for force in [false, true] {
        let directives = render(&last, &current, force);
        let mut shown = new_frame();
        apply(&mut shown, &directives);
        assert!(shown == current);
    }
    let directives = render(&last, &current, false);
    let mut shown = new_frame();
    apply(&mut shown, &directives);
    assert!(render(&shown, &current, false).is_empty());
}

#[test]
fn window_draws_border_and_text() {
    let mut frame = new_frame();
    draw_window(1, 1, vec!["Hi", "abc"], &mut frame, TermColour::White, TermColour::Black);
    let icon = |x: usize, y: usize| frame[x][y].icon;
    assert_eq!(icon(1, 1), '/');
    assert_eq!(icon(7, 1), '\\');
    assert_eq!(icon(1, 6), '\\');
    assert_eq!(icon(7, 6), '/');
    assert_eq!(icon(2, 1), '-');
    assert_eq!(icon(4, 6), '-');
    assert_eq!(icon(1, 2), '|');
    assert_eq!(icon(7, 4), '|');
    assert_eq!(icon(3, 3), 'H');
    assert_eq!(icon(4, 3), 'i');
    assert_eq!(icon(5, 3), ' ');
    assert_eq!(icon(3, 4), 'a');
    assert_eq!(icon(5, 4), 'c');
    assert_eq!(icon(8, 1), ' ');
    assert_eq!(frame[8][1].foreground_colour, TermColour::White);
    assert_eq!(frame[0][0].icon, ' ');
}

#[test]
fn window_is_clipped_at_the_edge() {
    let mut frame = new_frame();
    draw_window(NUM_COLUMNS - 2, NUM_ROWS - 1, vec!["long line"], &mut frame, TermColour::Red, TermColour::Blue);
    assert_eq!(frame[NUM_COLUMNS - 2][NUM_ROWS - 1].icon, '/');
    assert_eq!(frame[NUM_COLUMNS - 1][NUM_ROWS - 1].icon, '-');
    assert_eq!(frame[NUM_COLUMNS - 1][NUM_ROWS - 1].background_colour, TermColour::Blue);
    assert_eq!(frame[NUM_COLUMNS - 3][NUM_ROWS - 1].icon, ' ');
    let mut untouched = new_frame();
    draw_window(NUM_COLUMNS, 0, vec!["x"], &mut untouched, TermColour::Red, TermColour::Blue);
    assert!(untouched == new_frame());
}
