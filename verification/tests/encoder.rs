use digital_rain::choices::CharsetChoices;
use digital_rain::color::ColorPickerOption;
use digital_rain::command::{serialize, AnsiCommand};
use digital_rain::screen::Screen;

fn buffer(columns: u16, height: u16) -> Screen {
    Screen::new(
        ColorPickerOption::Greens,
        CharsetChoices { ascii: true, hiragana: false, cjk: false },
        Some((columns, height)),
    )
}

/// The columns that the frame's cursor moves name for the cells of row `y`.
fn offsets(screen: &Screen, y: usize) -> Vec<u32> {
    let frame = screen.render().unwrap();
    let width = 1 + 3 * screen.columns();
    let mut found = Vec::new();
    for x in 0..screen.columns() {
        match frame[1 + y * width + 1 + 3 * x] {
            AnsiCommand::Move(column, row) => {
                assert_eq!(row as usize, y);
                found.push(column);
            }
            _ => panic!("a cell starts with a move"),
        }
    }
    found
}

#[test]
fn an_empty_buffer_only_moves_to_the_origin() {
    let no_rows = buffer(5, 0);
    assert_eq!(no_rows.render(), Some(vec![AnsiCommand::Move(0, 0)]));
    let no_columns = buffer(0, 3);
    assert_eq!(
        no_columns.render(),
        Some(vec![AnsiCommand::Move(0, 0), AnsiCommand::Move(1, 0), AnsiCommand::Move(1, 1)])
    );
}

#[test]
fn a_small_frame_in_full() {
    let mut screen = buffer(2, 3);
    screen.set_cell(0, 0, Some('a'), Some(1));
    screen.set_cell(1, 0, Some('b'), Some(2));
    screen.set_cell(0, 1, Some('c'), Some(3));
    screen.set_cell(1, 1, Some('d'), Some(4));
    let expected = vec![
        AnsiCommand::Move(0, 0),
        AnsiCommand::Move(1, 0),
        AnsiCommand::Move(0, 0),
        AnsiCommand::Color256(1, false),
        AnsiCommand::Cell('a'),
        AnsiCommand::Move(1, 0),
        AnsiCommand::Color256(2, false),
        AnsiCommand::Cell('b'),
        AnsiCommand::Move(1, 1),
        AnsiCommand::Move(0, 1),
        AnsiCommand::Color256(3, false),
        AnsiCommand::Cell('c'),
        AnsiCommand::Move(1, 1),
        AnsiCommand::Color256(4, false),
        AnsiCommand::Cell('d'),
    ];
    assert_eq!(screen.render(), Some(expected));
}

#[test]
fn to_commands_appends_the_frame() {
    let mut screen = buffer(3, 4);
    screen.set_cell(1, 2, Some('z'), Some(70));
    let mut commands = vec![AnsiCommand::Reset, AnsiCommand::EraseLine];
    screen.to_commands(&mut commands);
    let frame = screen.render().unwrap();
    assert_eq!(commands.len(), 2 + frame.len());
    assert_eq!(commands[0], AnsiCommand::Reset);
    assert_eq!(commands[1], AnsiCommand::EraseLine);
    assert_eq!(commands[2..], frame[..]);
}

#[test]
fn a_frame_has_one_move_per_row_and_three_commands_per_cell() {
    let screen = buffer(80, 24);
    let frame = screen.render().unwrap();
    assert_eq!(frame.len(), 1 + 23 * (1 + 3 * 80));
    assert_eq!(frame[0], AnsiCommand::Move(0, 0));
    for y in 0..23 {
        assert_eq!(frame[1 + y * 241], AnsiCommand::Move(1, y as u32));
        for x in 0..80 {
            let at = 1 + y * 241 + 1 + 3 * x;
            assert_eq!(frame[at], AnsiCommand::Move(x as u32, y as u32));
            assert_eq!(frame[at + 1], AnsiCommand::Color256(255, false));
            assert_eq!(frame[at + 2], AnsiCommand::Cell(' '));
        }
    }
}

#[test]
fn in_a_narrow_row_the_cursor_column_is_the_cell_index() {
    let mut screen = buffer(26, 3);
    for (x, glyph) in ('a'..='z').enumerate() {
        screen.set_cell(x, 1, Some(glyph), None);
    }
    let expected: Vec<u32> = (0..26).collect();
    assert_eq!(offsets(&screen, 0), expected);
    assert_eq!(offsets(&screen, 1), expected);
}

#[test]
fn a_wide_glyph_shifts_what_follows_by_one() {
    for k in 0..8 {
        let mut screen = buffer(8, 3);
        screen.set_cell(k, 1, Some('\u{4E16}'), None);
        let expected: Vec<u32> =
            (0..8usize).map(|x| if x > k { x as u32 + 1 } else { x as u32 }).collect();
        assert_eq!(offsets(&screen, 1), expected);
        let narrow: Vec<u32> = (0..8).collect();
        assert_eq!(offsets(&screen, 0), narrow);
    }
}

#[test]
fn widths_add_up_along_a_row() {
    let mut screen = buffer(6, 2);
    screen.set_cell(0, 0, Some('\u{3042}'), None);
    screen.set_cell(1, 0, Some('x'), None);
    screen.set_cell(2, 0, Some('\u{4E16}'), None);
    screen.set_cell(3, 0, Some('\u{754C}'), None);
    screen.set_cell(4, 0, Some('\u{0301}'), None);
    screen.set_cell(5, 0, Some('y'), None);
    assert_eq!(offsets(&screen, 0), vec![0, 2, 3, 5, 7, 7]);
}

#[test]
fn a_control_character_cannot_be_drawn() {
    let mut screen = buffer(4, 4);
    assert!(screen.is_printable());
    screen.set_cell(3, 2, Some('\n'), None);
    assert!(!screen.is_printable());
    assert_eq!(screen.render(), None);
    screen.set_cell(3, 2, Some('\u{85}'), None);
    assert_eq!(screen.render(), None);
    screen.set_cell(3, 2, Some('n'), None);
    assert!(screen.is_printable());
    assert!(screen.render().is_some());
}

#[test]
fn a_frame_as_text() {
    let mut screen = buffer(2, 2);
    screen.set_cell(0, 0, Some('\u{4E16}'), Some(46));
    screen.set_cell(1, 0, Some('k'), Some(34));
    let text = serialize(&screen.render().unwrap());
    assert_eq!(
        text,
        "\x1b[1;1H\x1b[1;2H\x1b[1;1H\x1b[38;5;46m\u{4E16}\x1b[1;3H\x1b[38;5;34mk"
    );
}
