use digital_rain::choices::CharsetChoices;
use digital_rain::color::{green_palette, ColorPickerOption};
use digital_rain::rain::skip_for;
use digital_rain::screen::Screen;

fn choices(ascii: bool, hiragana: bool, cjk: bool) -> CharsetChoices {
    CharsetChoices { ascii, hiragana, cjk }
}

fn snapshot(screen: &Screen) -> Vec<Vec<(char, u8)>> {
    let mut rows = Vec::new();
    for y in 0..screen.rows() {
        let mut row = Vec::new();
        for x in 0..screen.columns() {
            row.push(screen.get_cell(x, y));
        }
        rows.push(row);
    }
    rows
}

fn counters(screen: &Screen) -> Vec<i8> {
    (0..screen.columns()).map(|x| screen.producing(x)).collect()
}

/// A buffer in which every cell has its own glyph and rows alternate colours.
fn patterned(columns: u16, height: u16) -> Screen {
    let mut screen =
        Screen::new(ColorPickerOption::Greens, choices(true, false, false), Some((columns, height)));
    let letters: Vec<char> = ('a'..='z').collect();
    for y in 0..screen.rows() {
        for x in 0..screen.columns() {
            let glyph = letters[(x * 7 + y * 3) % 26];
            let color = if y % 2 == 0 { 10 } else { 20 };
            screen.set_cell(x, y, Some(glyph), Some(color));
        }
    }
    screen
}

#[test]
fn skip_is_one_less_than_the_width() {
    assert_eq!(skip_for(None), 0);
    assert_eq!(skip_for(Some(0)), 0);
    assert_eq!(skip_for(Some(1)), 0);
    assert_eq!(skip_for(Some(2)), 1);
    assert_eq!(skip_for(Some(3)), 2);
}

#[test]
fn scroll_cell_always_moves_the_glyph() {
    for draw in 0..15 {
        let mut screen = patterned(6, 8);
        let above = screen.get_cell(2, 3);
        let here = screen.get_cell(2, 4);
        assert_ne!(above.1, here.1);
        let before = snapshot(&screen);
        screen.scroll_cell(2, 4, draw);
        let expected_color = if draw == 14 { above.1 } else { here.1 };
        assert_eq!(screen.get_cell(2, 4), (above.0, expected_color));
        let after = snapshot(&screen);
        for y in 0..screen.rows() {
            for x in 0..screen.columns() {
                if (x, y) != (2, 4) {
                    assert_eq!(after[y][x], before[y][x]);
                }
            }
        }
    }
}

#[test]
fn scroll_conserves_glyphs() {
    let mut screen = patterned(40, 20);
    let before = snapshot(&screen);
    let counts = counters(&screen);
    screen.scroll();
    let after = snapshot(&screen);
    assert_eq!(after[0], before[0]);
    for y in 1..screen.rows() {
        for x in 0..screen.columns() {
            assert_eq!(after[y][x].0, before[y - 1][x].0);
            assert!(after[y][x].1 == before[y][x].1 || after[y][x].1 == before[y - 1][x].1);
        }
    }
    assert_eq!(counters(&screen), counts);
}

#[test]
fn scroll_carries_a_color_about_once_in_fifteen() {
    let mut carried: u32 = 0;
    let mut trials: u32 = 0;
    for _ in 0..10 {
        let mut screen = patterned(80, 24);
        let before = snapshot(&screen);
        screen.scroll();
        let after = snapshot(&screen);
        for y in 1..screen.rows() {
            for x in 0..screen.columns() {
                trials += 1;
                if after[y][x].1 == before[y - 1][x].1 {
                    carried += 1;
                }
            }
        }
    }
    assert_eq!(trials, 17600);
    assert!(carried > 900 && carried < 1450, "carried {} of {}", carried, trials);
}

#[test]
fn scroll_of_a_single_row_changes_nothing() {
    let mut screen = patterned(9, 2);
    assert_eq!(screen.rows(), 1);
    let before = snapshot(&screen);
    screen.scroll();
    assert_eq!(snapshot(&screen), before);
}

#[test]
fn put_blank_keeps_the_color_and_counts_down() {
    let mut screen = patterned(5, 8);
    screen.set_producing(3, 4);
    let before = snapshot(&screen);
    screen.put_blank(3);
    assert_eq!(screen.get_cell(3, 0), (' ', before[0][3].1));
    assert_eq!(screen.producing(3), 3);
    let after = snapshot(&screen);
    for y in 0..screen.rows() {
        for x in 0..screen.columns() {
            if (x, y) != (3, 0) {
                assert_eq!(after[y][x], before[y][x]);
            }
        }
    }
    assert_eq!(counters(&screen), vec![0, 0, 0, 3, 0]);
}

#[test]
fn put_glyph_takes_the_color_if_there_is_one() {
    let mut screen = patterned(5, 8);
    screen.set_producing(1, 0);
    screen.put_glyph(1, 'Q', None);
    assert_eq!(screen.get_cell(1, 0), ('Q', 10));
    assert_eq!(screen.producing(1), -1);
    screen.put_glyph(1, 'R', Some(46));
    assert_eq!(screen.get_cell(1, 0), ('R', 46));
    assert_eq!(screen.producing(1), -2);
    assert_eq!(counters(&screen), vec![0, -2, 0, 0, 0]);
}

#[test]
fn produce_counts_every_column_down_by_one() {
    let mut screen =
        Screen::new(ColorPickerOption::Greens, choices(true, true, true), Some((9, 12)));
    let starts: [i8; 9] = [5, 0, -3, 1, 127, -127, 2, -1, 9];
    for (x, start) in starts.iter().enumerate() {
        screen.set_producing(x, *start);
    }
    screen.produce();
    for (x, start) in starts.iter().enumerate() {
        assert_eq!(screen.producing(x), *start - 1);
    }
}

#[test]
fn produce_blanks_idle_columns_and_leaves_other_rows() {
    let mut screen = patterned(12, 10);
    let before = snapshot(&screen);
    screen.produce();
    let after = snapshot(&screen);
    for x in 0..screen.columns() {
        assert_eq!(after[0][x], (' ', before[0][x].1));
        assert_eq!(screen.producing(x), -1);
    }
    for y in 1..screen.rows() {
        assert_eq!(after[y], before[y]);
    }
}

#[test]
fn produce_spawns_ascii_glyphs_in_active_columns() {
    let palette = green_palette();
    let mut fresh_colors: u32 = 0;
    let mut kept_colors: u32 = 0;
    for _ in 0..50 {
        let mut screen =
            Screen::new(ColorPickerOption::Greens, choices(true, false, false), Some((40, 10)));
        for x in 0..40 {
            screen.set_cell(x, 0, None, Some(9));
            if x % 2 == 0 {
                screen.set_producing(x, 3);
            }
        }
        screen.produce();
        for x in 0..40 {
            let (glyph, color) = screen.get_cell(x, 0);
            if x % 2 == 0 {
                assert!(glyph.is_ascii_alphanumeric());
                assert!(color == 9 || palette.contains(&color));
                if color == 9 {
                    kept_colors += 1;
                } else {
                    fresh_colors += 1;
                }
                assert_eq!(screen.producing(x), 2);
            } else {
                assert_eq!((glyph, color), (' ', 9));
                assert_eq!(screen.producing(x), -1);
            }
        }
    }
    assert_eq!(fresh_colors + kept_colors, 1000);
    assert!(fresh_colors > 350 && fresh_colors < 650, "fresh {}", fresh_colors);
}

#[test]
fn produce_leaves_a_gap_after_a_wide_glyph() {
    let mut screen =
        Screen::new(ColorPickerOption::Greens, choices(false, false, true), Some((11, 10)));
    for x in 0..11 {
        screen.set_producing(x, 4);
    }
    screen.produce();
    for x in 0..11 {
        let (glyph, _) = screen.get_cell(x, 0);
        if x % 2 == 0 {
            assert!(('\u{4E00}'..='\u{9FFF}').contains(&glyph));
        } else {
            assert_eq!(glyph, ' ');
        }
        assert_eq!(screen.producing(x), 3);
    }
}

#[test]
fn produce_draws_from_every_enabled_table() {
    let mut seen_ascii = false;
    let mut seen_hiragana = false;
    for _ in 0..40 {
        let mut screen =
            Screen::new(ColorPickerOption::Any, choices(true, true, false), Some((30, 10)));
        for x in 0..30 {
            screen.set_producing(x, 1);
        }
        screen.produce();
        for x in 0..30 {
            let (glyph, _) = screen.get_cell(x, 0);
            if glyph.is_ascii_alphanumeric() {
                seen_ascii = true;
            } else if ('\u{3041}'..='\u{309F}').contains(&glyph) {
                seen_hiragana = true;
            } else {
                assert_eq!(glyph, ' ');
            }
        }
    }
    assert!(seen_ascii && seen_hiragana);
}

#[test]
fn random_glyph_comes_from_a_table() {
    let screen = Screen::new(ColorPickerOption::Any, choices(false, true, false), Some((3, 8)));
    for _ in 0..500 {
        let glyph = screen.random_glyph();
        assert!(screen.character_sets()[0].contains(&glyph));
    }
}

#[test]
fn columns_at_or_above_the_threshold_are_never_reset() {
    let mut screen =
        Screen::new(ColorPickerOption::Greens, choices(true, false, false), Some((80, 24)));
    assert_eq!(screen.rows() / 2, 11);
    let starts: Vec<i8> = (0..80).map(|x| (x as i8) - 11).collect();
    for _ in 0..50 {
        for (x, start) in starts.iter().enumerate() {
            screen.set_producing(x, *start);
        }
        screen.reset_producing();
        assert_eq!(counters(&screen), starts);
    }
}

#[test]
fn columns_below_the_threshold_restart_about_half_the_time() {
    let mut screen =
        Screen::new(ColorPickerOption::Greens, choices(true, false, false), Some((80, 24)));
    let mut restarted: u32 = 0;
    let mut seen = [false; 23];
    for round in 0..50 {
        let start: i8 = if round % 2 == 0 { -12 } else { -128 };
        for x in 0..80 {
            screen.set_producing(x, start);
        }
        let before = snapshot(&screen);
        screen.reset_producing();
        assert_eq!(snapshot(&screen), before);
        for x in 0..80 {
            let now = screen.producing(x);
            if now != start {
                assert!(5 <= now && now < 23);
                seen[now as usize] = true;
                restarted += 1;
            }
        }
    }
    assert!(restarted > 1600 && restarted < 2400, "restarted {}", restarted);
    for value in 5..23 {
        assert!(seen[value]);
    }
}

#[test]
fn ready_names_what_tick_needs() {
    let fine = Screen::new(ColorPickerOption::Greens, choices(true, false, false), Some((80, 24)));
    assert!(fine.ready());
    let low = Screen::new(ColorPickerOption::Greens, choices(true, false, false), Some((80, 6)));
    assert_eq!(low.rows(), 5);
    assert!(!low.ready());
    let lowest_fine =
        Screen::new(ColorPickerOption::Greens, choices(true, false, false), Some((80, 7)));
    assert!(lowest_fine.ready());
    let tallest_fine =
        Screen::new(ColorPickerOption::Greens, choices(true, false, false), Some((80, 129)));
    assert_eq!(tallest_fine.rows(), 128);
    assert!(tallest_fine.ready());
    let tall = Screen::new(ColorPickerOption::Greens, choices(true, false, false), Some((80, 130)));
    assert!(!tall.ready());
    let no_glyphs =
        Screen::new(ColorPickerOption::Greens, choices(false, false, false), Some((80, 24)));
    assert!(!no_glyphs.ready());
    let mut spent =
        Screen::new(ColorPickerOption::Greens, choices(true, false, false), Some((80, 24)));
    spent.set_producing(79, -128);
    assert!(!spent.ready());
    spent.set_producing(79, -127);
    assert!(spent.ready());
}

#[test]
fn one_tick_of_a_fresh_buffer() {
    let palette = green_palette();
    let mut screen =
        Screen::new(ColorPickerOption::Greens, choices(true, false, false), Some((80, 24)));
    assert_eq!((screen.columns(), screen.rows()), (80, 23));
    let producing: Vec<bool> = counters(&screen).iter().map(|c| *c > 0).collect();
    assert!(screen.ready());
    screen.tick();
    for x in 0..80 {
        let (glyph, color) = screen.get_cell(x, 0);
        if producing[x] {
            assert!(glyph.is_ascii_alphanumeric());
        }
        assert!(palette.contains(&color));
    }
}

#[test]
fn one_tick_with_active_columns() {
    let palette = green_palette();
    for _ in 0..20 {
        let mut screen =
            Screen::new(ColorPickerOption::Greens, choices(true, false, false), Some((80, 24)));
        for x in 0..80 {
            screen.set_producing(x, (x % 7) as i8);
        }
        let before_counts = counters(&screen);
        screen.tick();
        for x in 0..80 {
            let (glyph, color) = screen.get_cell(x, 0);
            if before_counts[x] > 0 {
                assert!(glyph.is_ascii_alphanumeric());
            } else {
                assert_eq!(glyph, ' ');
            }
            assert!(palette.contains(&color));
            assert_eq!(screen.producing(x), before_counts[x] - 1);
        }
    }
}

#[test]
fn tick_moves_every_glyph_down_and_counts_down() {
    let mut screen = patterned(30, 16);
    for x in 0..30 {
        screen.set_producing(x, (x as i8) - 20);
    }
    for _ in 0..40 {
        if !screen.ready() {
            break;
        }
        let before = snapshot(&screen);
        let counts = counters(&screen);
        screen.tick();
        let after = snapshot(&screen);
        for y in 1..screen.rows() {
            for x in 0..screen.columns() {
                assert_eq!(after[y][x].0, before[y - 1][x].0);
                assert!(after[y][x].1 == before[y][x].1 || after[y][x].1 == before[y - 1][x].1);
            }
        }
        for x in 0..screen.columns() {
            let now = screen.producing(x);
            let dropped = counts[x] - 1;
            assert!(now == dropped || (dropped < -7 && 5 <= now && now < 15));
            if counts[x] <= 0 {
                assert_eq!(after[0][x], (' ', before[0][x].1));
            } else {
                assert!(after[0][x].0.is_ascii_alphanumeric());
            }
        }
    }
}

#[test]
fn a_long_run_keeps_the_rain_falling() {
    let mut screen =
        Screen::new(ColorPickerOption::Any, choices(true, true, true), Some((60, 30)));
    let mut glyphs_seen = false;
    for _ in 0..200 {
        assert!(screen.ready());
        screen.tick();
        assert!(screen.is_printable());
        for x in 0..screen.columns() {
            if screen.get_cell(x, 0).0 != ' ' {
                glyphs_seen = true;
            }
        }
    }
    assert!(glyphs_seen);
}
