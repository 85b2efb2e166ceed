use termbuf::{display_width, Color, Directive, Style, TermBuf, TermCell, TermSize};

#[test]
fn set_char_records_content_and_width() {
    let mut term = TermBuf::recording(TermSize { width: 10, height: 3 });
    term.set_char(2, 1, 'q');
    let cell = term.get(2, 1).unwrap();
    assert_eq!(cell.content, 'q');
    assert_eq!(cell, TermCell::with_char('q'));
    assert_eq!(display_width('q'), 1);

    term.set_char(4, 1, '世');
    assert_eq!(display_width('世'), 2);
    assert_eq!(term.get(4, 1).unwrap(), TermCell::with_char('世'));
}

#[test]
fn zero_width_characters_count_one_column() {
    // A combining accent reports zero columns; the cell still takes one.
    assert_eq!(display_width('\u{0301}'), 1);
    // Control characters report no width at all; they also take one.
    assert_eq!(display_width('\u{0007}'), 1);
}

#[test]
fn out_of_bounds_mutations_are_noops() {
    let mut term = TermBuf::recording(TermSize { width: 4, height: 3 });
    term.set_char(1, 1, 'a');

    term.set_char(4, 0, 'x');
    term.set_char(0, 3, 'x');
    term.set_char(usize::MAX, usize::MAX, 'x');
    term.set_cell(9, 9, TermCell::with_char('x'));
    term.set_cell_fg(4, 1, Color::Red);
    term.set_cell_bg(1, 7, Color::Blue);
    term.set_cell_style(17, 0, Style::bold());
    term.print(4, 0, "spill");
    term.print(0, 5, "spill");
    term.draw_box(10, 10, 5, 5);
    term.draw_horiztonal_line(6, 0, 9);
    term.draw_vertical_line(0, 9, 9);

    for y in 0..3 {
        for x in 0..4 {
            let expected = if x == 1 && y == 1 {
                TermCell::with_char('a')
            } else {
                TermCell::empty()
            };
            assert_eq!(term.get(x, y).unwrap(), expected);
        }
    }
    assert!(term.get(4, 0).is_none());
    assert!(term.get(0, 3).is_none());
}

#[test]
fn variable_width_advance() {
    let mut term = TermBuf::recording(TermSize { width: 10, height: 2 });
    term.print(0, 0, "世a");
    assert_eq!(term.get(0, 0).unwrap().content, '世');
    assert_eq!(term.get(1, 0).unwrap(), TermCell::empty());
    assert_eq!(term.get(2, 0).unwrap().content, 'a');
}

#[test]
fn box_outline() {
    let mut term = TermBuf::recording(TermSize { width: 10, height: 6 });
    term.set_char(4, 3, 'Z');
    term.draw_box(2, 2, 3, 1);

    assert_eq!(term.get(2, 2).unwrap().content, '┌');
    assert_eq!(term.get(6, 2).unwrap().content, '┐');
    assert_eq!(term.get(2, 4).unwrap().content, '└');
    assert_eq!(term.get(6, 4).unwrap().content, '┘');
    for x in 3..6 {
        assert_eq!(term.get(x, 2).unwrap().content, '─');
        assert_eq!(term.get(x, 4).unwrap().content, '─');
    }
    assert_eq!(term.get(2, 3).unwrap().content, '│');
    assert_eq!(term.get(6, 3).unwrap().content, '│');
    // The interior keeps its prior value.
    assert_eq!(term.get(4, 3).unwrap().content, 'Z');
}

#[test]
fn resize_discards_and_shrinks() {
    let mut term = TermBuf::recording(TermSize { width: 10, height: 5 });
    term.set_char(7, 4, '*');
    term.set_char(1, 1, '*');
    term.resize(TermSize { width: 3, height: 2 });

    for y in 0..2 {
        for x in 0..3 {
            assert_eq!(term.get(x, y).unwrap(), TermCell::empty());
        }
    }
    assert!(term.get(7, 4).is_none());
    assert!(term.get(3, 0).is_none());
    assert!(term.get(0, 2).is_none());
}

#[test]
fn flush_twice_emits_only_cursor_tail() {
    let mut term = TermBuf::recording(TermSize { width: 2, height: 2 });
    // No row may be fully blank: a blank row is re-cleared on every flush.
    term.set_char(0, 0, 'a');
    term.set_char(1, 0, 'b');
    term.set_char(0, 1, 'c');
    term.set_char(1, 1, 'd');
    term.flush().unwrap();
    let n1 = term.recorded().unwrap().len();
    term.flush().unwrap();
    let rec = term.recorded().unwrap();
    assert_eq!(rec.len(), n1 + 2);
    assert_eq!(rec[n1], Directive::Goto(1, 1));
    assert_eq!(rec[n1 + 1], Directive::Flush);
}

#[test]
fn blank_row_is_cleared_even_against_nonblank_snapshot() {
    let mut term = TermBuf::recording(TermSize { width: 3, height: 1 });
    term.set_char(0, 0, 'x');
    term.flush().unwrap();
    let n1 = term.recorded().unwrap().len();
    // The row becomes fully blank; the snapshot for it is not.
    term.clear().unwrap();
    term.flush().unwrap();
    let rec = term.recorded().unwrap();
    let second = &rec[n1..];
    let pair = second
        .windows(2)
        .any(|w| w[0] == Directive::Goto(1, 1) && w[1] == Directive::ClearLine);
    assert!(pair);
}

#[test]
fn cursor_hidden_then_closed_ends_shown() {
    let mut term = TermBuf::recording(TermSize { width: 2, height: 1 });
    term.set_cursor_visible(false).unwrap();
    {
        let rec = term.recorded().unwrap();
        assert_eq!(rec[rec.len() - 1], Directive::HideCursor);
    }
    term.close().unwrap();
    let rec = term.recorded().unwrap();
    assert_eq!(rec[rec.len() - 1], Directive::ShowCursor);
}

#[test]
fn close_with_visible_cursor_emits_nothing() {
    let mut term = TermBuf::recording(TermSize { width: 2, height: 1 });
    let n = term.recorded().unwrap().len();
    term.close().unwrap();
    assert_eq!(term.recorded().unwrap().len(), n);
}

#[test]
fn cursor_position_is_placed_on_flush() {
    let mut term = TermBuf::recording(TermSize { width: 4, height: 2 });
    term.set_cursor_position(3, 2);
    term.flush().unwrap();
    let rec = term.recorded().unwrap();
    assert_eq!(rec[rec.len() - 2], Directive::Goto(3, 2));
    assert_eq!(rec[rec.len() - 1], Directive::Flush);
}

#[test]
fn hidden_cursor_is_not_placed_on_flush() {
    let mut term = TermBuf::recording(TermSize { width: 2, height: 1 });
    term.set_cursor_visible(false).unwrap();
    let n = term.recorded().unwrap().len();
    term.set_char(0, 0, 'x');
    term.flush().unwrap();
    let rec = term.recorded().unwrap();
    // The changed row is repainted, then only the stream flush: no Goto tail.
    assert_eq!(rec[rec.len() - 1], Directive::Flush);
    assert!(rec[n..rec.len() - 1]
        .iter()
        .all(|d| *d != Directive::ShowCursor && *d != Directive::HideCursor));
}

#[test]
fn flush_emits_exact_directives_for_styled_cell() {
    let mut term = TermBuf::recording(TermSize { width: 2, height: 1 });
    let cell = termbuf::builder::CellBuilder::new('x')
        .fg(Color::Red)
        .bg(Color::Blue)
        .style(Style::bold())
        .build();
    term.set_cell(0, 0, cell);
    term.flush().unwrap();
    let rec = term.recorded().unwrap();
    let expected = vec![
        Directive::Goto(1, 1),
        Directive::SetFg(Color::Red),
        Directive::SetBg(Color::Blue),
        Directive::SetStyle(Style::bold()),
        Directive::PutChar('x'),
        Directive::ResetFg,
        Directive::ResetBg,
        Directive::ResetStyle,
        Directive::PutChar(' '),
        Directive::Goto(1, 1),
        Directive::Flush,
    ];
    assert_eq!(rec.as_slice(), expected.as_slice());
}

#[test]
fn flush_advances_past_wide_glyphs() {
    let mut term = TermBuf::recording(TermSize { width: 2, height: 1 });
    term.set_char(0, 0, '世');
    term.flush().unwrap();
    let rec = term.recorded().unwrap();
    let expected = vec![
        Directive::Goto(1, 1),
        Directive::PutChar('世'),
        Directive::Goto(1, 1),
        Directive::Flush,
    ];
    assert_eq!(rec.as_slice(), expected.as_slice());
}

#[test]
fn fill_resets_every_cell() {
    let mut term = TermBuf::recording(TermSize { width: 3, height: 2 });
    term.set_char(0, 0, 'a');
    let block = TermCell::with_char('#');
    term.fill(block);
    for y in 0..2 {
        for x in 0..3 {
            assert_eq!(term.get(x, y).unwrap(), block);
        }
    }
}
