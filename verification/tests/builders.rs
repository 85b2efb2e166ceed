use termbuf::builder::CellBuilder;
use termbuf::{Color, Style, TermBuf, TermCell, TermSize};

#[test]
fn cell_builder_builds_styled_cell() {
    let cell = CellBuilder::new('x')
        .fg(Color::Red)
        .bg(Color::LightBlue)
        .style(Style::bold())
        .build();
    assert_eq!(cell.content, 'x');
    assert_eq!(cell.fg, Some(Color::Red));
    assert_eq!(cell.bg, Some(Color::LightBlue));
    assert_eq!(cell.style, Some(Style::bold()));
}

#[test]
fn cell_builder_styles_are_additive() {
    let cell = CellBuilder::new('x')
        .style(Style::bold())
        .style(Style::italic())
        .build();
    assert_eq!(cell.style, Some(Style::bold().union(Style::italic())));
    assert!(cell.style.unwrap().contains(Style::bold()));
    assert!(cell.style.unwrap().contains(Style::italic()));
    assert!(!cell.style.unwrap().contains(Style::underline()));
}

#[test]
fn cell_builder_build_with_keeps_style() {
    let builder = CellBuilder::new(' ').fg(Color::Green);
    let corner = builder.build_with('┌');
    assert_eq!(corner.content, '┌');
    assert_eq!(corner.fg, Some(Color::Green));
    // The builder's own content is untouched.
    assert_eq!(builder.build().content, ' ');
}

#[test]
fn cell_builder_maybe_setters_overwrite() {
    let cell = CellBuilder::new('x')
        .fg(Color::Red)
        .maybe_fg(None)
        .maybe_styles(Some(Style::faint()))
        .maybe_bg(Some(Color::Black))
        .build();
    assert_eq!(cell.fg, None);
    assert_eq!(cell.bg, Some(Color::Black));
    assert_eq!(cell.style, Some(Style::faint()));
}

#[test]
fn string_builder_draws_styled_run() {
    let mut term = TermBuf::recording(TermSize { width: 8, height: 3 });
    let run = term.string_builder(1, 1, "hi").fg(Color::Blue).style(Style::italic());
    run.draw(&mut term);
    let h = term.get(1, 1).unwrap();
    let i = term.get(2, 1).unwrap();
    assert_eq!(h.content, 'h');
    assert_eq!(i.content, 'i');
    assert_eq!(h.fg, Some(Color::Blue));
    assert_eq!(i.fg, Some(Color::Blue));
    assert_eq!(h.style, Some(Style::italic()));
    assert_eq!(term.get(3, 1).unwrap(), TermCell::empty());
}

#[test]
fn char_builder_draws_one_cell() {
    let mut term = TermBuf::recording(TermSize { width: 4, height: 2 });
    let one = term.char_builder(2, 0, '@').bg(Color::Yellow);
    one.draw(&mut term);
    let cell = term.get(2, 0).unwrap();
    assert_eq!(cell.content, '@');
    assert_eq!(cell.bg, Some(Color::Yellow));
    assert_eq!(term.get(1, 0).unwrap(), TermCell::empty());
    assert_eq!(term.get(3, 0).unwrap(), TermCell::empty());
}

#[test]
fn line_builder_horizontal_default() {
    let mut term = TermBuf::recording(TermSize { width: 6, height: 3 });
    let line = term.line_builder(1, 1, 3).fg(Color::Cyan);
    line.draw(&mut term);
    for x in 1..4 {
        let cell = term.get(x, 1).unwrap();
        assert_eq!(cell.content, '─');
        assert_eq!(cell.fg, Some(Color::Cyan));
    }
    assert_eq!(term.get(4, 1).unwrap(), TermCell::empty());
    assert_eq!(term.get(0, 1).unwrap(), TermCell::empty());
}

#[test]
fn line_builder_vertical_and_mutators() {
    let mut term = TermBuf::recording(TermSize { width: 6, height: 6 });
    let line = term.line_builder(0, 0, 1).x(2).y(1).len(3).vertical();
    line.draw(&mut term);
    for y in 1..4 {
        assert_eq!(term.get(2, y).unwrap().content, '│');
    }
    assert_eq!(term.get(2, 0).unwrap(), TermCell::empty());
    assert_eq!(term.get(2, 4).unwrap(), TermCell::empty());
}

#[test]
fn box_builder_draws_styled_outline() {
    let mut term = TermBuf::recording(TermSize { width: 8, height: 6 });
    let boxed = term.box_builder(0, 0, 5, 5).width(2).height(1).fg(Color::Magenta);
    boxed.draw(&mut term);
    assert_eq!(term.get(0, 0).unwrap().content, '┌');
    assert_eq!(term.get(3, 0).unwrap().content, '┐');
    assert_eq!(term.get(0, 2).unwrap().content, '└');
    assert_eq!(term.get(3, 2).unwrap().content, '┘');
    assert_eq!(term.get(1, 0).unwrap().content, '─');
    assert_eq!(term.get(2, 2).unwrap().content, '─');
    assert_eq!(term.get(0, 1).unwrap().content, '│');
    assert_eq!(term.get(3, 1).unwrap().content, '│');
    assert_eq!(term.get(0, 0).unwrap().fg, Some(Color::Magenta));
    // The interior stays untouched.
    assert_eq!(term.get(1, 1).unwrap(), TermCell::empty());
    assert_eq!(term.get(2, 1).unwrap(), TermCell::empty());
}

#[test]
fn direct_cell_field_setters() {
    let mut term = TermBuf::recording(TermSize { width: 3, height: 2 });
    term.set_char(1, 0, 'k');
    term.set_cell_fg(1, 0, Color::Red);
    term.set_cell_bg(1, 0, Color::AnsiValue(99));
    term.set_cell_style(1, 0, Style::underline());
    let cell = term.get(1, 0).unwrap();
    assert_eq!(cell.content, 'k');
    assert_eq!(cell.fg, Some(Color::Red));
    assert_eq!(cell.bg, Some(Color::AnsiValue(99)));
    assert_eq!(cell.style, Some(Style::underline()));
}

#[test]
fn palette_indices_follow_ansi_numbering() {
    assert_eq!(Color::Black.palette_index(), Some(0));
    assert_eq!(Color::Red.palette_index(), Some(1));
    assert_eq!(Color::White.palette_index(), Some(7));
    assert_eq!(Color::LightBlack.palette_index(), Some(8));
    assert_eq!(Color::LightWhite.palette_index(), Some(15));
    assert_eq!(Color::AnsiValue(200).palette_index(), Some(200));
    assert_eq!(Color::Rgb(1, 2, 3).palette_index(), None);
}
