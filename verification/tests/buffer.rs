use termbuf::{TermBuf, TermCell, TermSize};

fn test_buf() -> TermBuf {
    // An 80x25 buffer whose sink is a test double rather than a live
    // terminal.
    TermBuf::recording(TermSize { width: 80, height: 25 })
}

#[test]
fn init() {
    test_buf();
}

#[test]
fn drop_check() {
    let mut term = test_buf();
    term.set_cursor_visible(false).unwrap();
}

#[test]
fn set_char() {
    let mut term = test_buf();
    term.set_char(0, 0, '*');
    assert_eq!(term.get(0, 0).unwrap(), TermCell::with_char('*'));

    // Test change buffer
    term.flush().unwrap();
    assert_eq!(term.get_prev(0, 0).unwrap(), TermCell::with_char('*'));
}

#[test]
fn set_char_pos() {
    let mut term = test_buf();
    term.set_char(5, 5, '*');
    assert_eq!(term.get(5, 5).unwrap(), TermCell::with_char('*'));

    // Test change buffer
    term.flush().unwrap();
    assert_eq!(term.get_prev(5, 5).unwrap(), TermCell::with_char('*'));
}

#[test]
fn put_str() {
    let mut term = test_buf();
    let test_str = "foo-bar baz";
    term.print(0, 0, test_str);

    for (i, ch) in test_str.chars().enumerate() {
        assert_eq!(term.get(i, 0).unwrap(), TermCell::with_char(ch));
    }

    // Test change buffer
    term.flush().unwrap();
    for (i, ch) in test_str.chars().enumerate() {
        assert_eq!(term.get_prev(i, 0).unwrap(), TermCell::with_char(ch));
    }
}

#[test]
fn put_str_pos() {
    let mut term = test_buf();
    let test_str = "foo-bar baz";
    term.print(5, 5, test_str);

    for (i, ch) in test_str.chars().enumerate() {
        assert_eq!(term.get(i + 5, 5).unwrap(), TermCell::with_char(ch));
    }

    // Test change buffer
    term.flush().unwrap();
    for (i, ch) in test_str.chars().enumerate() {
        assert_eq!(term.get_prev(i + 5, 5).unwrap(), TermCell::with_char(ch));
    }
}

#[test]
fn clear() {
    let mut term = test_buf();
    term.set_char(5, 5, '*');
    term.flush().unwrap();
    assert_eq!(term.get(5, 5).unwrap(), TermCell::with_char('*'));

    term.clear().unwrap();
    for y in 0..25 {
        for x in 0..80 {
            assert_eq!(term.get(x, y).unwrap(), TermCell::empty());
        }
    }
}
