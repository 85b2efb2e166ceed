//! The trusted boundary to the terminal and to the width oracle.
//!
//! Everything in this module either holds an outside type opaquely or wraps
//! an outside call; nothing here is verified beyond its stated contract.

use crate::TermError;
use std::io::{Stdout, Write};
use termion::raw::{IntoRawMode, RawTerminal};
use unicode_width::UnicodeWidthChar;
use vstd::prelude::*;

verus! {

/// What the width oracle reports for one character: the displayed column
/// width, with control characters (reported as `None`) taken as 1. A fixed
/// function of the character alone.
pub uninterp spec fn char_width(c: char) -> usize;

/// Relies on unicode_width's `UnicodeWidthChar::width`: the displayed column
/// width of a character, or `None` for a control character.
#[verifier::external_body]
pub(crate) fn unicode_char_width(ch: char) -> (r: usize)
    ensures
        r == char_width(ch),
{
    ch.width().unwrap_or(1)
}

/// The handle flush writes through, opaque to the verifier: standard output
/// in raw mode, on the alternate screen. Termion's handle types cannot be
/// declared to Verus (their `io::Write` bound has no specification), so the
/// handle lives behind this opaque struct. The screen switches are written
/// explicitly — by `open_terminal` and `to_main_screen` — rather than left
/// to termion's `AlternateScreen`, whose constructor and destructor unwrap
/// a failing write. Dropping the handle restores the saved terminal
/// attributes through termion's `RawTerminal` drop, which unwraps its
/// ioctl; leave the alternate screen (`TermBuf::close`) before dropping.
#[verifier::external_body]
pub struct Terminal {
    inner: RawTerminal<Stdout>,
}

/// Relies on std's `io::stdout`, termion's `IntoRawMode::into_raw_mode` and
/// termion's `screen::ToAlternateScreen` escape: acquires exclusive
/// raw-mode control of standard output and switches to the alternate
/// screen. Fails — it does not panic — when standard output is not a
/// terminal or the switch cannot be written.
#[verifier::external_body]
pub(crate) fn open_terminal() -> (r: Result<Terminal, TermError>)
    ensures
        r matches Err(e) ==> e == TermError::InitializationFailure,
{
    match std::io::stdout().into_raw_mode() {
        Ok(mut t) => match write!(t, "{}", termion::screen::ToAlternateScreen) {
            Ok(()) => Ok(Terminal { inner: t }),
            Err(_) => Err(TermError::InitializationFailure),
        },
        Err(_) => Err(TermError::InitializationFailure),
    }
}

/// Relies on termion's `screen::ToMainScreen` escape: switches the terminal
/// back from the alternate screen to the main one.
#[verifier::external_body]
pub(crate) fn to_main_screen(t: &mut Terminal) -> (r: Result<(), TermError>)
    ensures
        r matches Err(e) ==> e == TermError::WriteFailure,
{
    match write!(t.inner, "{}", termion::screen::ToMainScreen) {
        Ok(()) => Ok(()),
        Err(_) => Err(TermError::WriteFailure),
    }
}

/// Relies on termion's `terminal_size`: the terminal's size in columns and
/// rows, failing when standard output is not a terminal.
#[verifier::external_body]
pub(crate) fn query_size() -> (r: Result<(u16, u16), TermError>)
    ensures
        r matches Err(e) ==> e == TermError::InitializationFailure,
{
    match termion::terminal_size() {
        Ok(s) => Ok(s),
        Err(_) => Err(TermError::InitializationFailure),
    }
}

/// Relies on termion's `cursor::Goto`: writes the cursor-placement escape for
/// a one-based position. `Goto` rejects the position (0, 0).
#[verifier::external_body]
pub(crate) fn goto(t: &mut Terminal, x: u16, y: u16) -> (r: Result<(), TermError>)
    requires
        1 <= x,
        1 <= y,
    ensures
        r matches Err(e) ==> e == TermError::WriteFailure,
{
    match write!(t.inner, "{}", termion::cursor::Goto(x, y)) {
        Ok(()) => Ok(()),
        Err(_) => Err(TermError::WriteFailure),
    }
}

/// Relies on termion's `clear::CurrentLine`: writes the clear-current-line
/// escape.
#[verifier::external_body]
pub(crate) fn clear_line(t: &mut Terminal) -> (r: Result<(), TermError>)
    ensures
        r matches Err(e) ==> e == TermError::WriteFailure,
{
    match write!(t.inner, "{}", termion::clear::CurrentLine) {
        Ok(()) => Ok(()),
        Err(_) => Err(TermError::WriteFailure),
    }
}

/// Relies on termion's `color::Fg` with `color::AnsiValue`: writes the
/// foreground escape for a palette color; termion writes its named colors as
/// the same escapes under their conventional indices.
#[verifier::external_body]
pub(crate) fn fg_palette(t: &mut Terminal, v: u8) -> (r: Result<(), TermError>)
    ensures
        r matches Err(e) ==> e == TermError::WriteFailure,
{
    match write!(t.inner, "{}", termion::color::Fg(termion::color::AnsiValue(v))) {
        Ok(()) => Ok(()),
        Err(_) => Err(TermError::WriteFailure),
    }
}

/// Relies on termion's `color::Bg` with `color::AnsiValue`: writes the
/// background escape for a palette color.
#[verifier::external_body]
pub(crate) fn bg_palette(t: &mut Terminal, v: u8) -> (r: Result<(), TermError>)
    ensures
        r matches Err(e) ==> e == TermError::WriteFailure,
{
    match write!(t.inner, "{}", termion::color::Bg(termion::color::AnsiValue(v))) {
        Ok(()) => Ok(()),
        Err(_) => Err(TermError::WriteFailure),
    }
}

/// Relies on termion's `color::Fg` with `color::Rgb`: writes the foreground
/// escape for a 24-bit color.
#[verifier::external_body]
pub(crate) fn fg_rgb(t: &mut Terminal, red: u8, green: u8, blue: u8) -> (r: Result<
    (),
    TermError,
>)
    ensures
        r matches Err(e) ==> e == TermError::WriteFailure,
{
    match write!(t.inner, "{}", termion::color::Fg(termion::color::Rgb(red, green, blue))) {
        Ok(()) => Ok(()),
        Err(_) => Err(TermError::WriteFailure),
    }
}

/// Relies on termion's `color::Bg` with `color::Rgb`: writes the background
/// escape for a 24-bit color.
#[verifier::external_body]
pub(crate) fn bg_rgb(t: &mut Terminal, red: u8, green: u8, blue: u8) -> (r: Result<
    (),
    TermError,
>)
    ensures
        r matches Err(e) ==> e == TermError::WriteFailure,
{
    match write!(t.inner, "{}", termion::color::Bg(termion::color::Rgb(red, green, blue))) {
        Ok(()) => Ok(()),
        Err(_) => Err(TermError::WriteFailure),
    }
}

/// Relies on termion's `color::Fg` with `color::Reset`: restores the default
/// foreground color.
#[verifier::external_body]
pub(crate) fn reset_fg(t: &mut Terminal) -> (r: Result<(), TermError>)
    ensures
        r matches Err(e) ==> e == TermError::WriteFailure,
{
    match write!(t.inner, "{}", termion::color::Fg(termion::color::Reset)) {
        Ok(()) => Ok(()),
        Err(_) => Err(TermError::WriteFailure),
    }
}

/// Relies on termion's `color::Bg` with `color::Reset`: restores the default
/// background color.
#[verifier::external_body]
pub(crate) fn reset_bg(t: &mut Terminal) -> (r: Result<(), TermError>)
    ensures
        r matches Err(e) ==> e == TermError::WriteFailure,
{
    match write!(t.inner, "{}", termion::color::Bg(termion::color::Reset)) {
        Ok(()) => Ok(()),
        Err(_) => Err(TermError::WriteFailure),
    }
}

/// Relies on termion's `style::Reset`: resets all text attributes.
#[verifier::external_body]
pub(crate) fn style_reset(t: &mut Terminal) -> (r: Result<(), TermError>)
    ensures
        r matches Err(e) ==> e == TermError::WriteFailure,
{
    match write!(t.inner, "{}", termion::style::Reset) {
        Ok(()) => Ok(()),
        Err(_) => Err(TermError::WriteFailure),
    }
}

/// Relies on termion's `style::Blink`.
#[verifier::external_body]
pub(crate) fn style_blink(t: &mut Terminal) -> (r: Result<(), TermError>)
    ensures
        r matches Err(e) ==> e == TermError::WriteFailure,
{
    match write!(t.inner, "{}", termion::style::Blink) {
        Ok(()) => Ok(()),
        Err(_) => Err(TermError::WriteFailure),
    }
}

/// Relies on termion's `style::Bold`.
#[verifier::external_body]
pub(crate) fn style_bold(t: &mut Terminal) -> (r: Result<(), TermError>)
    ensures
        r matches Err(e) ==> e == TermError::WriteFailure,
{
    match write!(t.inner, "{}", termion::style::Bold) {
        Ok(()) => Ok(()),
        Err(_) => Err(TermError::WriteFailure),
    }
}

/// Relies on termion's `style::CrossedOut`.
#[verifier::external_body]
pub(crate) fn style_crossed_out(t: &mut Terminal) -> (r: Result<(), TermError>)
    ensures
        r matches Err(e) ==> e == TermError::WriteFailure,
{
    match write!(t.inner, "{}", termion::style::CrossedOut) {
        Ok(()) => Ok(()),
        Err(_) => Err(TermError::WriteFailure),
    }
}

/// Relies on termion's `style::Faint`.
#[verifier::external_body]
pub(crate) fn style_faint(t: &mut Terminal) -> (r: Result<(), TermError>)
    ensures
        r matches Err(e) ==> e == TermError::WriteFailure,
{
    match write!(t.inner, "{}", termion::style::Faint) {
        Ok(()) => Ok(()),
        Err(_) => Err(TermError::WriteFailure),
    }
}

/// Relies on termion's `style::Framed`.
#[verifier::external_body]
pub(crate) fn style_framed(t: &mut Terminal) -> (r: Result<(), TermError>)
    ensures
        r matches Err(e) ==> e == TermError::WriteFailure,
{
    match write!(t.inner, "{}", termion::style::Framed) {
        Ok(()) => Ok(()),
        Err(_) => Err(TermError::WriteFailure),
    }
}

/// Relies on termion's `style::Invert`.
#[verifier::external_body]
pub(crate) fn style_invert(t: &mut Terminal) -> (r: Result<(), TermError>)
    ensures
        r matches Err(e) ==> e == TermError::WriteFailure,
{
    match write!(t.inner, "{}", termion::style::Invert) {
        Ok(()) => Ok(()),
        Err(_) => Err(TermError::WriteFailure),
    }
}

/// Relies on termion's `style::Italic`.
#[verifier::external_body]
pub(crate) fn style_italic(t: &mut Terminal) -> (r: Result<(), TermError>)
    ensures
        r matches Err(e) ==> e == TermError::WriteFailure,
{
    match write!(t.inner, "{}", termion::style::Italic) {
        Ok(()) => Ok(()),
        Err(_) => Err(TermError::WriteFailure),
    }
}

/// Relies on termion's `style::Underline`.
#[verifier::external_body]
pub(crate) fn style_underline(t: &mut Terminal) -> (r: Result<(), TermError>)
    ensures
        r matches Err(e) ==> e == TermError::WriteFailure,
{
    match write!(t.inner, "{}", termion::style::Underline) {
        Ok(()) => Ok(()),
        Err(_) => Err(TermError::WriteFailure),
    }
}

/// Relies on std's `io::Write` through `write!`: writes one glyph as utf-8.
#[verifier::external_body]
pub(crate) fn put_char(t: &mut Terminal, ch: char) -> (r: Result<(), TermError>)
    ensures
        r matches Err(e) ==> e == TermError::WriteFailure,
{
    match write!(t.inner, "{}", ch) {
        Ok(()) => Ok(()),
        Err(_) => Err(TermError::WriteFailure),
    }
}

/// Relies on termion's `cursor::Show`: makes the cursor visible.
#[verifier::external_body]
pub(crate) fn show_cursor(t: &mut Terminal) -> (r: Result<(), TermError>)
    ensures
        r matches Err(e) ==> e == TermError::WriteFailure,
{
    match write!(t.inner, "{}", termion::cursor::Show) {
        Ok(()) => Ok(()),
        Err(_) => Err(TermError::WriteFailure),
    }
}

/// Relies on termion's `cursor::Hide`: makes the cursor invisible.
#[verifier::external_body]
pub(crate) fn hide_cursor(t: &mut Terminal) -> (r: Result<(), TermError>)
    ensures
        r matches Err(e) ==> e == TermError::WriteFailure,
{
    match write!(t.inner, "{}", termion::cursor::Hide) {
        Ok(()) => Ok(()),
        Err(_) => Err(TermError::WriteFailure),
    }
}

/// Relies on std's `io::Write::flush`: pushes out whatever the stream has
/// buffered.
#[verifier::external_body]
pub(crate) fn flush_bytes(t: &mut Terminal) -> (r: Result<(), TermError>)
    ensures
        r matches Err(e) ==> e == TermError::WriteFailure,
{
    match t.inner.flush() {
        Ok(()) => Ok(()),
        Err(_) => Err(TermError::WriteFailure),
    }
}

} // verus!
