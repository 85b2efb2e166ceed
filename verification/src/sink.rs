//! Where emitted directives go: a live terminal, or a recording that serves
//! as a test double for the terminal I/O provider.

use crate::color::Color;
use crate::render;
use crate::render::Directive;
use crate::style::Style;
use crate::termio;
use crate::termio::Terminal;
use crate::TermCell;
use crate::TermError;
use vstd::prelude::*;

verus! {

enum SinkKind {
    Terminal(Terminal),
    Record(Vec<Directive>),
}

/// The output side of a `TermBuf`. Every directive that was successfully
/// emitted is tracked in a ghost log; a recording sink also keeps the same
/// directives as values, so tests can inspect what a flush produced.
pub struct TermSink {
    kind: SinkKind,
    log: Ghost<Seq<Directive>>,
}

impl TermSink {
    /// Every directive successfully emitted through this sink, in order.
    pub closed spec fn out(self) -> Seq<Directive> {
        self.log@
    }

    /// Whether this sink records directives instead of writing a terminal.
    pub closed spec fn is_record(self) -> bool {
        self.kind is Record
    }

    /// A recording sink holds exactly its log as values.
    pub closed spec fn wf(self) -> bool {
        match self.kind {
            SinkKind::Record(v) => v@ == self.log@,
            SinkKind::Terminal(_) => true,
        }
    }

    /// A sink that records directives: the test double for the terminal.
    pub(crate) fn record() -> (r: TermSink)
        ensures
            r.wf(),
            r.is_record(),
            r.out() == Seq::<Directive>::empty(),
    {
        TermSink { kind: SinkKind::Record(Vec::new()), log: Ghost(Seq::empty()) }
    }

    /// A sink that writes each directive to the live terminal.
    pub(crate) fn terminal(t: Terminal) -> (r: TermSink)
        ensures
            r.wf(),
            !r.is_record(),
            r.out() == Seq::<Directive>::empty(),
    {
        TermSink { kind: SinkKind::Terminal(t), log: Ghost(Seq::empty()) }
    }

    /// The recorded directives, when this sink is a recording one.
    pub fn recorded(&self) -> (r: Option<&Vec<Directive>>)
        requires
            self.wf(),
        ensures
            match r {
                Some(v) => self.is_record() && v@ == self.out(),
                None => !self.is_record(),
            },
    {
        match &self.kind {
            SinkKind::Record(v) => Some(v),
            SinkKind::Terminal(_) => None,
        }
    }

    /// Emits one directive: a recording sink keeps it and cannot fail; a
    /// terminal sink writes its escape sequence, which can fail. The log
    /// grows by the directive exactly when the emission succeeded.
    pub(crate) fn emit(&mut self, d: Directive) -> (r: Result<(), TermError>)
        requires
            old(self).wf(),
        ensures
            final(self).wf(),
            final(self).is_record() == old(self).is_record(),
            r is Ok ==> final(self).out() == old(self).out().push(d),
            r is Err ==> final(self).out() == old(self).out(),
            r matches Err(e) ==> e == TermError::WriteFailure,
            old(self).is_record() ==> r is Ok,
    {
        let ghost prev = self.log@;
        match &mut self.kind {
            SinkKind::Record(v) => {
                v.push(d);
                self.log = Ghost(prev.push(d));
                Ok(())
            },
            SinkKind::Terminal(t) => {
                match write_directive(t, &d) {
                    Ok(()) => {
                        self.log = Ghost(prev.push(d));
                        Ok(())
                    },
                    Err(e) => Err(e),
                }
            },
        }
    }

    /// Hands the terminal back: leaves the alternate screen that the buffer
    /// switched to when it was opened. A recording sink has nothing to
    /// release. The directive log is untouched.
    pub(crate) fn release(&mut self) -> (r: Result<(), TermError>)
        requires
            old(self).wf(),
        ensures
            final(self).wf(),
            final(self).is_record() == old(self).is_record(),
            final(self).out() == old(self).out(),
            old(self).is_record() ==> r is Ok,
            r matches Err(e) ==> e == TermError::WriteFailure,
    {
        match &mut self.kind {
            SinkKind::Record(_) => Ok(()),
            SinkKind::Terminal(t) => termio::to_main_screen(t),
        }
    }
}

impl TermSink {
    /// Emits the directives that repaint one cell: the sets, the glyph, the
    /// resets — exactly `cell_directives` of the cell. On a failure, what
    /// was emitted is a leading slice of that repaint.
    #[verifier::rlimit(100)]
    pub(crate) fn emit_cell(&mut self, cell: TermCell) -> (r: Result<(), TermError>)
        requires
            old(self).wf(),
        ensures
            final(self).wf(),
            final(self).is_record() == old(self).is_record(),
            old(self).is_record() ==> r is Ok,
            r is Ok ==> final(self).out() == old(self).out() + render::cell_directives(cell),
            r is Err ==> old(self).out().is_prefix_of(final(self).out()),
            r is Err ==> final(self).out().is_prefix_of(
                old(self).out() + render::cell_directives(cell),
            ),
            r matches Err(e) ==> e == TermError::WriteFailure,
    {
        let ghost base = self.out();
        let ghost d1 = match cell.fg {
            Some(f) => seq![Directive::SetFg(f)],
            None => Seq::<Directive>::empty(),
        };
        let ghost d2 = match cell.bg {
            Some(b) => seq![Directive::SetBg(b)],
            None => Seq::<Directive>::empty(),
        };
        let ghost d3 = match cell.style {
            Some(st) => seq![Directive::SetStyle(st)],
            None => Seq::<Directive>::empty(),
        };
        let ghost put = seq![Directive::PutChar(cell.content)];
        let ghost d5 = match cell.fg {
            Some(_) => seq![Directive::ResetFg],
            None => Seq::<Directive>::empty(),
        };
        let ghost d6 = match cell.bg {
            Some(_) => seq![Directive::ResetBg],
            None => Seq::<Directive>::empty(),
        };
        let ghost d7 = match cell.style {
            Some(_) => seq![Directive::ResetStyle],
            None => Seq::<Directive>::empty(),
        };
        let ghost whole = render::cell_directives(cell);
        if let Some(f) = cell.fg {
            match self.emit(Directive::SetFg(f)) {
                Ok(()) => {},
                Err(e) => {
                    proof {
                        lemma_log_prefix(base, self.out());
                        assert(self.out() =~= base + (Seq::<Directive>::empty()));
                        assert((Seq::<Directive>::empty()) + (whole) =~= whole);
                        lemma_emitted_prefix(base, self.out(), Seq::<Directive>::empty(), whole, whole);
                    }
                    return Err(e);
                },
            }
        }
        if let Some(b) = cell.bg {
            match self.emit(Directive::SetBg(b)) {
                Ok(()) => {},
                Err(e) => {
                    proof {
                        lemma_log_prefix(base, self.out());
                        assert(self.out() =~= base + (d1));
                        assert((d1) + (d2 + d3 + put + d5 + d6 + d7) =~= whole);
                        lemma_emitted_prefix(base, self.out(), d1, d2 + d3 + put + d5 + d6 + d7, whole);
                    }
                    return Err(e);
                },
            }
        }
        if let Some(st) = cell.style {
            match self.emit(Directive::SetStyle(st)) {
                Ok(()) => {},
                Err(e) => {
                    proof {
                        lemma_log_prefix(base, self.out());
                        assert(self.out() =~= base + (d1 + d2));
                        assert((d1 + d2) + (d3 + put + d5 + d6 + d7) =~= whole);
                        lemma_emitted_prefix(base, self.out(), d1 + d2, d3 + put + d5 + d6 + d7, whole);
                    }
                    return Err(e);
                },
            }
        }
        match self.emit(Directive::PutChar(cell.content)) {
            Ok(()) => {},
            Err(e) => {
                proof {
                    lemma_log_prefix(base, self.out());
                    assert(self.out() =~= base + (d1 + d2 + d3));
                    assert((d1 + d2 + d3) + (put + d5 + d6 + d7) =~= whole);
                    lemma_emitted_prefix(base, self.out(), d1 + d2 + d3, put + d5 + d6 + d7, whole);
                }
                return Err(e);
            },
        }
        if cell.fg.is_some() {
            match self.emit(Directive::ResetFg) {
                Ok(()) => {},
                Err(e) => {
                    proof {
                        lemma_log_prefix(base, self.out());
                        assert(self.out() =~= base + (d1 + d2 + d3 + put));
                        assert((d1 + d2 + d3 + put) + (d5 + d6 + d7) =~= whole);
                        lemma_emitted_prefix(base, self.out(), d1 + d2 + d3 + put, d5 + d6 + d7, whole);
                    }
                    return Err(e);
                },
            }
        }
        if cell.bg.is_some() {
            match self.emit(Directive::ResetBg) {
                Ok(()) => {},
                Err(e) => {
                    proof {
                        lemma_log_prefix(base, self.out());
                        assert(self.out() =~= base + (d1 + d2 + d3 + put + d5));
                        assert((d1 + d2 + d3 + put + d5) + (d6 + d7) =~= whole);
                        lemma_emitted_prefix(base, self.out(), d1 + d2 + d3 + put + d5, d6 + d7, whole);
                    }
                    return Err(e);
                },
            }
        }
        if cell.style.is_some() {
            match self.emit(Directive::ResetStyle) {
                Ok(()) => {},
                Err(e) => {
                    proof {
                        lemma_log_prefix(base, self.out());
                        assert(self.out() =~= base + (d1 + d2 + d3 + put + d5 + d6));
                        assert((d1 + d2 + d3 + put + d5 + d6) + (d7) =~= whole);
                        lemma_emitted_prefix(base, self.out(), d1 + d2 + d3 + put + d5 + d6, d7, whole);
                    }
                    return Err(e);
                },
            }
        }
        proof {
            assert(self.out() =~= base + render::cell_directives(cell));
        }
        Ok(())
    }
}

/// A log that was only appended to keeps its old contents as a prefix.
pub(crate) proof fn lemma_log_prefix(base: Seq<Directive>, cur: Seq<Directive>)
    requires
        base.len() <= cur.len(),
        forall|i: int| 0 <= i < base.len() ==> base[i] == cur[i],
    ensures
        base.is_prefix_of(cur),
{
    assert(base =~= cur.subrange(0, base.len() as int));
}

/// What was emitted so far — a leading slice of a repaint — is a prefix of
/// the base log extended by the whole repaint.
proof fn lemma_emitted_prefix(
    base: Seq<Directive>,
    cur: Seq<Directive>,
    pre: Seq<Directive>,
    rest: Seq<Directive>,
    whole: Seq<Directive>,
)
    requires
        cur == base + pre,
        pre + rest == whole,
    ensures
        cur.is_prefix_of(base + whole),
{
    assert(cur =~= (base + whole).subrange(0, cur.len() as int));
}

/// A one-based coordinate squeezed into the range termion's cursor escape
/// takes: zero becomes one, and anything past `u16::MAX` saturates.
fn clamp_coord(v: usize) -> (r: u16)
    ensures
        1 <= r,
{
    if v == 0 {
        1
    } else if v > 65535 {
        65535
    } else {
        v as u16
    }
}

/// Writes one directive's escape sequence to the live terminal.
fn write_directive(t: &mut Terminal, d: &Directive) -> (r: Result<(), TermError>)
    ensures
        r matches Err(e) ==> e == TermError::WriteFailure,
{
    match *d {
        Directive::Goto(x, y) => termio::goto(t, clamp_coord(x), clamp_coord(y)),
        Directive::ClearLine => termio::clear_line(t),
        Directive::SetFg(c) => write_fg(t, &c),
        Directive::SetBg(c) => write_bg(t, &c),
        Directive::SetStyle(s) => write_style(t, &s),
        Directive::PutChar(ch) => termio::put_char(t, ch),
        Directive::ResetFg => termio::reset_fg(t),
        Directive::ResetBg => termio::reset_bg(t),
        Directive::ResetStyle => termio::style_reset(t),
        Directive::ShowCursor => termio::show_cursor(t),
        Directive::HideCursor => termio::hide_cursor(t),
        Directive::Flush => termio::flush_bytes(t),
    }
}

/// Writes the foreground escape for a color: a 24-bit color as an RGB
/// escape, anything else by its palette index.
fn write_fg(t: &mut Terminal, c: &Color) -> (r: Result<(), TermError>)
    ensures
        r matches Err(e) ==> e == TermError::WriteFailure,
{
    if let Color::Rgb(red, green, blue) = *c {
        termio::fg_rgb(t, red, green, blue)
    } else {
        let v = c.palette_index().unwrap();
        termio::fg_palette(t, v)
    }
}

/// Writes the background escape for a color, as `write_fg` does.
fn write_bg(t: &mut Terminal, c: &Color) -> (r: Result<(), TermError>)
    ensures
        r matches Err(e) ==> e == TermError::WriteFailure,
{
    if let Color::Rgb(red, green, blue) = *c {
        termio::bg_rgb(t, red, green, blue)
    } else {
        let v = c.palette_index().unwrap();
        termio::bg_palette(t, v)
    }
}

/// Writes the escape of each attribute the style holds, in a fixed order.
fn write_style(t: &mut Terminal, s: &Style) -> (r: Result<(), TermError>)
    ensures
        r matches Err(e) ==> e == TermError::WriteFailure,
{
    if s.contains(Style::blink()) {
        if let Err(e) = termio::style_blink(t) {
            return Err(e);
        }
    }
    if s.contains(Style::bold()) {
        if let Err(e) = termio::style_bold(t) {
            return Err(e);
        }
    }
    if s.contains(Style::crossed_out()) {
        if let Err(e) = termio::style_crossed_out(t) {
            return Err(e);
        }
    }
    if s.contains(Style::faint()) {
        if let Err(e) = termio::style_faint(t) {
            return Err(e);
        }
    }
    if s.contains(Style::framed()) {
        if let Err(e) = termio::style_framed(t) {
            return Err(e);
        }
    }
    if s.contains(Style::invert()) {
        if let Err(e) = termio::style_invert(t) {
            return Err(e);
        }
    }
    if s.contains(Style::italic()) {
        if let Err(e) = termio::style_italic(t) {
            return Err(e);
        }
    }
    if s.contains(Style::underline()) {
        if let Err(e) = termio::style_underline(t) {
            return Err(e);
        }
    }
    if s.contains(Style::reset()) {
        if let Err(e) = termio::style_reset(t) {
            return Err(e);
        }
    }
    Ok(())
}

} // verus!
