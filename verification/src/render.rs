//! The mathematical model of rendering: what a mutation does to the grid,
//! and which directives a flush emits for a given grid and snapshot.

use crate::color::Color;
use crate::style::Style;
use crate::{empty_cell, TermCell};
use vstd::prelude::*;

verus! {

/// One unit of terminal output. A flush emits a stream of these; a live
/// terminal turns each into its escape sequence, a recording sink keeps
/// them as values.
#[derive(Debug, Clone, Copy, PartialEq, Eq, Structural)]
pub enum Directive {
    /// Place the cursor at a one-based (column, row) position.
    Goto(usize, usize),
    /// Clear the line the cursor is on.
    ClearLine,
    /// Set the foreground color.
    SetFg(Color),
    /// Set the background color.
    SetBg(Color),
    /// Set text attributes.
    SetStyle(Style),
    /// Write one glyph at the cursor.
    PutChar(char),
    /// Restore the default foreground color.
    ResetFg,
    /// Restore the default background color.
    ResetBg,
    /// Clear all text attributes.
    ResetStyle,
    /// Make the cursor visible.
    ShowCursor,
    /// Make the cursor invisible.
    HideCursor,
    /// Push buffered bytes out to the terminal.
    Flush,
}

/// The grid with the cell at column `x` of row `y` replaced, when that
/// position exists; the grid unchanged otherwise.
pub open spec fn grid_set(
    g: Seq<Seq<TermCell>>,
    x: int,
    y: int,
    c: TermCell,
) -> Seq<Seq<TermCell>> {
    if 0 <= y < g.len() && 0 <= x < g[y].len() {
        g.update(y, g[y].update(x, c))
    } else {
        g
    }
}

/// The grid with every existing cell of row `y` in columns `[x0, x1)`
/// replaced by `c`; rows keep their lengths.
pub open spec fn paint_row_span(
    g: Seq<Seq<TermCell>>,
    y: int,
    x0: int,
    x1: int,
    c: TermCell,
) -> Seq<Seq<TermCell>> {
    Seq::new(
        g.len(),
        |j: int|
            if j == y {
                Seq::new(g[j].len(), |i: int| if x0 <= i < x1 { c } else { g[j][i] })
            } else {
                g[j]
            },
    )
}

/// The grid with every existing cell of column `x` in rows `[y0, y1)`
/// replaced by `c`; rows keep their lengths.
pub open spec fn paint_col_span(
    g: Seq<Seq<TermCell>>,
    x: int,
    y0: int,
    y1: int,
    c: TermCell,
) -> Seq<Seq<TermCell>> {
    Seq::new(
        g.len(),
        |j: int|
            if y0 <= j < y1 {
                Seq::new(g[j].len(), |i: int| if i == x { c } else { g[j][i] })
            } else {
                g[j]
            },
    )
}

/// The glyph a box with anchor `(x, y)` and inner extent `(w, h)` puts at
/// position `(i, j)`: a corner, a horizontal or vertical edge piece, or
/// nothing. The outer extent runs to `(x + w + 1, y + h + 1)`; the interior
/// is left alone.
pub open spec fn box_glyph(x: int, y: int, w: int, h: int, i: int, j: int) -> Option<char> {
    let x2 = x + w + 1;
    let y2 = y + h + 1;
    if i == x && j == y {
        Some('┌')
    } else if i == x2 && j == y {
        Some('┐')
    } else if i == x && j == y2 {
        Some('└')
    } else if i == x2 && j == y2 {
        Some('┘')
    } else if x < i < x2 && (j == y || j == y2) {
        Some('─')
    } else if y < j < y2 && (i == x || i == x2) {
        Some('│')
    } else {
        None
    }
}

/// The grid after drawing a box outline with the given anchor, extent and
/// accumulated style: each position the outline covers gets its glyph, every
/// other cell keeps its prior value.
pub open spec fn paint_box(
    g: Seq<Seq<TermCell>>,
    x: int,
    y: int,
    w: int,
    h: int,
    fg: Option<Color>,
    bg: Option<Color>,
    style: Option<Style>,
) -> Seq<Seq<TermCell>> {
    Seq::new(
        g.len(),
        |j: int|
            Seq::new(
                g[j].len(),
                |i: int|
                    match box_glyph(x, y, w, h, i, j) {
                        Some(ch) => crate::styled_cell(ch, fg, bg, style),
                        None => g[j][i],
                    },
            ),
    )
}

/// The grid after writing a run of characters left to right on row `y`,
/// starting at column `x`: one styled cell per character, the column
/// advancing by each character's display width. Out-of-range positions are
/// dropped.
pub open spec fn write_run(
    g: Seq<Seq<TermCell>>,
    x: int,
    y: int,
    chars: Seq<char>,
    fg: Option<Color>,
    bg: Option<Color>,
    style: Option<Style>,
) -> Seq<Seq<TermCell>>
    decreases chars.len(),
{
    if chars.len() == 0 {
        g
    } else {
        write_run(
            grid_set(g, x, y, crate::styled_cell(chars[0], fg, bg, style)),
            x + crate::display_width_of(chars[0]),
            y,
            chars.drop_first(),
            fg,
            bg,
            style,
        )
    }
}

/// A grid of the given width and height with every cell empty.
pub open spec fn empty_grid(w: nat, h: nat) -> Seq<Seq<TermCell>> {
    Seq::new(h, |j: int| Seq::new(w, |i: int| empty_cell()))
}

/// A run whose starting column is already past the end of its row changes
/// nothing: every write is dropped, and the column only grows.
pub proof fn lemma_write_run_oob(
    g: Seq<Seq<TermCell>>,
    x: int,
    y: int,
    chars: Seq<char>,
    fg: Option<Color>,
    bg: Option<Color>,
    style: Option<Style>,
)
    requires
        0 <= y < g.len() ==> x >= g[y].len(),
    ensures
        write_run(g, x, y, chars, fg, bg, style) == g,
    decreases chars.len(),
{
    if chars.len() > 0 {
        assert(grid_set(g, x, y, crate::styled_cell(chars[0], fg, bg, style)) == g);
        lemma_write_run_oob(
            g,
            x + crate::display_width_of(chars[0]),
            y,
            chars.drop_first(),
            fg,
            bg,
            style,
        );
    }
}

/// Whether every cell of a row is the empty cell.
pub open spec fn row_blank(row: Seq<TermCell>) -> bool {
    forall|x: int| 0 <= x < row.len() ==> row[x] == empty_cell()
}

/// How far the flush walk advances past a cell: its cached width, taken as
/// at least one column so the walk always moves.
pub open spec fn cell_advance(c: TermCell) -> int {
    if c.width == 0 {
        1
    } else {
        c.width as int
    }
}

/// The directives that repaint one cell: set whichever of foreground,
/// background and attributes are present, put the glyph, then reset exactly
/// what was set, so no state bleeds into the next cell.
pub open spec fn cell_directives(c: TermCell) -> Seq<Directive> {
    (match c.fg {
        Some(f) => seq![Directive::SetFg(f)],
        None => Seq::<Directive>::empty(),
    }) + (match c.bg {
        Some(b) => seq![Directive::SetBg(b)],
        None => Seq::<Directive>::empty(),
    }) + (match c.style {
        Some(s) => seq![Directive::SetStyle(s)],
        None => Seq::<Directive>::empty(),
    }) + seq![Directive::PutChar(c.content)] + (match c.fg {
        Some(_) => seq![Directive::ResetFg],
        None => Seq::<Directive>::empty(),
    }) + (match c.bg {
        Some(_) => seq![Directive::ResetBg],
        None => Seq::<Directive>::empty(),
    }) + (match c.style {
        Some(_) => seq![Directive::ResetStyle],
        None => Seq::<Directive>::empty(),
    })
}

/// The directives that repaint a changed row from column `x` on: each
/// visited cell's directives, the walk advancing by the cell's width so a
/// wide glyph is not visited twice.
pub open spec fn row_cells_directives(row: Seq<TermCell>, x: int) -> Seq<Directive>
    decreases row.len() - x,
{
    if x < 0 || x >= row.len() {
        Seq::<Directive>::empty()
    } else {
        let nx = if x + cell_advance(row[x]) > row.len() {
            row.len() as int
        } else {
            x + cell_advance(row[x])
        };
        cell_directives(row[x]) + row_cells_directives(row, nx)
    }
}

/// The directives a flush emits for row `y`: a clear when the row is fully
/// blank, then — only when the row differs from its snapshot — a cursor
/// move to the row start and a repaint of the whole row. An unchanged,
/// non-blank row emits nothing.
pub open spec fn row_directives(y: int, row: Seq<TermCell>, prev: Seq<TermCell>) -> Seq<
    Directive,
> {
    (if row_blank(row) {
        seq![Directive::Goto(1, (y + 1) as usize), Directive::ClearLine]
    } else {
        Seq::<Directive>::empty()
    }) + (if row != prev {
        seq![Directive::Goto(1, (y + 1) as usize)] + row_cells_directives(row, 0)
    } else {
        Seq::<Directive>::empty()
    })
}

/// The directives a flush emits for the first `n` rows of the grid, in row
/// order.
pub open spec fn frame_directives(
    g: Seq<Seq<TermCell>>,
    s: Seq<Seq<TermCell>>,
    n: int,
) -> Seq<Directive>
    decreases n,
{
    if n <= 0 {
        Seq::<Directive>::empty()
    } else {
        frame_directives(g, s, n - 1) + row_directives(n - 1, g[n - 1], s[n - 1])
    }
}

/// What a flush emits after the per-row work: the cursor placement when the
/// cursor is visible, then the stream flush. This tail is emitted on every
/// flush, changed rows or not.
pub open spec fn cursor_tail(visible: bool, pos: (usize, usize)) -> Seq<Directive> {
    (if visible {
        seq![Directive::Goto(pos.0, pos.1)]
    } else {
        Seq::<Directive>::empty()
    }) + seq![Directive::Flush]
}

/// Everything one complete, successful flush emits for a grid, its
/// snapshot, and the cursor state.
pub open spec fn flush_directives(
    g: Seq<Seq<TermCell>>,
    s: Seq<Seq<TermCell>>,
    visible: bool,
    pos: (usize, usize),
) -> Seq<Directive> {
    frame_directives(g, s, g.len() as int) + cursor_tail(visible, pos)
}

/// Whether `snap2` is `s` with exactly its first `k` rows advanced to the
/// grid `g`: rows before `k` hold the grid's rows, rows from `k` on still
/// hold their old snapshot value.
pub open spec fn snapshot_advanced(
    snap2: Seq<Seq<TermCell>>,
    g: Seq<Seq<TermCell>>,
    s: Seq<Seq<TermCell>>,
    k: int,
) -> bool {
    &&& snap2.len() == s.len()
    &&& forall|j: int| 0 <= j < k && j < s.len() ==> snap2[j] == g[j]
    &&& forall|j: int| k <= j < s.len() ==> snap2[j] == s[j]
}

/// A sequence is a prefix of itself.
pub(crate) proof fn lemma_prefix_refl<T>(a: Seq<T>)
    ensures
        a.is_prefix_of(a),
{
    assert(a =~= a.subrange(0, a.len() as int));
}

/// A sequence is a prefix of itself extended by anything.
pub(crate) proof fn lemma_prefix_append<T>(a: Seq<T>, b: Seq<T>)
    ensures
        a.is_prefix_of(a + b),
{
    assert(a =~= (a + b).subrange(0, a.len() as int));
}

/// Prefixes chain.
pub(crate) proof fn lemma_prefix_trans<T>(a: Seq<T>, b: Seq<T>, c: Seq<T>)
    requires
        a.is_prefix_of(b),
        b.is_prefix_of(c),
    ensures
        a.is_prefix_of(c),
{
    assert(a =~= c.subrange(0, a.len() as int));
}

/// A prefix stays a prefix under a common left extension.
pub(crate) proof fn lemma_prefix_cat_left<T>(c: Seq<T>, a: Seq<T>, b: Seq<T>)
    requires
        a.is_prefix_of(b),
    ensures
        (c + a).is_prefix_of(c + b),
{
    assert((c + a) =~= (c + b).subrange(0, (c + a).len() as int));
}

/// The per-row output of the first `y` rows is a prefix of that of the
/// first `n`.
pub(crate) proof fn lemma_frame_prefix(
    g: Seq<Seq<TermCell>>,
    s: Seq<Seq<TermCell>>,
    y: int,
    n: int,
)
    requires
        0 <= y <= n,
    ensures
        frame_directives(g, s, y).is_prefix_of(frame_directives(g, s, n)),
    decreases n - y,
{
    if n == y {
        lemma_prefix_refl(frame_directives(g, s, y));
    } else {
        lemma_frame_prefix(g, s, y, n - 1);
        lemma_prefix_append(
            frame_directives(g, s, n - 1),
            row_directives(n - 1, g[n - 1], s[n - 1]),
        );
        lemma_prefix_trans(
            frame_directives(g, s, y),
            frame_directives(g, s, n - 1),
            frame_directives(g, s, n),
        );
    }
}

/// Whatever stands emitted when row `y`'s handling stops — the finished
/// rows' output plus a leading slice of row `y`'s own — is a prefix of the
/// complete flush output.
pub(crate) proof fn lemma_partial_flush_prefix(
    log0: Seq<Directive>,
    g: Seq<Seq<TermCell>>,
    s: Seq<Seq<TermCell>>,
    vis: bool,
    pos: (usize, usize),
    y: int,
    partial: Seq<Directive>,
    cur: Seq<Directive>,
)
    requires
        0 <= y < g.len(),
        cur.is_prefix_of(log0 + frame_directives(g, s, y) + partial),
        partial.is_prefix_of(row_directives(y, g[y], s[y])),
    ensures
        cur.is_prefix_of(log0 + flush_directives(g, s, vis, pos)),
{
    let fy = frame_directives(g, s, y);
    let rd = row_directives(y, g[y], s[y]);
    let whole = frame_directives(g, s, g.len() as int);
    let tail = cursor_tail(vis, pos);
    lemma_prefix_cat_left(log0 + fy, partial, rd);
    lemma_prefix_trans(cur, log0 + fy + partial, log0 + fy + rd);
    assert(log0 + fy + rd =~= log0 + frame_directives(g, s, y + 1));
    lemma_frame_prefix(g, s, y + 1, g.len() as int);
    lemma_prefix_cat_left(log0, frame_directives(g, s, y + 1), whole);
    lemma_prefix_trans(cur, log0 + frame_directives(g, s, y + 1), log0 + whole);
    lemma_prefix_append(log0 + whole, tail);
    lemma_prefix_trans(cur, log0 + whole, log0 + whole + tail);
    assert(log0 + whole + tail =~= log0 + flush_directives(g, s, vis, pos));
}

/// Whatever stands emitted when the closing cursor placement or stream
/// flush stops — the whole per-row output plus a leading slice of the tail
/// — is a prefix of the complete flush output.
pub(crate) proof fn lemma_tail_flush_prefix(
    log0: Seq<Directive>,
    g: Seq<Seq<TermCell>>,
    s: Seq<Seq<TermCell>>,
    vis: bool,
    pos: (usize, usize),
    partial: Seq<Directive>,
    cur: Seq<Directive>,
)
    requires
        cur.is_prefix_of(log0 + frame_directives(g, s, g.len() as int) + partial),
        partial.is_prefix_of(cursor_tail(vis, pos)),
    ensures
        cur.is_prefix_of(log0 + flush_directives(g, s, vis, pos)),
{
    let whole = frame_directives(g, s, g.len() as int);
    let tail = cursor_tail(vis, pos);
    lemma_prefix_cat_left(log0 + whole, partial, tail);
    lemma_prefix_trans(cur, log0 + whole + partial, log0 + whole + tail);
    assert(log0 + whole + tail =~= log0 + flush_directives(g, s, vis, pos));
}

/// Each row of an unchanged, nowhere-blank frame emits nothing.
proof fn lemma_frame_unchanged(g: Seq<Seq<TermCell>>, n: int)
    requires
        n <= g.len(),
        forall|y: int| 0 <= y < g.len() ==> !row_blank(#[trigger] g[y]),
    ensures
        frame_directives(g, g, n) == Seq::<Directive>::empty(),
    decreases n,
{
    if n > 0 {
        lemma_frame_unchanged(g, n - 1);
        assert(row_directives(n - 1, g[n - 1], g[n - 1]) =~= Seq::<Directive>::empty());
        assert(frame_directives(g, g, n) =~= Seq::<Directive>::empty());
    }
}

/// Flushing is idempotent: a frame that matches its snapshot, with no fully
/// blank row, emits no per-row directives at all — only the final cursor
/// placement and the stream flush. So flushing twice with no intervening
/// mutation leaves only the cursor tail on the second flush. (A fully blank
/// row is the exception: it is re-cleared on every flush.)
pub proof fn lemma_flush_unchanged(g: Seq<Seq<TermCell>>, visible: bool, pos: (usize, usize))
    requires
        forall|y: int| 0 <= y < g.len() ==> !row_blank(#[trigger] g[y]),
    ensures
        flush_directives(g, g, visible, pos) == cursor_tail(visible, pos),
{
    lemma_frame_unchanged(g, g.len() as int);
    assert(flush_directives(g, g, visible, pos) =~= cursor_tail(visible, pos));
}

/// Whether `ds` holds, at index `i`, a cursor move to the start of row `y`
/// followed directly by a clear-line directive.
pub open spec fn clear_pair_at(ds: Seq<Directive>, y: int, i: int) -> bool {
    &&& 0 <= i
    &&& i + 1 < ds.len()
    &&& ds[i] == Directive::Goto(1, (y + 1) as usize)
    &&& ds[i + 1] == Directive::ClearLine
}

/// The frame output for the first `n` rows carries the clear-line pair of a
/// blank row `y < n` at some index.
proof fn lemma_blank_row_in_frame(g: Seq<Seq<TermCell>>, s: Seq<Seq<TermCell>>, y: int, n: int)
    requires
        0 <= y < n <= g.len(),
        row_blank(g[y]),
    ensures
        exists|i: int| clear_pair_at(frame_directives(g, s, n), y, i),
    decreases n,
{
    let fr = frame_directives(g, s, n);
    let head = frame_directives(g, s, n - 1);
    let rd = row_directives(n - 1, g[n - 1], s[n - 1]);
    if y == n - 1 {
        assert(rd[0] == Directive::Goto(1, (y + 1) as usize));
        assert(rd[1] == Directive::ClearLine);
        let i = head.len() as int;
        assert(fr[i] == rd[0]);
        assert(fr[i + 1] == rd[1]);
        assert(clear_pair_at(fr, y, i));
    } else {
        lemma_blank_row_in_frame(g, s, y, n - 1);
        let i = choose|i: int| clear_pair_at(head, y, i);
        assert(fr[i] == head[i]);
        assert(fr[i + 1] == head[i + 1]);
        assert(clear_pair_at(fr, y, i));
    }
}

/// Full-row-blank detection: a fully blank row always gets a clear-line
/// directive, straight after a cursor move to its start, somewhere in the
/// flush output — whatever the snapshot held for that row.
pub proof fn lemma_blank_row_cleared(
    g: Seq<Seq<TermCell>>,
    s: Seq<Seq<TermCell>>,
    visible: bool,
    pos: (usize, usize),
    y: int,
)
    requires
        0 <= y < g.len(),
        row_blank(g[y]),
    ensures
        exists|i: int| clear_pair_at(flush_directives(g, s, visible, pos), y, i),
{
    lemma_blank_row_in_frame(g, s, y, g.len() as int);
    let fr = frame_directives(g, s, g.len() as int);
    let fd = flush_directives(g, s, visible, pos);
    let i = choose|i: int| clear_pair_at(fr, y, i);
    assert(fd[i] == fr[i]);
    assert(fd[i + 1] == fr[i + 1]);
    assert(clear_pair_at(fd, y, i));
}

} // verus!
