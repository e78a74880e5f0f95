//! The viewport of a buffer in a window.
//!
//! A viewport says which lines of a buffer a window shows, and for each of
//! them which of its characters stand in which row of the window. It is
//! worked out from an anchor, a line and a display column of the buffer that
//! stand at the window's top left corner, under one of three ways of
//! wrapping: none, where each line has one row; at any character; and
//! between words, with the words of
//! [UAX #29](http://www.unicode.org/reports/tr29/#Word_Boundaries).
//!
//! Where lines do not wrap, every line is shown from the anchor's display
//! column. Where they wrap, only the anchor's line is, and every line after
//! it from its first character. A line that is broken into words is cut,
//! before that, to four characters for each cell of the window, counted from
//! its first shown character; what lies beyond the cut is not shown. A
//! window without a cell shows nothing.
//!
//! The work is done for the buffer as it is handed in, in one go and without
//! a pause. The caller sees to it that the buffer is not edited meanwhile,
//! and makes a new viewport after an edit.

use crate::buf::opt::BufferLocalOptions;
use crate::buf::unicode::{
    char_width, char_widths, lemma_prefix_width_monotonic, lemma_saturate_add, prefix_width,
    push_char, saturate,
};
use crate::buf::{slice_char, slice_chars, slice_len_chars, Buffer};
use crate::cart::U16Rect;
use crate::ui::viewport::layout::{
    breaks_before, column, first_shown, first_shown_from, leading_fill, lemma_ctx_wf,
    lemma_first_shown, lemma_rows_contiguous, lemma_rows_text, line_layout, linebreak_ctx,
    marked, nowrap_ctx, row_at, row_end, row_room, rows_from, rows_text,
    segment_cap, segment_limit, segment_needs, segment_offset, span_width, trailing_fill_from,
    wrap_ctx, LineCtx, LineLayout,
};
use ropey::RopeSlice;
use std::collections::BTreeMap;
use vstd::prelude::*;

pub mod layout;

verus! {

/// One row of a buffer line in the window.
///
/// Display columns are counted in cells from the start of the line, and
/// characters by their index in the line: neither is a position on the
/// screen. Start and end are left-inclusive and right-exclusive.
#[derive(Debug, Copy, Clone, PartialEq, Eq, Structural)]
pub struct LineViewportRow {
    /// The display column at which the row's first character starts.
    pub start_bcolumn: usize,
    /// The first character of the row.
    pub start_char_idx: usize,
    /// The display column at which the row's last character ends.
    pub end_bcolumn: usize,
    /// The character after the last one of the row.
    pub end_char_idx: usize,
}

/// All the rows of one buffer line in the window.
#[derive(Debug)]
pub struct LineViewport {
    /// The rows of the line, each under its row in the window, counted from
    /// 0 at the top.
    pub rows: BTreeMap<u16, LineViewportRow>,
    /// The blank cells at the start of the first row: there a character
    /// begins before the window does and reaches into it, and it is not
    /// shown in part.
    pub start_filled_columns: usize,
    /// The blank cells at the end of the last row: there the next character
    /// of the line does not fit into what is left of the window.
    pub end_filled_columns: usize,
}

/// The rows of one buffer line as a map, with the blank cells at both ends.
pub struct LineView {
    pub rows: Map<u16, LineViewportRow>,
    pub start_filled_columns: usize,
    pub end_filled_columns: usize,
}

impl Clone for LineViewport {
    fn clone(&self) -> (copy: Self)
        ensures
            copy@ == self@,
    {
        LineViewport {
            rows: self.rows.clone(),
            start_filled_columns: self.start_filled_columns,
            end_filled_columns: self.end_filled_columns,
        }
    }
}

impl View for LineViewport {
    type V = LineView;

    open spec fn view(&self) -> LineView {
        LineView {
            rows: self.rows@,
            start_filled_columns: self.start_filled_columns,
            end_filled_columns: self.end_filled_columns,
        }
    }
}

/// The rows of a layout under their rows in the window, the first of them
/// under `first_row`.
pub open spec fn line_view(first_row: u16, layout: LineLayout) -> LineView {
    LineView {
        rows: Map::new(
            |r: u16| first_row <= r < first_row + layout.rows.len(),
            |r: u16| layout.rows[r - first_row],
        ),
        start_filled_columns: layout.start_filled_columns,
        end_filled_columns: layout.end_filled_columns,
    }
}

/// The widths of the characters of a line of the rope.
pub open spec fn line_widths(options: &BufferLocalOptions, line: &RopeSlice) -> Seq<nat> {
    char_widths(options.spec_tab_stop(), slice_chars(*line))
}

/// The needs that a row is scanned with stand for those of the layout: none
/// where each character needs its own width, and otherwise one for each
/// character from `first` up to the cut.
spec fn needs_match(needs: Option<&Vec<usize>>, first: usize, ctx: LineCtx) -> bool {
    match needs {
        None => ctx.need == ctx.ws,
        Some(v) => {
            &&& v@.len() == ctx.limit - first
            &&& forall|j: int| 0 <= j < v@.len() ==> #[trigger] v@[j] == saturate(ctx.need[first + j])
        },
    }
}

/// Skips the characters that start before the display column
/// `start_bcolumn`: the first character that is shown, and the display
/// column at which it starts.
pub fn skip_to_column(options: &BufferLocalOptions, line: &RopeSlice, start_bcolumn: usize) -> (shown:
    (usize, usize))
    ensures
        shown.0 == first_shown(line_widths(options, line), start_bcolumn),
        shown.0 <= slice_chars(*line).len() <= usize::MAX,
        shown.1 == column(line_widths(options, line), shown.0 as int),
{
    let ghost ws = line_widths(options, line);
    let len = slice_len_chars(line);
    let mut i: usize = 0;
    let mut bcol: usize = 0;
    while i < len && bcol < start_bcolumn
        invariant
            ws == line_widths(options, line),
            len == ws.len(),
            i <= len,
            bcol == column(ws, i as int),
            first_shown(ws, start_bcolumn) == first_shown_from(ws, start_bcolumn, i as int),
        decreases len - i,
    {
        let w = char_width(options, slice_char(line, i));
        proof {
            lemma_saturate_add(prefix_width(ws, i as int), w);
        }
        bcol = bcol.saturating_add(w);
        i = i + 1;
    }
    (i, bcol)
}

/// Where a row ends: the character after its last, the display column
/// there, and the cells the row has left.
struct RowScan {
    end_char_idx: usize,
    end_bcolumn: usize,
    room: usize,
}

/// Scans one row: from character `start` at display column `bcolumn`, with
/// `room` cells left, up to the first character that ends the row.
fn scan_row(
    options: &BufferLocalOptions,
    line: &RopeSlice,
    needs: Option<&Vec<usize>>,
    first: usize,
    start: usize,
    bcolumn: usize,
    room: usize,
    width: u16,
    force: bool,
    Ghost(ctx): Ghost<LineCtx>,
) -> (scan: RowScan)
    requires
        ctx.wf(),
        ctx.ws == line_widths(options, line),
        ctx.width == width,
        ctx.force == force,
        ctx.limit <= usize::MAX,
        needs_match(needs, first, ctx),
        first <= start <= ctx.limit,
        needs is None ==> ctx.limit == ctx.ws.len(),
        bcolumn == column(ctx.ws, start as int),
        room <= width,
    ensures
        scan.end_char_idx == row_end(ctx, start as int, room as nat),
        start <= scan.end_char_idx <= ctx.limit,
        scan.end_bcolumn == column(ctx.ws, scan.end_char_idx as int),
        scan.room == row_room(ctx, start as int, room as nat),
        scan.room <= width,
{
    let limit: usize = match needs {
        Some(v) => first + v.len(),
        None => slice_len_chars(line),
    };
    let mut i: usize = start;
    let mut bcol: usize = bcolumn;
    let mut left: usize = room;
    loop
        invariant
            ctx.wf(),
            ctx.ws == line_widths(options, line),
            ctx.width == width,
            ctx.force == force,
            limit == ctx.limit,
            needs_match(needs, first, ctx),
            first <= start <= i <= limit,
            bcol == column(ctx.ws, i as int),
            left <= width,
            row_end(ctx, start as int, room as nat) == row_end(ctx, i as int, left as nat),
            row_room(ctx, start as int, room as nat) == row_room(ctx, i as int, left as nat),
        ensures
            i >= limit || breaks_before(ctx, i as int, left as nat),
        decreases limit - i,
    {
        if i >= limit {
            break ;
        }
        let w = char_width(options, slice_char(line, i));
        let need: usize = match needs {
            Some(v) => v[i - first],
            None => w,
        };
        assert(need == saturate(ctx.need[i as int]));
        assert(w == ctx.ws[i as int]);
        if need > left && (left < width as usize || !force) {
            assert(breaks_before(ctx, i as int, left as nat));
            break ;
        }
        assert(!breaks_before(ctx, i as int, left as nat));
        proof {
            lemma_saturate_add(prefix_width(ctx.ws, i as int), w);
        }
        left = if w <= left {
            left - w
        } else {
            0
        };
        bcol = bcol.saturating_add(w);
        i = i + 1;
    }
    RowScan { end_char_idx: i, end_bcolumn: bcol, room: left }
}

/// The rows of one line, with the number of rows they take and the display
/// column at which the last of them ends.
pub struct LineRows {
    pub viewport: LineViewport,
    pub rows_used: u16,
    pub end_bcolumn: usize,
}

/// Lays out the rows of one line from its first shown character on.
fn layout_rows(
    options: &BufferLocalOptions,
    line: &RopeSlice,
    needs: Option<&Vec<usize>>,
    first: usize,
    first_bcolumn: usize,
    start_bcolumn: usize,
    width: u16,
    force: bool,
    first_row: u16,
    rows_left: u16,
    Ghost(ctx): Ghost<LineCtx>,
) -> (laid: LineRows)
    requires
        ctx.wf(),
        ctx.ws == line_widths(options, line),
        ctx.width == width,
        ctx.force == force,
        ctx.limit <= usize::MAX,
        needs_match(needs, first, ctx),
        needs is None ==> ctx.limit == ctx.ws.len(),
        first == first_shown(ctx.ws, start_bcolumn),
        first <= ctx.limit,
        first_bcolumn == column(ctx.ws, first as int),
        width >= 1,
        rows_left >= 1,
        first_row + rows_left <= u16::MAX,
    ensures
        laid.viewport@ == line_view(first_row, line_layout(ctx, start_bcolumn, rows_left as nat)),
        laid.rows_used == line_layout(ctx, start_bcolumn, rows_left as nat).rows.len(),
        1 <= laid.rows_used <= rows_left,
        laid.end_bcolumn == line_layout(ctx, start_bcolumn, rows_left as nat).rows.last().end_bcolumn,
{
    let fill: usize = if first_bcolumn <= start_bcolumn {
        0
    } else if first_bcolumn - start_bcolumn < width as usize {
        first_bcolumn - start_bcolumn
    } else {
        width as usize
    };
    assert(fill == leading_fill(ctx.ws, start_bcolumn, width as nat));
    let ghost room0 = (width - fill) as nat;
    let ghost all = rows_from(ctx, first as int, room0, rows_left as nat);
    let ghost tail_fill = trailing_fill_from(ctx, first as int, room0, rows_left as nat);
    let mut rows: BTreeMap<u16, LineViewportRow> = BTreeMap::new();
    let mut done: u16 = 0;
    let mut s: usize = first;
    let mut bcol: usize = first_bcolumn;
    let mut room: usize = width as usize - fill;
    let mut end_fill: usize = 0;
    let mut end_bcolumn: usize = first_bcolumn;
    loop
        invariant_except_break
            done < rows_left,
            end_fill == 0,
            all =~= all.take(done as int) + rows_from(
                ctx,
                s as int,
                room as nat,
                (rows_left - done) as nat,
            ),
            tail_fill == trailing_fill_from(ctx, s as int, room as nat, (rows_left - done) as nat),
        invariant
            ctx.wf(),
            ctx.ws == line_widths(options, line),
            ctx.width == width,
            ctx.force == force,
            ctx.limit <= usize::MAX,
            needs_match(needs, first, ctx),
            needs is None ==> ctx.limit == ctx.ws.len(),
            first <= s <= ctx.limit,
            bcol == column(ctx.ws, s as int),
            room <= width,
            first_row + rows_left <= u16::MAX,
            all == rows_from(ctx, first as int, room0, rows_left as nat),
            done <= all.len(),
            forall|r: u16| rows@.contains_key(r) <==> first_row <= r < first_row + done,
            forall|r: u16| first_row <= r < first_row + done ==> rows@[r] == all[r - first_row],
        ensures
            done == all.len(),
            1 <= done <= rows_left,
            end_fill == tail_fill,
            end_bcolumn == all.last().end_bcolumn,
            forall|r: u16| rows@.contains_key(r) <==> first_row <= r < first_row + done,
            forall|r: u16| first_row <= r < first_row + done ==> rows@[r] == all[r - first_row],
        decreases rows_left - done,
    {
        let ghost rest = rows_from(ctx, s as int, room as nat, (rows_left - done) as nat);
        let scan = scan_row(options, line, needs, first, s, bcol, room, width, force, Ghost(ctx));
        let row = LineViewportRow {
            start_bcolumn: bcol,
            start_char_idx: s,
            end_bcolumn: scan.end_bcolumn,
            end_char_idx: scan.end_char_idx,
        };
        assert(row == row_at(ctx.ws, s as int, scan.end_char_idx as int));
        assert(rest[0] == row);
        assert(all.take(done as int).len() == done);
        assert(all.len() == done + rest.len());
        assert(all[done as int] == (all.take(done as int) + rest)[done as int]);
        rows.insert(first_row + done, row);
        let limit: usize = match needs {
            Some(v) => first + v.len(),
            None => slice_len_chars(line),
        };
        if scan.end_char_idx >= limit || rows_left - done == 1 {
            assert(rest =~= seq![row]);
            assert(all.len() == done + 1);
            if scan.end_char_idx < limit {
                end_fill = scan.room;
            }
            end_bcolumn = scan.end_bcolumn;
            done = done + 1;
            break ;
        }
        proof {
            let next = rows_from(
                ctx,
                scan.end_char_idx as int,
                width as nat,
                (rows_left - done - 1) as nat,
            );
            assert(rest =~= seq![row] + next);
            assert(all.take(done as int + 1) =~= all.take(done as int).push(row));
            assert(all =~= all.take(done as int + 1) + next);
        }
        s = scan.end_char_idx;
        bcol = scan.end_bcolumn;
        room = width as usize;
        done = done + 1;
    }
    let viewport = LineViewport { rows, start_filled_columns: fill, end_filled_columns: end_fill };
    proof {
        let layout = line_layout(ctx, start_bcolumn, rows_left as nat);
        assert(layout.rows == all);
        assert(viewport@.rows =~= line_view(first_row, layout).rows);
    }
    LineRows { viewport, rows_used: done, end_bcolumn }
}

/// The words that a text is split into at the word boundaries of Unicode,
/// each with its characters, in order.
pub uninterp spec fn word_bounds(text: Seq<char>) -> Seq<Seq<char>>;

/// The characters of each of a list of strings.
pub open spec fn segments_text(segments: Seq<String>) -> Seq<Seq<char>> {
    Seq::new(segments.len(), |k: int| segments[k]@)
}

/// The number of characters of each of a list of strings.
pub open spec fn segment_lens(segments: Seq<String>) -> Seq<nat> {
    Seq::new(segments.len(), |k: int| segments[k]@.len())
}

/// Calls `unicode_segmentation::UnicodeSegmentation::split_word_bounds`:
/// the words of a text, which are `word_bounds` of it.
#[verifier::external_body]
fn split_word_bounds(text: &str) -> (segments: Vec<String>)
    ensures
        segments_text(segments@) == word_bounds(text@),
{
    unicode_segmentation::UnicodeSegmentation::split_word_bounds(text).map(String::from).collect()
}

/// The characters of a line from `start` up to `limit`.
pub fn truncate_line(line: &RopeSlice, start: usize, limit: usize) -> (text: String)
    requires
        start <= limit <= slice_chars(*line).len(),
    ensures
        text@ == slice_chars(*line).subrange(start as int, limit as int),
{
    let mut text = String::new();
    let mut i: usize = start;
    while i < limit
        invariant
            start <= i <= limit <= slice_chars(*line).len(),
            text@ == slice_chars(*line).subrange(start as int, i as int),
        decreases limit - i,
    {
        push_char(&mut text, slice_char(line, i));
        i = i + 1;
        assert(text@ =~= slice_chars(*line).subrange(start as int, i as int));
    }
    text
}

/// The character at which a line is cut when it is broken into words, in a
/// window of the given size: four characters for each cell after the first
/// shown one, or the end of the line.
pub fn cut_for_segments(
    options: &BufferLocalOptions,
    line: &RopeSlice,
    start_bcolumn: usize,
    first: usize,
    width: u16,
    height: u16,
) -> (limit: usize)
    requires
        first == first_shown(line_widths(options, line), start_bcolumn),
    ensures
        limit == segment_limit(
            line_widths(options, line),
            start_bcolumn,
            segment_cap(width as nat, height as nat),
        ),
        first <= limit <= slice_chars(*line).len(),
{
    let len = slice_len_chars(line);
    proof {
        lemma_first_shown(line_widths(options, line), start_bcolumn, 0);
    }
    assert(height as nat * width as nat <= 0xffff * 0xffff) by (nonlinear_arith)
        requires
            height <= 0xffff,
            width <= 0xffff,
    ;
    let cells: usize = height as usize * width as usize;
    assert(segment_cap(width as nat, height as nat) == cells * 4) by (nonlinear_arith)
        requires
            cells == height as nat * width as nat,
            segment_cap(width as nat, height as nat) == height as nat * width as nat * 4,
    ;
    if cells > (len - first) / 4 {
        len
    } else {
        let cap: usize = cells * 4;
        if cap < len - first {
            first + cap
        } else {
            len
        }
    }
}

/// The need of each character from `first` up to `limit`, for a line whose
/// shown part is split into the given words.
pub fn segment_needs_of(
    options: &BufferLocalOptions,
    line: &RopeSlice,
    first: usize,
    limit: usize,
    segments: &Vec<String>,
) -> (needs: Vec<usize>)
    requires
        first <= limit <= slice_chars(*line).len(),
    ensures
        needs@.len() == limit - first,
        forall|j: int|
            0 <= j < needs@.len() ==> #[trigger] needs@[j] == saturate(
                segment_needs(
                    line_widths(options, line),
                    first as int,
                    limit as int,
                    segment_lens(segments@),
                )[first + j],
            ),
{
    let ghost ws = line_widths(options, line);
    let ghost lens = segment_lens(segments@);
    let count: usize = limit - first;
    let mut widths: Vec<usize> = Vec::new();
    let mut needs: Vec<usize> = Vec::new();
    let mut j: usize = 0;
    while j < count
        invariant
            ws == line_widths(options, line),
            first <= limit <= slice_chars(*line).len(),
            count == limit - first,
            j <= count,
            widths@.len() == j,
            needs@.len() == j,
            forall|t: int| 0 <= t < j ==> #[trigger] widths@[t] == ws[first + t],
            forall|t: int| 0 <= t < j ==> #[trigger] needs@[t] == ws[first + t],
        decreases count - j,
    {
        let w = char_width(options, slice_char(line, first + j));
        widths.push(w);
        needs.push(w);
        j = j + 1;
    }
    let mut k: usize = 0;
    let mut a: usize = 0;
    while k < segments.len()
        invariant
            ws == line_widths(options, line),
            lens == segment_lens(segments@),
            first <= limit <= ws.len(),
            count == limit - first,
            k <= segments@.len(),
            widths@.len() == count,
            needs@.len() == count,
            forall|t: int| 0 <= t < count ==> #[trigger] widths@[t] == ws[first + t],
            a <= count,
            a == (if segment_offset(lens, k as int) < count {
                segment_offset(lens, k as int)
            } else {
                count as nat
            }),
            forall|t: int|
                0 <= t < count ==> #[trigger] needs@[t] == saturate(
                    marked(ws, first as int, limit as int, lens, k as int)[first + t],
                ),
        decreases segments@.len() - k,
    {
        let len: usize = segments[k].as_str().unicode_len();
        assert(len == lens[k as int]);
        proof {
            crate::ui::viewport::layout::lemma_marked_wf(
                ws,
                first as int,
                limit as int,
                lens,
                k as int,
            );
        }
        let b: usize = if len >= count - a {
            count
        } else {
            a + len
        };
        if a < count && len > 0 {
            let mut sum: usize = 0;
            let mut t: usize = a;
            while t < b
                invariant
                    a <= t <= b <= count,
                    widths@.len() == count,
                    first <= limit <= ws.len(),
                    count == limit - first,
                    forall|u: int| 0 <= u < count ==> #[trigger] widths@[u] == ws[first + u],
                    sum == saturate(span_width(ws, first + a, first + t)),
                decreases b - t,
            {
                proof {
                    lemma_prefix_width_monotonic(ws, first + a, first + t);
                    lemma_saturate_add(span_width(ws, first + a, first + t), widths@[t as int]);
                    assert(span_width(ws, first + a, first + t + 1) == span_width(
                        ws,
                        first + a,
                        first + t,
                    ) + ws[first + t]);
                }
                sum = sum.saturating_add(widths[t]);
                t = t + 1;
            }
            needs.set(a, sum);
        }
        proof {
            let before = marked(ws, first as int, limit as int, lens, k as int);
            let after = marked(ws, first as int, limit as int, lens, k + 1);
            assert forall|t: int| 0 <= t < count implies #[trigger] needs@[t] == saturate(
                after[first + t],
            ) by {}
        }
        a = b;
        k = k + 1;
    }
    needs
}


/// How a window wraps the lines it shows: not at all, at any character, or
/// between words.
#[derive(Debug, Copy, Clone, PartialEq, Eq, Structural)]
pub struct ViewportOptions {
    /// Whether a line that is too long goes on in the next row.
    pub wrap: bool,
    /// Whether a line that wraps is broken between words.
    pub line_break: bool,
}

/// The part of a buffer that a viewport covers: the lines from `start_line`
/// up to `end_line`, and their display columns from `start_bcolumn` up to
/// `end_bcolumn`, the largest at which a row of the viewport ends.
#[derive(Debug, Copy, Clone, PartialEq, Eq, Structural)]
pub struct ViewportRect {
    pub start_line: usize,
    pub end_line: usize,
    pub start_bcolumn: usize,
    pub end_bcolumn: usize,
}

impl Default for ViewportRect {
    fn default() -> (rect: Self)
        ensures
            rect == (ViewportRect { start_line: 0, end_line: 0, start_bcolumn: 0, end_bcolumn: 0 }),
    {
        ViewportRect { start_line: 0, end_line: 0, start_bcolumn: 0, end_bcolumn: 0 }
    }
}

/// What a layout is worked out from, but for the text: the tab stop of the
/// buffer, the size of the window, the display column it is anchored at, and
/// how it wraps.
pub struct Window {
    pub tab_stop: u16,
    pub width: u16,
    pub height: u16,
    pub start_bcolumn: usize,
    pub options: ViewportOptions,
}

/// The number of characters of each word of a text.
pub open spec fn word_lens(text: Seq<char>) -> Seq<nat> {
    Seq::new(word_bounds(text).len(), |k: int| word_bounds(text)[k].len())
}

/// What the rows of a line are made from in a window.
pub open spec fn line_ctx(win: Window, text: Seq<char>) -> LineCtx {
    let ws = char_widths(win.tab_stop, text);
    if !win.options.wrap {
        nowrap_ctx(ws, win.width as nat)
    } else if !win.options.line_break {
        wrap_ctx(ws, win.width as nat)
    } else {
        let first = first_shown(ws, win.start_bcolumn);
        let limit = segment_limit(
            ws,
            win.start_bcolumn,
            segment_cap(win.width as nat, win.height as nat),
        );
        linebreak_ctx(
            ws,
            win.start_bcolumn,
            win.width as nat,
            win.height as nat,
            word_lens(text.subrange(first, limit)),
        )
    }
}

/// The rows that a window has for a line when `used` of its rows are taken:
/// one where lines do not wrap, and all that are left where they do.
pub open spec fn rows_for(win: Window, used: nat) -> nat {
    if used >= win.height {
        0
    } else if !win.options.wrap {
        1
    } else {
        (win.height - used) as nat
    }
}

/// The layout of a line in a window of which `used` rows are taken.
pub open spec fn line_layout_at(win: Window, text: Seq<char>, used: nat) -> LineLayout {
    line_layout(line_ctx(win, text), win.start_bcolumn, rows_for(win, used))
}

/// The window as line `l` sees it. Where lines do not wrap, every line is
/// shown from the anchor's display column. Where they wrap, only the line
/// at the anchor is: each line after it is shown from its first character.
pub open spec fn line_window(win: Window, start_line: int, l: int) -> Window {
    if !win.options.wrap || l == start_line {
        win
    } else {
        Window {
            tab_stop: win.tab_stop,
            width: win.width,
            height: win.height,
            start_bcolumn: 0,
            options: win.options,
        }
    }
}

/// The rows that the lines from `start_line` up to `l` take in a window.
pub open spec fn rows_before(win: Window, lines: Seq<Seq<char>>, start_line: int, l: int) -> nat
    decreases l - start_line,
{
    if l <= start_line {
        0
    } else {
        let used = rows_before(win, lines, start_line, l - 1);
        used + line_layout_at(line_window(win, start_line, l - 1), lines[l - 1], used).rows.len()
    }
}

/// The first line at or after `l` that a window does not show: the buffer
/// has no such line, or the lines before it take all the rows.
pub open spec fn end_line_from(win: Window, lines: Seq<Seq<char>>, start_line: int, l: int) -> int
    decreases lines.len() - l,
{
    if l >= lines.len() || rows_before(win, lines, start_line, l) >= win.height {
        l
    } else {
        end_line_from(win, lines, start_line, l + 1)
    }
}

/// The end display column of a viewport that shows no character: the
/// anchor's column where lines are broken between words, and the column
/// after it otherwise.
pub open spec fn least_end_column(win: Window) -> usize {
    if win.options.wrap && win.options.line_break {
        win.start_bcolumn
    } else if win.start_bcolumn < usize::MAX {
        (win.start_bcolumn + 1) as usize
    } else {
        win.start_bcolumn
    }
}

/// The largest display column at which the last row of a line from
/// `start_line` up to `l` ends, and at least the least end column.
pub open spec fn end_column_upto(win: Window, lines: Seq<Seq<char>>, start_line: int, l: int) -> usize
    decreases l - start_line,
{
    if l <= start_line {
        least_end_column(win)
    } else {
        let before = end_column_upto(win, lines, start_line, l - 1);
        let last = line_layout_at(
            line_window(win, start_line, l - 1),
            lines[l - 1],
            rows_before(win, lines, start_line, l - 1),
        ).rows.last().end_bcolumn;
        if last > before {
            last
        } else {
            before
        }
    }
}

/// A window shows nothing where it has no cell, or where the buffer has no
/// line at the anchor.
pub open spec fn shows_nothing(win: Window, lines: Seq<Seq<char>>, start_line: usize) -> bool {
    win.height == 0 || win.width == 0 || start_line >= lines.len()
}

/// The part of the buffer that a window covers.
pub open spec fn viewport_rect(win: Window, lines: Seq<Seq<char>>, start_line: usize) -> ViewportRect {
    if shows_nothing(win, lines, start_line) {
        ViewportRect { start_line: 0, end_line: 0, start_bcolumn: 0, end_bcolumn: 0 }
    } else {
        let end = end_line_from(win, lines, start_line as int, start_line as int);
        ViewportRect {
            start_line,
            end_line: end as usize,
            start_bcolumn: win.start_bcolumn,
            end_bcolumn: end_column_upto(win, lines, start_line as int, end),
        }
    }
}

/// The rows of each line that a window shows, under the line's index.
pub open spec fn viewport_lines(win: Window, lines: Seq<Seq<char>>, start_line: usize) -> Map<
    usize,
    LineView,
> {
    if shows_nothing(win, lines, start_line) {
        Map::empty()
    } else {
        Map::new(
            |l: usize|
                start_line <= l < end_line_from(win, lines, start_line as int, start_line as int),
            |l: usize|
                line_view(
                    rows_before(win, lines, start_line as int, l as int) as u16,
                    line_layout_at(
                        line_window(win, start_line as int, l as int),
                        lines[l as int],
                        rows_before(win, lines, start_line as int, l as int),
                    ),
                ),
        )
    }
}

/// The rows of each line of a map of line viewports.
pub open spec fn lines_view(lines: Map<usize, LineViewport>) -> Map<usize, LineView> {
    Map::new(|l: usize| lines.contains_key(l), |l: usize| lines[l]@)
}

/// Lays out a line that wraps between words, from its first shown
/// character and its cut, with the words that lie between the two.
fn layout_segmented(
    buffer_options: &BufferLocalOptions,
    line: &RopeSlice,
    segments: &Vec<String>,
    first: usize,
    first_bcolumn: usize,
    limit: usize,
    width: u16,
    height: u16,
    start_bcolumn: usize,
    first_row: u16,
) -> (laid: LineRows)
    requires
        width >= 1,
        first_row < height,
        first == first_shown(line_widths(buffer_options, line), start_bcolumn),
        first_bcolumn == column(line_widths(buffer_options, line), first as int),
        limit == segment_limit(
            line_widths(buffer_options, line),
            start_bcolumn,
            segment_cap(width as nat, height as nat),
        ),
        first <= limit <= slice_chars(*line).len(),
    ensures
        laid.viewport@ == line_view(
            first_row,
            line_layout(
                linebreak_ctx(
                    line_widths(buffer_options, line),
                    start_bcolumn,
                    width as nat,
                    height as nat,
                    segment_lens(segments@),
                ),
                start_bcolumn,
                (height - first_row) as nat,
            ),
        ),
        laid.rows_used == line_layout(
            linebreak_ctx(
                line_widths(buffer_options, line),
                start_bcolumn,
                width as nat,
                height as nat,
                segment_lens(segments@),
            ),
            start_bcolumn,
            (height - first_row) as nat,
        ).rows.len(),
        1 <= laid.rows_used <= height - first_row,
        laid.end_bcolumn == line_layout(
            linebreak_ctx(
                line_widths(buffer_options, line),
                start_bcolumn,
                width as nat,
                height as nat,
                segment_lens(segments@),
            ),
            start_bcolumn,
            (height - first_row) as nat,
        ).rows.last().end_bcolumn,
{
    let ghost ws = line_widths(buffer_options, line);
    let ghost ctx = linebreak_ctx(
        ws,
        start_bcolumn,
        width as nat,
        height as nat,
        segment_lens(segments@),
    );
    proof {
        lemma_ctx_wf(ws, start_bcolumn, width as nat, height as nat, segment_lens(segments@));
    }
    let needs = segment_needs_of(buffer_options, line, first, limit, segments);
    layout_rows(
        buffer_options,
        line,
        Some(&needs),
        first,
        first_bcolumn,
        start_bcolumn,
        width,
        true,
        first_row,
        height - first_row,
        Ghost(ctx),
    )
}

/// Lays out a line that wraps between words, with the words that its shown
/// part is split into: the characters from the first shown one up to the
/// cut of `cut_for_segments`.
pub fn layout_line_with_segments(
    buffer_options: &BufferLocalOptions,
    line: &RopeSlice,
    segments: &Vec<String>,
    width: u16,
    height: u16,
    start_bcolumn: usize,
    first_row: u16,
) -> (laid: LineRows)
    requires
        width >= 1,
        first_row < height,
    ensures
        laid.viewport@ == line_view(
            first_row,
            line_layout(
                linebreak_ctx(
                    line_widths(buffer_options, line),
                    start_bcolumn,
                    width as nat,
                    height as nat,
                    segment_lens(segments@),
                ),
                start_bcolumn,
                (height - first_row) as nat,
            ),
        ),
        laid.rows_used == line_layout(
            linebreak_ctx(
                line_widths(buffer_options, line),
                start_bcolumn,
                width as nat,
                height as nat,
                segment_lens(segments@),
            ),
            start_bcolumn,
            (height - first_row) as nat,
        ).rows.len(),
        1 <= laid.rows_used <= height - first_row,
        laid.end_bcolumn == line_layout(
            linebreak_ctx(
                line_widths(buffer_options, line),
                start_bcolumn,
                width as nat,
                height as nat,
                segment_lens(segments@),
            ),
            start_bcolumn,
            (height - first_row) as nat,
        ).rows.last().end_bcolumn,
{
    let (first, first_bcolumn) = skip_to_column(buffer_options, line, start_bcolumn);
    let limit = cut_for_segments(buffer_options, line, start_bcolumn, first, width, height);
    layout_segmented(
        buffer_options,
        line,
        segments,
        first,
        first_bcolumn,
        limit,
        width,
        height,
        start_bcolumn,
        first_row,
    )
}

/// Lays out one line of a buffer in a window of which the rows above
/// `first_row` are taken.
pub fn layout_line(
    buffer_options: &BufferLocalOptions,
    options: &ViewportOptions,
    line: &RopeSlice,
    width: u16,
    height: u16,
    start_bcolumn: usize,
    first_row: u16,
) -> (laid: LineRows)
    requires
        width >= 1,
        first_row < height,
    ensures
        laid.viewport@ == line_view(
            first_row,
            line_layout_at(
                Window {
                    tab_stop: buffer_options.spec_tab_stop(),
                    width,
                    height,
                    start_bcolumn,
                    options: *options,
                },
                slice_chars(*line),
                first_row as nat,
            ),
        ),
        laid.rows_used == line_layout_at(
            Window {
                tab_stop: buffer_options.spec_tab_stop(),
                width,
                height,
                start_bcolumn,
                options: *options,
            },
            slice_chars(*line),
            first_row as nat,
        ).rows.len(),
        1 <= laid.rows_used <= height - first_row,
        laid.end_bcolumn == line_layout_at(
            Window {
                tab_stop: buffer_options.spec_tab_stop(),
                width,
                height,
                start_bcolumn,
                options: *options,
            },
            slice_chars(*line),
            first_row as nat,
        ).rows.last().end_bcolumn,
{
    let ghost ws = line_widths(buffer_options, line);
    let ghost text = slice_chars(*line);
    proof {
        lemma_ctx_wf(ws, start_bcolumn, width as nat, height as nat, Seq::empty());
        lemma_first_shown(ws, start_bcolumn, 0);
    }
    if options.wrap && options.line_break {
        let (first, first_bcolumn) = skip_to_column(buffer_options, line, start_bcolumn);
        let limit = cut_for_segments(buffer_options, line, start_bcolumn, first, width, height);
        let shown = truncate_line(line, first, limit);
        let segments = split_word_bounds(shown.as_str());
        assert(segment_lens(segments@) =~= word_lens(text.subrange(first as int, limit as int))) by {
            assert(segments_text(segments@) == word_bounds(shown@));
            assert forall|k: int| 0 <= k < segments@.len() implies segments@[k]@.len()
                == word_bounds(shown@)[k].len() by {
                assert(segments_text(segments@)[k] == segments@[k]@);
            }
            assert(segments_text(segments@).len() == segments@.len());
        }
        layout_segmented(
            buffer_options,
            line,
            &segments,
            first,
            first_bcolumn,
            limit,
            width,
            height,
            start_bcolumn,
            first_row,
        )
    } else {
        let (first, first_bcolumn) = skip_to_column(buffer_options, line, start_bcolumn);
        let rows_left: u16 = if options.wrap {
            height - first_row
        } else {
            1
        };
        let ghost ctx = if options.wrap {
            wrap_ctx(ws, width as nat)
        } else {
            nowrap_ctx(ws, width as nat)
        };
        layout_rows(
            buffer_options,
            line,
            None,
            first,
            first_bcolumn,
            start_bcolumn,
            width,
            options.wrap,
            first_row,
            rows_left,
            Ghost(ctx),
        )
    }
}


/// However a window wraps, the rows of a line that it shows follow one
/// another without a gap or an overlap: the first starts at the first shown
/// character, each of the others where the one before it ends, and read one
/// after the other they are exactly the shown part of the line, from the
/// first shown character up to the end of the last row.
pub proof fn lemma_rows_reconstruct_shown_part(win: Window, text: Seq<char>, used: nat)
    requires
        used < win.height,
        text.len() <= usize::MAX,
    ensures
        line_layout_at(win, text, used).rows.len() >= 1,
        line_layout_at(win, text, used).rows.len() <= rows_for(win, used),
        line_layout_at(win, text, used).rows[0].start_char_idx == first_shown(
            char_widths(win.tab_stop, text),
            win.start_bcolumn,
        ),
        forall|k: int|
            0 <= k < line_layout_at(win, text, used).rows.len() ==> (#[trigger] line_layout_at(
                win,
                text,
                used,
            ).rows[k]).start_char_idx <= line_layout_at(win, text, used).rows[k].end_char_idx
                <= text.len(),
        forall|k: int|
            0 <= k < line_layout_at(win, text, used).rows.len() - 1 ==> (#[trigger] line_layout_at(
                win,
                text,
                used,
            ).rows[k]).end_char_idx == line_layout_at(win, text, used).rows[k + 1].start_char_idx,
        rows_text(text, line_layout_at(win, text, used).rows) == text.subrange(
            first_shown(char_widths(win.tab_stop, text), win.start_bcolumn),
            line_layout_at(win, text, used).rows.last().end_char_idx as int,
        ),
{
    let ws = char_widths(win.tab_stop, text);
    let ctx = line_ctx(win, text);
    let first = first_shown(ws, win.start_bcolumn);
    let limit = segment_limit(
        ws,
        win.start_bcolumn,
        segment_cap(win.width as nat, win.height as nat),
    );
    lemma_ctx_wf(
        ws,
        win.start_bcolumn,
        win.width as nat,
        win.height as nat,
        word_lens(text.subrange(first, limit)),
    );
    lemma_first_shown(ws, win.start_bcolumn, 0);
    let fill = leading_fill(ws, win.start_bcolumn, ctx.width);
    let room = (ctx.width - fill) as nat;
    let rows = rows_from(ctx, first, room, rows_for(win, used));
    lemma_rows_contiguous(ctx, first, room, rows_for(win, used));
    assert(rows == line_layout_at(win, text, used).rows);
    lemma_rows_text(text, rows);
}

/// Each line that a window shows takes at least one of its rows: the rows
/// that the lines from the anchor's up to `l` take are at least as many as
/// these lines, or all the rows of the window.
pub proof fn lemma_lines_take_rows(win: Window, lines: Seq<Seq<char>>, start_line: int, l: int)
    requires
        0 <= start_line <= l <= lines.len(),
        forall|k: int| 0 <= k < lines.len() ==> (#[trigger] lines[k]).len() <= usize::MAX,
    ensures
        rows_before(win, lines, start_line, l) >= l - start_line || rows_before(
            win,
            lines,
            start_line,
            l,
        ) >= win.height,
    decreases l - start_line,
{
    if l > start_line {
        lemma_lines_take_rows(win, lines, start_line, l - 1);
        let used = rows_before(win, lines, start_line, l - 1);
        if used < win.height {
            lemma_rows_reconstruct_shown_part(
                line_window(win, start_line, l - 1),
                lines[l - 1],
                used,
            );
        }
    }
}

/// The viewport ends within the buffer, and at or after any line up to which
/// the window has rows left.
proof fn lemma_end_line_bounds(win: Window, lines: Seq<Seq<char>>, start_line: int, l: int)
    requires
        0 <= start_line <= l <= lines.len(),
    ensures
        l <= end_line_from(win, lines, start_line, l) <= lines.len(),
        end_line_from(win, lines, start_line, l) < lines.len() ==> rows_before(
            win,
            lines,
            start_line,
            end_line_from(win, lines, start_line, l),
        ) >= win.height,
        forall|k: int|
            l <= k < end_line_from(win, lines, start_line, l) ==> rows_before(
                win,
                lines,
                start_line,
                k,
            ) < win.height,
    decreases lines.len() - l,
{
    if !(l >= lines.len() || rows_before(win, lines, start_line, l) >= win.height) {
        lemma_end_line_bounds(win, lines, start_line, l + 1);
    }
}

/// A window with a cell, anchored at a line of the buffer, shows that line,
/// does not show more lines than it has rows, and shows lines one after the
/// other until the buffer ends or its rows are taken.
pub proof fn lemma_viewport_covers_lines(win: Window, lines: Seq<Seq<char>>, start_line: usize)
    requires
        !shows_nothing(win, lines, start_line),
        lines.len() <= usize::MAX,
        forall|k: int| 0 <= k < lines.len() ==> (#[trigger] lines[k]).len() <= usize::MAX,
    ensures
        viewport_rect(win, lines, start_line).start_line == start_line,
        start_line < viewport_rect(win, lines, start_line).end_line <= lines.len(),
        viewport_rect(win, lines, start_line).end_line - start_line <= win.height,
        forall|l: usize|
            viewport_lines(win, lines, start_line).contains_key(l) <==> start_line <= l
                < viewport_rect(win, lines, start_line).end_line,
        viewport_rect(win, lines, start_line).end_line < lines.len() ==> rows_before(
            win,
            lines,
            start_line as int,
            viewport_rect(win, lines, start_line).end_line as int,
        ) >= win.height,
{
    let end = end_line_from(win, lines, start_line as int, start_line as int);
    lemma_end_line_bounds(win, lines, start_line as int, start_line as int);
    assert(rows_before(win, lines, start_line as int, start_line as int) == 0);
    assert(end == end_line_from(win, lines, start_line as int, start_line + 1));
    lemma_end_line_bounds(win, lines, start_line as int, start_line + 1);
    if end - start_line > win.height {
        lemma_lines_take_rows(win, lines, start_line as int, end - 1);
        assert(rows_before(win, lines, start_line as int, end - 1) < win.height);
    }
}

/// A buffer without text has one line, which is empty. In a window with at
/// least one cell it takes one row, and the row holds no character. The
/// viewport covers that line, and ends at the least end column of the way
/// it wraps.
pub proof fn lemma_empty_buffer_has_one_empty_row(win: Window)
    requires
        win.width >= 1,
        win.height >= 1,
    ensures
        viewport_rect(win, seq![Seq::<char>::empty()], 0) == (ViewportRect {
            start_line: 0,
            end_line: 1,
            start_bcolumn: win.start_bcolumn,
            end_bcolumn: least_end_column(win),
        }),
        viewport_lines(win, seq![Seq::<char>::empty()], 0).dom() =~= set![0usize],
        viewport_lines(win, seq![Seq::<char>::empty()], 0)[0].rows.dom() =~= set![0u16],
        viewport_lines(win, seq![Seq::<char>::empty()], 0)[0].rows[0] == (LineViewportRow {
            start_bcolumn: 0,
            start_char_idx: 0,
            end_bcolumn: 0,
            end_char_idx: 0,
        }),
        viewport_lines(win, seq![Seq::<char>::empty()], 0)[0].start_filled_columns == 0,
        viewport_lines(win, seq![Seq::<char>::empty()], 0)[0].end_filled_columns == 0,
{
    let text = Seq::<char>::empty();
    let lines = seq![text];
    let ws = char_widths(win.tab_stop, text);
    let ctx = line_ctx(win, text);
    assert(ws.len() == 0);
    assert(ctx.limit == 0);
    assert(first_shown(ws, win.start_bcolumn) == 0);
    assert(prefix_width(ws, 0) == 0);
    assert(leading_fill(ws, win.start_bcolumn, ctx.width) == 0);
    assert(rows_for(win, 0) >= 1);
    let layout = line_layout_at(win, text, 0);
    assert(row_end(ctx, 0, ctx.width) == 0);
    assert(layout.rows =~= seq![row_at(ws, 0, 0)]);
    assert(layout.end_filled_columns == 0);
    assert(rows_before(win, lines, 0, 0) == 0);
    assert(lines[0] == text);
    assert(line_window(win, 0, 0) == win);
    assert(rows_before(win, lines, 0, 1) == 1) by {
        assert(rows_before(win, lines, 0, 1) == rows_before(win, lines, 0, 0) + line_layout_at(
            line_window(win, 0, 0),
            lines[0],
            rows_before(win, lines, 0, 0),
        ).rows.len());
    }
    assert(end_line_from(win, lines, 0, 1) == 1);
    assert(end_line_from(win, lines, 0, 0) == 1);
    assert(end_column_upto(win, lines, 0, 0) == least_end_column(win));
    assert(end_column_upto(win, lines, 0, 1) == least_end_column(win));
}

/// The window that a buffer is laid out in.
pub open spec fn window_of(
    options: ViewportOptions,
    buffer: &Buffer,
    actual_shape: &U16Rect,
    start_bcolumn: usize,
) -> Window {
    Window {
        tab_stop: buffer.spec_tab_stop(),
        width: actual_shape.spec_width() as u16,
        height: actual_shape.spec_height() as u16,
        start_bcolumn,
        options,
    }
}

/// Lays out the lines of a buffer from `start_line` on, row after row, until
/// the buffer or the window ends.
fn collect_lines(
    options: &ViewportOptions,
    buffer: &Buffer,
    actual_shape: &U16Rect,
    start_line: usize,
    start_bcolumn: usize,
) -> (collected: (ViewportRect, BTreeMap<usize, LineViewport>))
    ensures
        collected.0 == viewport_rect(
            window_of(*options, buffer, actual_shape, start_bcolumn),
            buffer.lines(),
            start_line,
        ),
        lines_view(collected.1@) == viewport_lines(
            window_of(*options, buffer, actual_shape, start_bcolumn),
            buffer.lines(),
            start_line,
        ),
{
    let ghost win = window_of(*options, buffer, actual_shape, start_bcolumn);
    let ghost text = buffer.lines();
    let height = actual_shape.height();
    let width = actual_shape.width();
    let total = buffer.len_lines();
    let mut lines: BTreeMap<usize, LineViewport> = BTreeMap::new();
    if height == 0 || width == 0 || start_line >= total {
        assert(lines_view(lines@) =~= viewport_lines(win, text, start_line));
        return (ViewportRect::default(), lines);
    }
    let mut l: usize = start_line;
    let mut row: u16 = 0;
    let mut end_bcolumn: usize = if options.wrap && options.line_break {
        start_bcolumn
    } else if start_bcolumn < usize::MAX {
        start_bcolumn + 1
    } else {
        start_bcolumn
    };
    while l < total && row < height
        invariant
            win == window_of(*options, buffer, actual_shape, start_bcolumn),
            win.height == height,
            win.width == width,
            width >= 1,
            text == buffer.lines(),
            total == text.len(),
            start_line <= l <= total,
            row <= height,
            row == rows_before(win, text, start_line as int, l as int),
            end_line_from(win, text, start_line as int, start_line as int) == end_line_from(
                win,
                text,
                start_line as int,
                l as int,
            ),
            end_bcolumn == end_column_upto(win, text, start_line as int, l as int),
            forall|k: usize| lines@.contains_key(k) <==> start_line <= k < l,
            forall|k: usize|
                start_line <= k < l ==> (#[trigger] lines@[k])@ == line_view(
                    rows_before(win, text, start_line as int, k as int) as u16,
                    line_layout_at(
                        line_window(win, start_line as int, k as int),
                        text[k as int],
                        rows_before(win, text, start_line as int, k as int),
                    ),
                ),
        decreases total - l,
    {
        let line = buffer.get_line(l).unwrap();
        let start: usize = if !options.wrap || l == start_line {
            start_bcolumn
        } else {
            0
        };
        let laid = layout_line(buffer.options(), options, &line, width, height, start, row);
        lines.insert(l, laid.viewport);
        if laid.end_bcolumn > end_bcolumn {
            end_bcolumn = laid.end_bcolumn;
        }
        row = row + laid.rows_used;
        l = l + 1;
    }
    let rect = ViewportRect { start_line, end_line: l, start_bcolumn, end_bcolumn };
    assert(lines_view(lines@) =~= viewport_lines(win, text, start_line));
    (rect, lines)
}

/// Lays out a buffer without wrapping: each line has one row, and what
/// does not fit into it is not shown.
pub fn _collect_from_top_left_with_nowrap(
    options: &ViewportOptions,
    buffer: &Buffer,
    actual_shape: &U16Rect,
    start_line: usize,
    start_bcolumn: usize,
) -> (collected: (ViewportRect, BTreeMap<usize, LineViewport>))
    ensures
        collected.0 == viewport_rect(
            window_of(
                ViewportOptions { wrap: false, line_break: options.line_break },
                buffer,
                actual_shape,
                start_bcolumn,
            ),
            buffer.lines(),
            start_line,
        ),
        lines_view(collected.1@) == viewport_lines(
            window_of(
                ViewportOptions { wrap: false, line_break: options.line_break },
                buffer,
                actual_shape,
                start_bcolumn,
            ),
            buffer.lines(),
            start_line,
        ),
{
    let mode = ViewportOptions { wrap: false, line_break: options.line_break };
    collect_lines(&mode, buffer, actual_shape, start_line, start_bcolumn)
}

/// Lays out a buffer with lines that wrap at any character: a line goes on
/// in the next row with the first character that does not fit.
pub fn _collect_from_top_left_with_wrap_nolinebreak(
    options: &ViewportOptions,
    buffer: &Buffer,
    actual_shape: &U16Rect,
    start_line: usize,
    start_bcolumn: usize,
) -> (collected: (ViewportRect, BTreeMap<usize, LineViewport>))
    ensures
        collected.0 == viewport_rect(
            window_of(
                ViewportOptions { wrap: true, line_break: false },
                buffer,
                actual_shape,
                start_bcolumn,
            ),
            buffer.lines(),
            start_line,
        ),
        lines_view(collected.1@) == viewport_lines(
            window_of(
                ViewportOptions { wrap: true, line_break: false },
                buffer,
                actual_shape,
                start_bcolumn,
            ),
            buffer.lines(),
            start_line,
        ),
{
    let mode = ViewportOptions { wrap: true, line_break: false };
    collect_lines(&mode, buffer, actual_shape, start_line, start_bcolumn)
}

/// Lays out a buffer with lines that wrap between words: a line goes on in
/// the next row with the first word that does not fit, and a word wider
/// than a row is split.
pub fn _collect_from_top_left_with_wrap_linebreak(
    options: &ViewportOptions,
    buffer: &Buffer,
    actual_shape: &U16Rect,
    start_line: usize,
    start_bcolumn: usize,
) -> (collected: (ViewportRect, BTreeMap<usize, LineViewport>))
    ensures
        collected.0 == viewport_rect(
            window_of(
                ViewportOptions { wrap: true, line_break: true },
                buffer,
                actual_shape,
                start_bcolumn,
            ),
            buffer.lines(),
            start_line,
        ),
        lines_view(collected.1@) == viewport_lines(
            window_of(
                ViewportOptions { wrap: true, line_break: true },
                buffer,
                actual_shape,
                start_bcolumn,
            ),
            buffer.lines(),
            start_line,
        ),
{
    let mode = ViewportOptions { wrap: true, line_break: true };
    collect_lines(&mode, buffer, actual_shape, start_line, start_bcolumn)
}

/// Lays out a buffer in a window, from the line `start_line` and the
/// display column `start_bcolumn` at the window's top left corner. A window
/// without a cell shows nothing, whatever the buffer holds.
pub fn collect_from_top_left(
    options: &ViewportOptions,
    buffer: &Buffer,
    actual_shape: &U16Rect,
    start_line: usize,
    start_bcolumn: usize,
) -> (collected: (ViewportRect, BTreeMap<usize, LineViewport>))
    ensures
        collected.0 == viewport_rect(
            window_of(*options, buffer, actual_shape, start_bcolumn),
            buffer.lines(),
            start_line,
        ),
        lines_view(collected.1@) == viewport_lines(
            window_of(*options, buffer, actual_shape, start_bcolumn),
            buffer.lines(),
            start_line,
        ),
        actual_shape.spec_height() == 0 || actual_shape.spec_width() == 0 ==> collected.0 == (
        ViewportRect { start_line: 0, end_line: 0, start_bcolumn: 0, end_bcolumn: 0 })
            && collected.1@ == Map::<usize, LineViewport>::empty(),
{
    let height = actual_shape.height();
    let width = actual_shape.width();
    if height == 0 || width == 0 {
        let lines: BTreeMap<usize, LineViewport> = BTreeMap::new();
        assert(lines_view(lines@) =~= viewport_lines(
            window_of(*options, buffer, actual_shape, start_bcolumn),
            buffer.lines(),
            start_line,
        ));
        return (ViewportRect::default(), lines);
    }
    if !options.wrap {
        _collect_from_top_left_with_nowrap(options, buffer, actual_shape, start_line, start_bcolumn)
    } else if !options.line_break {
        _collect_from_top_left_with_wrap_nolinebreak(
            options,
            buffer,
            actual_shape,
            start_line,
            start_bcolumn,
        )
    } else {
        _collect_from_top_left_with_wrap_linebreak(
            options,
            buffer,
            actual_shape,
            start_line,
            start_bcolumn,
        )
    }
}

/// What a window shows of a buffer: the lines it covers, and for each of
/// them the rows it takes and the characters in each row.
///
/// A viewport is worked out once, from the buffer as it is then, and does
/// not follow the buffer: after an edit, a change of the window's size or of
/// its options, a new one has to be made.
#[derive(Debug)]
pub struct Viewport {
    options: ViewportOptions,
    actual_shape: U16Rect,
    start_line: usize,
    end_line: usize,
    start_bcolumn: usize,
    end_bcolumn: usize,
    lines: BTreeMap<usize, LineViewport>,
}

impl Viewport {
    /// The part of the buffer that the viewport covers.
    pub closed spec fn rect(&self) -> ViewportRect {
        ViewportRect {
            start_line: self.start_line,
            end_line: self.end_line,
            start_bcolumn: self.start_bcolumn,
            end_bcolumn: self.end_bcolumn,
        }
    }

    /// The line viewports, each under the index of its line.
    pub closed spec fn spec_lines(&self) -> Map<usize, LineViewport> {
        self.lines@
    }

    /// The options the viewport was made with.
    pub closed spec fn spec_options(&self) -> ViewportOptions {
        self.options
    }

    /// The shape of the window the viewport was made for.
    pub closed spec fn spec_shape(&self) -> U16Rect {
        self.actual_shape
    }

    /// The viewport of a buffer in a window, from the buffer's first line
    /// and first display column.
    pub fn new(options: &ViewportOptions, buffer: &Buffer, actual_shape: &U16Rect) -> (viewport: Self)
        ensures
            viewport.spec_options() == *options,
            viewport.spec_shape() == *actual_shape,
            viewport.rect() == viewport_rect(
                window_of(*options, buffer, actual_shape, 0),
                buffer.lines(),
                0,
            ),
            lines_view(viewport.spec_lines()) == viewport_lines(
                window_of(*options, buffer, actual_shape, 0),
                buffer.lines(),
                0,
            ),
    {
        let (rectangle, lines) = collect_from_top_left(options, buffer, actual_shape, 0, 0);
        Viewport {
            options: *options,
            actual_shape: *actual_shape,
            start_line: rectangle.start_line,
            end_line: rectangle.end_line,
            start_bcolumn: rectangle.start_bcolumn,
            end_bcolumn: rectangle.end_bcolumn,
            lines,
        }
    }

    /// The first line of the buffer that the viewport covers.
    pub fn start_line_idx(&self) -> (line: usize)
        ensures
            line == self.rect().start_line,
    {
        self.start_line
    }

    /// The line after the last one that the viewport covers.
    pub fn end_line_idx(&self) -> (line: usize)
        ensures
            line == self.rect().end_line,
    {
        self.end_line
    }

    /// The display column that the viewport starts at.
    pub fn start_dcolumn_idx(&self) -> (column: usize)
        ensures
            column == self.rect().start_bcolumn,
    {
        self.start_bcolumn
    }

    /// The largest display column at which a line of the viewport ends.
    pub fn end_dcolumn_idx(&self) -> (column: usize)
        ensures
            column == self.rect().end_bcolumn,
    {
        self.end_bcolumn
    }

    /// The rows of each line that the viewport covers.
    pub fn lines(&self) -> (lines: &BTreeMap<usize, LineViewport>)
        ensures
            lines@ == self.spec_lines(),
    {
        &self.lines
    }
}


} // verus!
