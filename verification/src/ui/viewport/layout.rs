//! How the characters of a line are laid out in rows.
//!
//! The layout of a line depends on the widths of its characters alone. A
//! line is shown from the first character that starts at or after the
//! anchor's display column; a character that starts before it is left out,
//! and where such a character reaches beyond the anchor, the cells it would
//! have taken there stay blank at the start of the line's first row.
//!
//! A row takes characters as long as they fit into the cells it has left.
//! Without wrapping the line has this one row, and the first character that
//! does not fit ends it. With wrapping that character opens the next row;
//! a character wider than a whole row stands in a row of its own and hangs
//! over its end. With line breaks a row also ends before a word that does
//! not fit into what is left of it, while a word wider than a whole row is
//! split character by character. Where the window has no row left for a
//! character of the line, the cells left over in the last row are the
//! line's trailing blanks.

use crate::buf::unicode::{prefix_width, saturate};
use crate::ui::viewport::LineViewportRow;
use vstd::prelude::*;

verus! {

/// The display column at which character `i` starts, which is where the
/// character before it ends.
pub open spec fn column(ws: Seq<nat>, i: int) -> usize {
    saturate(prefix_width(ws, i))
}

/// The first character at or after `i` that starts at or after the display
/// column `start`, and the length of the line where there is none.
pub open spec fn first_shown_from(ws: Seq<nat>, start: usize, i: int) -> int
    decreases ws.len() - i,
{
    if i >= ws.len() {
        ws.len() as int
    } else if column(ws, i) >= start {
        i
    } else {
        first_shown_from(ws, start, i + 1)
    }
}

/// The first character that starts at or after the display column `start`.
pub open spec fn first_shown(ws: Seq<nat>, start: usize) -> int {
    first_shown_from(ws, start, 0)
}

/// The blank cells at the start of a line's first row: the part beyond
/// `start` of a character that starts before it, at most a whole row.
pub open spec fn leading_fill(ws: Seq<nat>, start: usize, width: nat) -> nat {
    let reached = column(ws, first_shown(ws, start));
    if reached <= start {
        0
    } else if reached - start < width {
        (reached - start) as nat
    } else {
        width
    }
}

/// What the rows of one line are made from: the width of each character; for
/// each character the cells that must be free for it to start in a row that
/// already holds something (its own width, or the width of the word it
/// begins); the character at which the line is cut off; the cells of a row;
/// and whether a character may hang over the end of an empty row.
pub struct LineCtx {
    pub ws: Seq<nat>,
    pub need: Seq<nat>,
    pub limit: int,
    pub width: nat,
    pub force: bool,
}

impl LineCtx {
    /// The parts fit together: one need for each character, none below the
    /// character's width, and the cut within the line.
    pub open spec fn wf(self) -> bool {
        &&& self.need.len() == self.ws.len()
        &&& 0 <= self.limit <= self.ws.len()
        &&& forall|i: int| 0 <= i < self.ws.len() ==> self.ws[i] <= #[trigger] self.need[i]
    }
}

/// Whether a row with `room` cells left ends before character `i`: the
/// character's need does not fit, and the row holds something or nothing may
/// hang over.
pub open spec fn breaks_before(ctx: LineCtx, i: int, room: nat) -> bool {
    ctx.need[i] > room && (room < ctx.width || !ctx.force)
}

/// The cells a row has left after it took character `i`.
pub open spec fn room_after(ctx: LineCtx, i: int, room: nat) -> nat {
    if ctx.ws[i] <= room {
        (room - ctx.ws[i]) as nat
    } else {
        0
    }
}

/// The character at which a row ends that stands at character `i` with
/// `room` cells left.
pub open spec fn row_end(ctx: LineCtx, i: int, room: nat) -> int
    decreases ctx.limit - i,
{
    if i >= ctx.limit || breaks_before(ctx, i, room) {
        i
    } else {
        row_end(ctx, i + 1, room_after(ctx, i, room))
    }
}

/// The cells left over at the end of a row that stands at character `i` with
/// `room` cells left.
pub open spec fn row_room(ctx: LineCtx, i: int, room: nat) -> nat
    decreases ctx.limit - i,
{
    if i >= ctx.limit || breaks_before(ctx, i, room) {
        room
    } else {
        row_room(ctx, i + 1, room_after(ctx, i, room))
    }
}

/// The row that holds the characters from `s` up to `e`.
pub open spec fn row_at(ws: Seq<nat>, s: int, e: int) -> LineViewportRow {
    LineViewportRow {
        start_bcolumn: column(ws, s),
        start_char_idx: s as usize,
        end_bcolumn: column(ws, e),
        end_char_idx: e as usize,
    }
}

/// The rows of a line from character `s` on, where the first of them has
/// `room` cells left and the window has `rows_left` rows for them.
pub open spec fn rows_from(ctx: LineCtx, s: int, room: nat, rows_left: nat) -> Seq<LineViewportRow>
    decreases rows_left,
{
    if rows_left == 0 {
        Seq::empty()
    } else {
        let e = row_end(ctx, s, room);
        if e >= ctx.limit || rows_left == 1 {
            seq![row_at(ctx.ws, s, e)]
        } else {
            seq![row_at(ctx.ws, s, e)] + rows_from(ctx, e, ctx.width, (rows_left - 1) as nat)
        }
    }
}

/// The blank cells at the end of a line's last row: what that row has left
/// where the window ends before the line does, and none where the line is
/// shown to its end.
pub open spec fn trailing_fill_from(ctx: LineCtx, s: int, room: nat, rows_left: nat) -> nat
    decreases rows_left,
{
    if rows_left == 0 {
        0
    } else {
        let e = row_end(ctx, s, room);
        if e >= ctx.limit {
            0
        } else if rows_left == 1 {
            row_room(ctx, s, room)
        } else {
            trailing_fill_from(ctx, e, ctx.width, (rows_left - 1) as nat)
        }
    }
}

/// The layout of one line: its rows from top to bottom, and the blank cells
/// at the start of the first and at the end of the last.
pub struct LineLayout {
    pub rows: Seq<LineViewportRow>,
    pub start_filled_columns: usize,
    pub end_filled_columns: usize,
}

/// The layout of a line that is shown from the display column `start` in a
/// window that has `rows_left` rows for it.
pub open spec fn line_layout(ctx: LineCtx, start: usize, rows_left: nat) -> LineLayout {
    let first = first_shown(ctx.ws, start);
    let fill = leading_fill(ctx.ws, start, ctx.width);
    let room = (ctx.width - fill) as nat;
    LineLayout {
        rows: rows_from(ctx, first, room, rows_left),
        start_filled_columns: fill as usize,
        end_filled_columns: trailing_fill_from(ctx, first, room, rows_left) as usize,
    }
}

/// The cells that the characters from `a` up to `b` take together.
pub open spec fn span_width(ws: Seq<nat>, a: int, b: int) -> nat {
    (prefix_width(ws, b) - prefix_width(ws, a)) as nat
}

/// The number of characters in the first `k` words.
pub open spec fn segment_offset(lens: Seq<nat>, k: int) -> nat
    decreases k,
{
    if k <= 0 {
        0
    } else {
        segment_offset(lens, k - 1) + lens[k - 1]
    }
}

/// The needs of the characters after the first `k` words are marked: the
/// first character of each of these words needs the cells of the whole word,
/// as far as the word lies before the cut, and every other character needs
/// its own width. The words follow one another from character `first` on,
/// word `k` with `lens[k]` characters.
pub open spec fn marked(ws: Seq<nat>, first: int, limit: int, lens: Seq<nat>, k: int) -> Seq<nat>
    decreases k,
{
    if k <= 0 {
        ws
    } else {
        let before = marked(ws, first, limit, lens, k - 1);
        let a = first + segment_offset(lens, k - 1);
        let b = if a + lens[k - 1] < limit {
            a + lens[k - 1]
        } else {
            limit
        };
        if a < limit && lens[k - 1] > 0 {
            before.update(a, span_width(ws, a, b))
        } else {
            before
        }
    }
}

/// The needs of the characters of a line whose shown part is made of the
/// given words.
pub open spec fn segment_needs(ws: Seq<nat>, first: int, limit: int, lens: Seq<nat>) -> Seq<nat> {
    marked(ws, first, limit, lens, lens.len() as int)
}

/// The number of characters a line is cut to when it is broken into words:
/// four for each cell of the window.
pub open spec fn segment_cap(width: nat, height: nat) -> nat {
    height * width * 4
}

/// The character at which a line is cut when it is broken into words: at
/// most `cap` characters after the first shown one.
pub open spec fn segment_limit(ws: Seq<nat>, start: usize, cap: nat) -> int {
    let first = first_shown(ws, start);
    if first + cap < ws.len() {
        first + cap
    } else {
        ws.len() as int
    }
}

/// What the single row of a line is made from where lines do not wrap.
pub open spec fn nowrap_ctx(ws: Seq<nat>, width: nat) -> LineCtx {
    LineCtx { ws, need: ws, limit: ws.len() as int, width, force: false }
}

/// What the rows of a line are made from where lines wrap at any
/// character.
pub open spec fn wrap_ctx(ws: Seq<nat>, width: nat) -> LineCtx {
    LineCtx { ws, need: ws, limit: ws.len() as int, width, force: true }
}

/// What the rows of a line are made from where lines wrap between words:
/// `lens` holds the number of characters of each word of the shown part.
pub open spec fn linebreak_ctx(
    ws: Seq<nat>,
    start: usize,
    width: nat,
    height: nat,
    lens: Seq<nat>,
) -> LineCtx {
    let first = first_shown(ws, start);
    let limit = segment_limit(ws, start, segment_cap(width, height));
    LineCtx { ws, need: segment_needs(ws, first, limit, lens), limit, width, force: true }
}

/// Marking words keeps one need for each character, and none below the
/// character's own width.
pub proof fn lemma_marked_wf(ws: Seq<nat>, first: int, limit: int, lens: Seq<nat>, k: int)
    requires
        0 <= first <= limit <= ws.len(),
    ensures
        marked(ws, first, limit, lens, k).len() == ws.len(),
        forall|i: int| 0 <= i < ws.len() ==> ws[i] <= #[trigger] marked(ws, first, limit, lens, k)[i],
    decreases k,
{
    if k > 0 {
        lemma_marked_wf(ws, first, limit, lens, k - 1);
        let a = first + segment_offset(lens, k - 1);
        let b = if a + lens[k - 1] < limit {
            a + lens[k - 1]
        } else {
            limit
        };
        if a < limit && lens[k - 1] > 0 {
            crate::buf::unicode::lemma_prefix_width_monotonic(ws, a + 1, b);
        }
    }
}

/// Every way of wrapping gives parts that fit together.
pub proof fn lemma_ctx_wf(ws: Seq<nat>, start: usize, width: nat, height: nat, lens: Seq<nat>)
    ensures
        nowrap_ctx(ws, width).wf(),
        wrap_ctx(ws, width).wf(),
        linebreak_ctx(ws, start, width, height, lens).wf(),
        first_shown(ws, start) <= linebreak_ctx(ws, start, width, height, lens).limit,
{
    lemma_first_shown(ws, start, 0);
    let first = first_shown(ws, start);
    let limit = segment_limit(ws, start, segment_cap(width, height));
    lemma_marked_wf(ws, first, limit, lens, lens.len() as int);
}

/// The characters of the rows, one row after the other.
pub open spec fn rows_text(text: Seq<char>, rows: Seq<LineViewportRow>) -> Seq<char>
    decreases rows.len(),
{
    if rows.len() == 0 {
        Seq::empty()
    } else {
        rows_text(text, rows.drop_last()) + text.subrange(
            rows.last().start_char_idx as int,
            rows.last().end_char_idx as int,
        )
    }
}

/// The first shown character lies in the line, every character before it
/// starts before `start`, and it starts at or after `start` itself unless
/// the line ends first.
pub proof fn lemma_first_shown(ws: Seq<nat>, start: usize, i: int)
    requires
        0 <= i <= ws.len(),
    ensures
        i <= first_shown_from(ws, start, i) <= ws.len(),
        forall|j: int| i <= j < first_shown_from(ws, start, i) ==> column(ws, j) < start,
        first_shown_from(ws, start, i) < ws.len() ==> column(ws, first_shown_from(ws, start, i))
            >= start,
    decreases ws.len() - i,
{
    if i < ws.len() && column(ws, i) < start {
        lemma_first_shown(ws, start, i + 1);
    }
}

/// A row ends at or after the character it starts with, and within the
/// line.
pub proof fn lemma_row_end_bounds(ctx: LineCtx, i: int, room: nat)
    requires
        i <= ctx.limit,
    ensures
        i <= row_end(ctx, i, room) <= ctx.limit,
    decreases ctx.limit - i,
{
    if !(i >= ctx.limit || breaks_before(ctx, i, room)) {
        lemma_row_end_bounds(ctx, i + 1, room_after(ctx, i, room));
    }
}

/// With wrapping, an empty row takes at least one character of what is left
/// of the line.
pub proof fn lemma_fresh_row_advances(ctx: LineCtx, i: int)
    requires
        ctx.force,
        i < ctx.limit,
    ensures
        i < row_end(ctx, i, ctx.width) <= ctx.limit,
{
    lemma_row_end_bounds(ctx, i + 1, room_after(ctx, i, ctx.width));
}

/// The rows of a line follow one another without a gap or an overlap: the
/// first starts at the first shown character, each of the others where the
/// one before it ends, and none reaches beyond the line. There is at least
/// one row, and never more than the window has left. Where the window has
/// rows to spare, the last row ends with the line.
pub proof fn lemma_rows_contiguous(ctx: LineCtx, s: int, room: nat, rows_left: nat)
    requires
        0 <= s <= ctx.limit <= usize::MAX,
        rows_left >= 1,
    ensures
        1 <= rows_from(ctx, s, room, rows_left).len() <= rows_left,
        rows_from(ctx, s, room, rows_left)[0].start_char_idx == s,
        forall|k: int|
            0 <= k < rows_from(ctx, s, room, rows_left).len() ==> (#[trigger] rows_from(
                ctx,
                s,
                room,
                rows_left,
            )[k]).start_char_idx <= rows_from(ctx, s, room, rows_left)[k].end_char_idx <= ctx.limit,
        forall|k: int|
            0 <= k < rows_from(ctx, s, room, rows_left).len() - 1 ==> (#[trigger] rows_from(
                ctx,
                s,
                room,
                rows_left,
            )[k]).end_char_idx == rows_from(ctx, s, room, rows_left)[k + 1].start_char_idx,
        rows_from(ctx, s, room, rows_left).len() < rows_left ==> rows_from(
            ctx,
            s,
            room,
            rows_left,
        ).last().end_char_idx == ctx.limit,
    decreases rows_left,
{
    let e = row_end(ctx, s, room);
    lemma_row_end_bounds(ctx, s, room);
    let rows = rows_from(ctx, s, room, rows_left);
    if !(e >= ctx.limit || rows_left == 1) {
        let rest = rows_from(ctx, e, ctx.width, (rows_left - 1) as nat);
        lemma_rows_contiguous(ctx, e, ctx.width, (rows_left - 1) as nat);
        assert(rows =~= seq![row_at(ctx.ws, s, e)] + rest);
        assert forall|k: int| 0 <= k < rows.len() implies (#[trigger] rows[k]).start_char_idx
            <= rows[k].end_char_idx <= ctx.limit by {
            if k > 0 {
                assert(rows[k] == rest[k - 1]);
            }
        }
        assert forall|k: int| 0 <= k < rows.len() - 1 implies (#[trigger] rows[k]).end_char_idx
            == rows[k + 1].start_char_idx by {
            assert(rows[k + 1] == rest[k]);
            if k > 0 {
                assert(rows[k] == rest[k - 1]);
            }
        }
        assert(rows.last() == rest.last());
    }
}

/// Two parts of a text that meet are together the part from the start of
/// the first to the end of the second.
pub proof fn lemma_subrange_join(text: Seq<char>, a: int, m: int, e: int)
    requires
        0 <= a <= m <= e <= text.len(),
    ensures
        text.subrange(a, m) + text.subrange(m, e) == text.subrange(a, e),
{
    assert(text.subrange(a, m) + text.subrange(m, e) =~= text.subrange(a, e));
}

/// Rows that follow one another spell out the line from the start of the
/// first to the end of the last, with no character left out and none
/// repeated.
pub proof fn lemma_rows_text(text: Seq<char>, rows: Seq<LineViewportRow>)
    requires
        rows.len() >= 1,
        forall|k: int|
            0 <= k < rows.len() ==> (#[trigger] rows[k]).start_char_idx <= rows[k].end_char_idx
                <= text.len(),
        forall|k: int|
            0 <= k < rows.len() - 1 ==> (#[trigger] rows[k]).end_char_idx == rows[k
                + 1].start_char_idx,
    ensures
        rows[0].start_char_idx <= rows.last().end_char_idx,
        rows_text(text, rows) == text.subrange(
            rows[0].start_char_idx as int,
            rows.last().end_char_idx as int,
        ),
    decreases rows.len(),
{
    let last = rows.last();
    let front = rows.drop_last();
    let n = rows.len() as int;
    assert(rows[n - 1].start_char_idx <= rows[n - 1].end_char_idx <= text.len());
    if n == 1 {
        assert(rows_text(text, front) =~= Seq::<char>::empty());
        assert(rows_text(text, rows) =~= text.subrange(
            last.start_char_idx as int,
            last.end_char_idx as int,
        ));
    } else {
        assert forall|k: int| 0 <= k < front.len() implies (#[trigger] front[k]).start_char_idx
            <= front[k].end_char_idx <= text.len() by {
            assert(front[k] == rows[k]);
        }
        assert forall|k: int| 0 <= k < front.len() - 1 implies (#[trigger] front[k]).end_char_idx
            == front[k + 1].start_char_idx by {
            assert(front[k] == rows[k]);
            assert(front[k + 1] == rows[k + 1]);
        }
        lemma_rows_text(text, front);
        assert(front.last() == rows[n - 2]);
        assert(front[0] == rows[0]);
        assert(rows[n - 2].end_char_idx == rows[n - 2 + 1].start_char_idx);
        let a = rows[0].start_char_idx as int;
        let m = last.start_char_idx as int;
        let e = last.end_char_idx as int;
        assert(rows_text(text, front) == text.subrange(a, m));
        lemma_subrange_join(text, a, m, e);
    }
}

/// The characters from `s` up to `e` are one character wider than `width`
/// and, before and after it, characters without width.
pub open spec fn stands_alone(ws: Seq<nat>, width: nat, s: int, e: int) -> bool {
    exists|j: int|
        s <= j < e && #[trigger] ws[j] > width && span_width(ws, s, j) == 0 && span_width(
            ws,
            j + 1,
            e,
        ) == 0
}

/// What a row holds is as much as fits, and no less. The cells left over
/// at its end are what it started with less the cells of its characters.
/// The characters fit into the cells the row started with, unless the row
/// started empty and holds a character wider than a whole row, which then
/// stands alone but for characters without width. And the row ends with
/// the line, or before a character whose need is larger than what is left.
pub proof fn lemma_row_is_maximal(ctx: LineCtx, s: int, room: nat)
    requires
        ctx.wf(),
        ctx.width >= 1,
        0 <= s <= ctx.limit,
        room <= ctx.width,
    ensures
        s <= row_end(ctx, s, room) <= ctx.limit,
        row_room(ctx, s, room) == (if span_width(ctx.ws, s, row_end(ctx, s, room)) <= room {
            (room - span_width(ctx.ws, s, row_end(ctx, s, room))) as nat
        } else {
            0
        }),
        span_width(ctx.ws, s, row_end(ctx, s, room)) <= room || (ctx.force && room == ctx.width
            && stands_alone(ctx.ws, ctx.width, s, row_end(ctx, s, room))),
        row_end(ctx, s, room) == ctx.limit || ctx.need[row_end(ctx, s, room)] > row_room(
            ctx,
            s,
            room,
        ),
    decreases ctx.limit - s,
{
    if !(s >= ctx.limit || breaks_before(ctx, s, room)) {
        let next = room_after(ctx, s, room);
        lemma_row_is_maximal(ctx, s + 1, next);
        let e = row_end(ctx, s + 1, next);
        crate::buf::unicode::lemma_prefix_width_monotonic(ctx.ws, s + 1, e);
        assert(span_width(ctx.ws, s, e) == ctx.ws[s] + span_width(ctx.ws, s + 1, e));
        assert(ctx.ws[s] <= ctx.need[s]);
        if ctx.ws[s] > room {
            assert(span_width(ctx.ws, s, s) == 0);
            assert(span_width(ctx.ws, s + 1, e) == 0);
            assert(ctx.ws[s] > ctx.width);
            assert(stands_alone(ctx.ws, ctx.width, s, e));
        } else if span_width(ctx.ws, s + 1, e) > next {
            let j = choose|j: int|
                s + 1 <= j < e && #[trigger] ctx.ws[j] > ctx.width && span_width(ctx.ws, s + 1, j)
                    == 0 && span_width(ctx.ws, j + 1, e) == 0;
            crate::buf::unicode::lemma_prefix_width_monotonic(ctx.ws, s + 1, j);
            assert(span_width(ctx.ws, s, j) == ctx.ws[s] + span_width(ctx.ws, s + 1, j));
            assert(stands_alone(ctx.ws, ctx.width, s, e));
        }
    }
}

} // verus!
