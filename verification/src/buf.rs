//! Text buffers.
//!
//! A buffer is the text of one document, held in a rope that is addressed
//! line by line, together with the options that decide how its characters
//! are shown. A line keeps the line break that ends it; the text after the
//! last line break is a line too, so a buffer always has a line.

use crate::buf::opt::{BufferLocalOptions, FileEncoding};
use ropey::{Rope, RopeBuilder, RopeSlice};
use vstd::prelude::*;
use vstd::slice::slice_subrange;

pub mod idx;
pub mod opt;
pub mod unicode;

verus! {

/// The rope of `ropey` that holds a buffer's text.
#[verifier::external_type_specification]
#[verifier::external_body]
pub struct ExRope(Rope);

/// A borrowed part of a rope: here always one line.
#[verifier::external_type_specification]
#[verifier::external_body]
pub struct ExRopeSlice<'a>(RopeSlice<'a>);

/// The lines of a rope, in order, each with the characters it holds.
pub uninterp spec fn rope_lines(rope: Rope) -> Seq<Seq<char>>;

/// The characters of a part of a rope, in order.
pub uninterp spec fn slice_chars(slice: RopeSlice) -> Seq<char>;

/// Calls `Rope::new`: a rope without text, which has one line, and that line
/// is empty.
#[verifier::external_body]
fn rope_new() -> (rope: Rope)
    ensures
        rope_lines(rope).len() == 1,
        rope_lines(rope)[0].len() == 0,
{
    Rope::new()
}

/// Calls `Rope::get_line`: the line at an index below the number of lines,
/// and nothing at any other.
#[verifier::external_body]
fn rope_get_line<'a>(rope: &'a Rope, line_idx: usize) -> (line: Option<RopeSlice<'a>>)
    ensures
        line_idx < rope_lines(*rope).len() ==> line is Some && slice_chars(line->0) == rope_lines(
            *rope,
        )[line_idx as int],
        line_idx >= rope_lines(*rope).len() ==> line is None,
{
    rope.get_line(line_idx)
}

/// The lines that a text falls into when a rope is built from it.
pub uninterp spec fn text_lines(text: Seq<char>) -> Seq<Seq<char>>;

/// The text that bytes stand for in UTF-8, with the replacement character
/// in place of what is not UTF-8.
pub uninterp spec fn utf8_lossy(bytes: Seq<u8>) -> Seq<char>;

/// Calls `RopeBuilder::new`, `RopeBuilder::append` and
/// `RopeBuilder::finish`: the rope of a text, whose lines are `text_lines`
/// of it.
#[verifier::external_body]
fn rope_of_text(text: &str) -> (rope: Rope)
    ensures
        rope_lines(rope) == text_lines(text@),
{
    let mut block = RopeBuilder::new();
    block.append(text);
    block.finish()
}

/// Calls `String::from_utf8_lossy`: the text of bytes, which is
/// `utf8_lossy` of them.
#[verifier::external_body]
fn decode_utf8_lossy(bytes: &[u8]) -> (text: String)
    ensures
        text@ == utf8_lossy(bytes@),
{
    String::from_utf8_lossy(bytes).into_owned()
}

/// The lines of a rope after another rope was appended to it, given the
/// lines of both.
pub uninterp spec fn lines_appended(lines: Seq<Seq<char>>, other: Seq<Seq<char>>) -> Seq<Seq<char>>;

/// Calls `Rope::append`: the text of the other rope is put behind the text
/// of the first, whose lines are then `lines_appended` of both.
#[verifier::external_body]
fn rope_append(rope: &mut Rope, other: Rope)
    ensures
        rope_lines(*final(rope)) == lines_appended(rope_lines(*old(rope)), rope_lines(other)),
{
    rope.append(other)
}

/// Calls `Rope::len_lines`: the number of lines.
#[verifier::external_body]
fn rope_len_lines(rope: &Rope) -> (n: usize)
    ensures
        n == rope_lines(*rope).len(),
{
    rope.len_lines()
}

/// Calls `RopeSlice::len_chars`: the number of characters.
#[verifier::external_body]
pub(crate) fn slice_len_chars(slice: &RopeSlice) -> (n: usize)
    ensures
        n == slice_chars(*slice).len(),
{
    slice.len_chars()
}

/// Calls `RopeSlice::char`: the character at an index, which must be below
/// the number of characters.
#[verifier::external_body]
pub(crate) fn slice_char(slice: &RopeSlice, char_idx: usize) -> (c: char)
    requires
        char_idx < slice_chars(*slice).len(),
    ensures
        c == slice_chars(*slice)[char_idx as int],
{
    slice.char(char_idx)
}

/// The text that the bytes of a file stand for in an encoding.
pub open spec fn decoded(encoding: FileEncoding, bytes: Seq<u8>) -> Seq<char> {
    match encoding {
        FileEncoding::Utf8 => utf8_lossy(bytes),
    }
}

/// The text of the first `bufsize` bytes of what was read from a file, in
/// the encoding of the options.
pub fn into_str(options: &BufferLocalOptions, buf: &[u8], bufsize: usize) -> (text: String)
    requires
        bufsize <= buf@.len(),
    ensures
        text@ == decoded(options.spec_file_encoding(), buf@.take(bufsize as int)),
{
    match options.file_encoding() {
        FileEncoding::Utf8 => decode_utf8_lossy(slice_subrange(buf, 0, bufsize)),
    }
}

/// The rope of the first `bufsize` bytes of what was read from a file, in
/// the encoding of the options.
pub fn into_rope(options: &BufferLocalOptions, buf: &[u8], bufsize: usize) -> (rope: Rope)
    requires
        bufsize <= buf@.len(),
    ensures
        rope_lines(rope) == text_lines(
            decoded(options.spec_file_encoding(), buf@.take(bufsize as int)),
        ),
{
    let text = into_str(options, buf, bufsize);
    rope_of_text(text.as_str())
}

/// The number that tells one buffer from another.
pub type BufferId = i32;

/// The source of buffer ids: it hands out 1, then 2, and so on, so that no
/// two buffers made from one source share an id.
#[derive(Debug)]
pub struct BufferIds {
    next: BufferId,
}

impl BufferIds {
    /// The id that is handed out next.
    pub closed spec fn upcoming(&self) -> BufferId {
        self.next
    }

    /// A source that starts at 1.
    pub fn new() -> (ids: Self)
        ensures
            ids.upcoming() == 1,
    {
        BufferIds { next: 1 }
    }
}

/// The id after a given one: the next integer, and the smallest one after
/// the largest.
pub open spec fn id_after(id: BufferId) -> BufferId {
    if id == i32::MAX {
        i32::MIN
    } else {
        (id + 1) as i32
    }
}

/// The id that a source hands out `n` ids after it handed out `id`.
pub open spec fn nth_id_after(id: BufferId, n: nat) -> BufferId
    decreases n,
{
    if n == 0 {
        id
    } else {
        id_after(nth_id_after(id, (n - 1) as nat))
    }
}

/// Where the id `n` ids after `id` stands among the ids, counted from the
/// smallest.
proof fn lemma_nth_id_position(id: BufferId, n: nat)
    ensures
        nth_id_after(id, n) - i32::MIN == (id - i32::MIN + n) % 0x1_0000_0000,
    decreases n,
{
    if n > 0 {
        lemma_nth_id_position(id, (n - 1) as nat);
    }
}

/// A source hands out no id twice before it has handed out all of them:
/// the next 4294967295 ids after an id differ from it.
pub proof fn lemma_ids_differ(id: BufferId, n: nat)
    requires
        0 < n < 0x1_0000_0000,
    ensures
        nth_id_after(id, n) != id,
{
    lemma_nth_id_position(id, n);
}

/// The next unused buffer id of a source.
pub fn next_buffer_id(ids: &mut BufferIds) -> (id: BufferId)
    ensures
        id == old(ids).upcoming(),
        final(ids).upcoming() == id_after(id),
{
    let id = ids.next;
    ids.next = if id == i32::MAX {
        i32::MIN
    } else {
        id + 1
    };
    id
}

/// What a buffer is doing with its file.
#[derive(Clone, Copy, Debug, Hash, PartialEq, Eq, Structural)]
pub enum BufferStatus {
    /// Just made.
    INIT,
    /// Reading its text from the file.
    LOADING,
    /// Writing its text to the file.
    SAVING,
    /// The same as the file.
    SYNCED,
    /// Edited since it was last the same as the file.
    CHANGED,
}

/// A text buffer: an id that never changes, the text, and the options.
#[derive(Debug)]
pub struct Buffer {
    id: BufferId,
    rope: Rope,
    options: BufferLocalOptions,
}

impl Buffer {
    /// The buffer's id, as a value of the model.
    pub closed spec fn spec_id(&self) -> BufferId {
        self.id
    }

    /// The buffer's lines, each with its characters.
    pub closed spec fn lines(&self) -> Seq<Seq<char>> {
        rope_lines(self.rope)
    }

    /// The buffer's options, as a value of the model.
    pub closed spec fn spec_options(&self) -> BufferLocalOptions {
        self.options
    }

    /// The buffer's tab stop, as a value of the model.
    pub open spec fn spec_tab_stop(&self) -> u16 {
        self.spec_options().spec_tab_stop()
    }

    /// A buffer over the given text, with the next id of the source.
    pub fn _new(ids: &mut BufferIds, rope: Rope, options: BufferLocalOptions) -> (buffer: Self)
        ensures
            buffer.spec_id() == old(ids).upcoming(),
            final(ids).upcoming() == id_after(old(ids).upcoming()),
            buffer.lines() == rope_lines(rope),
            buffer.spec_options() == options,
    {
        Buffer { id: next_buffer_id(ids), rope, options }
    }

    /// A buffer without text, with the next id of the source. It has one
    /// line, which is empty.
    pub fn _new_empty(ids: &mut BufferIds, options: BufferLocalOptions) -> (buffer: Self)
        ensures
            buffer.spec_id() == old(ids).upcoming(),
            final(ids).upcoming() == id_after(old(ids).upcoming()),
            buffer.lines().len() == 1,
            buffer.lines()[0].len() == 0,
            buffer.spec_options() == options,
    {
        Buffer { id: next_buffer_id(ids), rope: rope_new(), options }
    }

    /// The buffer's id.
    pub fn id(&self) -> (id: BufferId)
        ensures
            id == self.spec_id(),
    {
        self.id
    }

    /// The line at an index, if the buffer has that many lines.
    pub fn get_line(&self, line_idx: usize) -> (line: Option<RopeSlice>)
        ensures
            line_idx < self.lines().len() ==> line is Some && slice_chars(line->0)
                == self.lines()[line_idx as int],
            line_idx >= self.lines().len() ==> line is None,
    {
        rope_get_line(&self.rope, line_idx)
    }

    /// The rope that holds the buffer's text.
    pub fn rope(&self) -> (rope: &Rope)
        ensures
            rope_lines(*rope) == self.lines(),
    {
        &self.rope
    }

    /// Puts the text of a rope behind the buffer's text. The id and the
    /// options stay.
    pub fn append(&mut self, other: Rope)
        ensures
            final(self).lines() == lines_appended(old(self).lines(), rope_lines(other)),
            final(self).spec_id() == old(self).spec_id(),
            final(self).spec_options() == old(self).spec_options(),
    {
        rope_append(&mut self.rope, other);
    }

    /// The number of lines of the buffer.
    pub fn len_lines(&self) -> (n: usize)
        ensures
            n == self.lines().len(),
    {
        rope_len_lines(&self.rope)
    }

    /// The buffer's options.
    pub fn options(&self) -> (options: &BufferLocalOptions)
        ensures
            *options == self.spec_options(),
    {
        &self.options
    }

    /// Replaces the buffer's options. The id and the text stay.
    pub fn set_options(&mut self, options: &BufferLocalOptions)
        ensures
            final(self).spec_options() == *options,
            final(self).spec_id() == old(self).spec_id(),
            final(self).lines() == old(self).lines(),
    {
        self.options = *options;
    }

    /// The number of cells a tab takes in this buffer.
    pub fn tab_stop(&self) -> (value: u16)
        ensures
            value == self.spec_tab_stop(),
    {
        self.options.tab_stop()
    }

    /// Sets the number of cells a tab takes. The id and the text stay.
    pub fn set_tab_stop(&mut self, value: u16)
        requires
            value >= 1,
        ensures
            final(self).spec_tab_stop() == value,
            final(self).spec_options().spec_file_encoding() == old(
                self,
            ).spec_options().spec_file_encoding(),
            final(self).spec_id() == old(self).spec_id(),
            final(self).lines() == old(self).lines(),
    {
        self.options.set_tab_stop(value);
    }

    /// The display width of a character in this buffer.
    pub fn char_width(&self, c: char) -> (width: usize)
        ensures
            width == unicode::char_width_spec(self.spec_tab_stop(), c),
    {
        unicode::char_width(&self.options, c)
    }

    /// The printable symbol of a character in this buffer, and its display
    /// width.
    pub fn char_symbol(&self, c: char) -> (symbol: (String, usize))
        ensures
            symbol.0@ == unicode::char_symbol_spec(self.spec_tab_stop(), c),
            symbol.1 == unicode::char_width_spec(self.spec_tab_stop(), c),
    {
        unicode::char_symbol(&self.options, c)
    }

    /// The display width of a string in this buffer.
    pub fn str_width(&self, s: &str) -> (width: usize)
        ensures
            width == unicode::saturate(unicode::str_width_spec(self.spec_tab_stop(), s@)),
    {
        unicode::str_width(&self.options, s)
    }

    /// The printable symbols of a string in this buffer, and its display
    /// width.
    pub fn str_symbols(&self, s: &str) -> (symbols: (String, usize))
        ensures
            symbols.0@ == unicode::str_symbols_spec(self.spec_tab_stop(), s@),
            symbols.1 == unicode::saturate(unicode::str_width_spec(self.spec_tab_stop(), s@)),
    {
        unicode::str_symbols(&self.options, s)
    }
}

impl PartialEq for Buffer {
    /// Two buffers are the same buffer when they have the same id.
    fn eq(&self, other: &Self) -> (same: bool) {
        self.id == other.id
    }
}

impl vstd::std_specs::cmp::PartialEqSpecImpl for Buffer {
    open spec fn obeys_eq_spec() -> bool {
        true
    }

    open spec fn eq_spec(&self, other: &Self) -> bool {
        self.spec_id() == other.spec_id()
    }
}

impl Eq for Buffer {

}

} // verus!
