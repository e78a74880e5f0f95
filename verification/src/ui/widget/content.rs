//! The text content widget of a window.

use crate::ui::widget::WidgetId;
use crate::uuid::{id_after, next, Uuids};
use vstd::prelude::*;

verus! {

/// The text content of a window: its lines, whether they wrap at any
/// character or between words, and whether anything changed since the
/// content was last drawn.
#[derive(Debug)]
pub struct WindowContent {
    id: WidgetId,
    lines: Vec<String>,
    line_wrap: bool,
    word_wrap: bool,
    dirty: bool,
}

impl WindowContent {
    /// The widget's id, as a value of the model.
    pub closed spec fn spec_id(&self) -> WidgetId {
        self.id
    }

    /// The lines, as a value of the model.
    pub closed spec fn spec_lines(&self) -> Seq<String> {
        self.lines@
    }

    /// Whether lines wrap at any character, as a value of the model.
    pub closed spec fn spec_line_wrap(&self) -> bool {
        self.line_wrap
    }

    /// Whether lines wrap between words, as a value of the model.
    pub closed spec fn spec_word_wrap(&self) -> bool {
        self.word_wrap
    }

    /// Whether the content changed since it was last drawn, as a value of
    /// the model.
    pub closed spec fn spec_dirty(&self) -> bool {
        self.dirty
    }

    /// A content without lines, which does not wrap and is not dirty, with
    /// the next id of the source.
    pub fn new(ids: &mut Uuids) -> (content: Self)
        ensures
            content.spec_id() == old(ids).upcoming(),
            final(ids).upcoming() == id_after(old(ids).upcoming()),
            content.spec_lines().len() == 0,
            !content.spec_line_wrap(),
            !content.spec_word_wrap(),
            !content.spec_dirty(),
    {
        WindowContent {
            id: next(ids),
            lines: Vec::new(),
            line_wrap: false,
            word_wrap: false,
            dirty: false,
        }
    }

    /// A content with the given lines, which does not wrap and is not
    /// dirty, with the next id of the source.
    pub fn from_lines(ids: &mut Uuids, lines: Vec<String>) -> (content: Self)
        ensures
            content.spec_id() == old(ids).upcoming(),
            final(ids).upcoming() == id_after(old(ids).upcoming()),
            content.spec_lines() == lines@,
            !content.spec_line_wrap(),
            !content.spec_word_wrap(),
            !content.spec_dirty(),
    {
        WindowContent { id: next(ids), lines, line_wrap: false, word_wrap: false, dirty: false }
    }

    /// The widget's id.
    pub fn id(&self) -> (id: WidgetId)
        ensures
            id == self.spec_id(),
    {
        self.id
    }

    /// The lines.
    pub fn lines(&self) -> (lines: &Vec<String>)
        ensures
            lines@ == self.spec_lines(),
    {
        &self.lines
    }

    /// The lines, to be changed in place. Nothing else changes.
    pub fn lines_mut(&mut self) -> (lines: &mut Vec<String>)
        ensures
            lines@ == old(self).spec_lines(),
            final(self).spec_lines() == final(lines)@,
            final(self).spec_id() == old(self).spec_id(),
            final(self).spec_line_wrap() == old(self).spec_line_wrap(),
            final(self).spec_word_wrap() == old(self).spec_word_wrap(),
            final(self).spec_dirty() == old(self).spec_dirty(),
    {
        &mut self.lines
    }

    /// The line at an index, which must be below the number of lines.
    pub fn line(&self, index: usize) -> (line: &String)
        requires
            index < self.spec_lines().len(),
        ensures
            *line == self.spec_lines()[index as int],
    {
        &self.lines[index]
    }

    /// The line at an index, which must be below the number of lines, to
    /// be changed in place. Nothing else changes.
    pub fn line_mut(&mut self, index: usize) -> (line: &mut String)
        requires
            index < old(self).spec_lines().len(),
        ensures
            *line == old(self).spec_lines()[index as int],
            final(self).spec_lines() == old(self).spec_lines().update(index as int, *final(line)),
            final(self).spec_id() == old(self).spec_id(),
            final(self).spec_line_wrap() == old(self).spec_line_wrap(),
            final(self).spec_word_wrap() == old(self).spec_word_wrap(),
            final(self).spec_dirty() == old(self).spec_dirty(),
    {
        &mut self.lines[index]
    }

    /// Whether lines wrap at any character.
    pub fn line_wrap(&self) -> (line_wrap: bool)
        ensures
            line_wrap == self.spec_line_wrap(),
    {
        self.line_wrap
    }

    /// Sets whether lines wrap at any character, and gives back what was
    /// set. The content is dirty after a change.
    pub fn set_line_wrap(&mut self, line_wrap: bool) -> (before: bool)
        ensures
            before == old(self).spec_line_wrap(),
            final(self).spec_line_wrap() == line_wrap,
            final(self).spec_dirty() == (old(self).spec_dirty() || old(self).spec_line_wrap()
                != line_wrap),
            final(self).spec_id() == old(self).spec_id(),
            final(self).spec_lines() == old(self).spec_lines(),
            final(self).spec_word_wrap() == old(self).spec_word_wrap(),
    {
        if self.line_wrap != line_wrap {
            let old_value = self.line_wrap;
            self.line_wrap = line_wrap;
            self.dirty = true;
            old_value
        } else {
            self.line_wrap
        }
    }

    /// Whether lines wrap between words.
    pub fn word_wrap(&self) -> (word_wrap: bool)
        ensures
            word_wrap == self.spec_word_wrap(),
    {
        self.word_wrap
    }

    /// Sets whether lines wrap between words, and gives back what was set.
    /// The content is dirty after a change.
    pub fn set_word_wrap(&mut self, word_wrap: bool) -> (before: bool)
        ensures
            before == old(self).spec_word_wrap(),
            final(self).spec_word_wrap() == word_wrap,
            final(self).spec_dirty() == (old(self).spec_dirty() || old(self).spec_word_wrap()
                != word_wrap),
            final(self).spec_id() == old(self).spec_id(),
            final(self).spec_lines() == old(self).spec_lines(),
            final(self).spec_line_wrap() == old(self).spec_line_wrap(),
    {
        if self.word_wrap != word_wrap {
            let old_value = self.word_wrap;
            self.word_wrap = word_wrap;
            self.dirty = true;
            old_value
        } else {
            self.word_wrap
        }
    }

    /// Whether the content changed since it was last drawn.
    pub fn dirty(&self) -> (dirty: bool)
        ensures
            dirty == self.spec_dirty(),
    {
        self.dirty
    }

    /// Marks the content as drawn: it is not dirty any more. Nothing else
    /// changes.
    pub fn drawn(&mut self)
        ensures
            !final(self).spec_dirty(),
            final(self).spec_id() == old(self).spec_id(),
            final(self).spec_lines() == old(self).spec_lines(),
            final(self).spec_line_wrap() == old(self).spec_line_wrap(),
            final(self).spec_word_wrap() == old(self).spec_word_wrap(),
    {
        self.dirty = false;
    }
}

} // verus!
