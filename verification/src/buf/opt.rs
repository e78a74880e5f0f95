//! Options that belong to one buffer.

use vstd::prelude::*;

verus! {

/// The tab stop of a buffer that was given none.
pub const DEFAULT_TAB_STOP: u16 = 8;

/// How the bytes of a file are turned into text.
#[derive(Debug, Clone, Copy, PartialEq, Eq, Structural)]
pub enum FileEncoding {
    Utf8,
}

/// The options of one buffer: the cells a tab takes, and the encoding of
/// its file. The tab stop is always positive.
#[derive(Debug, Clone, Copy)]
pub struct BufferLocalOptions {
    tab_stop: u16,
    file_encoding: FileEncoding,
}

impl BufferLocalOptions {
    #[verifier::type_invariant]
    spec fn positive_tab_stop(self) -> bool {
        self.tab_stop >= 1
    }

    /// The tab stop, as a value of the model.
    pub closed spec fn spec_tab_stop(self) -> u16 {
        self.tab_stop
    }

    /// The file encoding, as a value of the model.
    pub closed spec fn spec_file_encoding(self) -> FileEncoding {
        self.file_encoding
    }

    /// Options with the given tab stop and encoding.
    pub fn new(tab_stop: u16, file_encoding: FileEncoding) -> (options: Self)
        requires
            tab_stop >= 1,
        ensures
            options.spec_tab_stop() == tab_stop,
            options.spec_file_encoding() == file_encoding,
    {
        BufferLocalOptions { tab_stop, file_encoding }
    }

    /// The number of cells a tab takes.
    pub fn tab_stop(&self) -> (value: u16)
        ensures
            value == self.spec_tab_stop(),
            value >= 1,
    {
        proof {
            use_type_invariant(self);
        }
        self.tab_stop
    }

    /// Sets the number of cells a tab takes.
    pub fn set_tab_stop(&mut self, value: u16)
        requires
            value >= 1,
        ensures
            final(self).spec_tab_stop() == value,
            final(self).spec_file_encoding() == old(self).spec_file_encoding(),
    {
        self.tab_stop = value;
    }

    /// The encoding of the buffer's file.
    pub fn file_encoding(&self) -> (value: FileEncoding)
        ensures
            value == self.spec_file_encoding(),
    {
        self.file_encoding
    }

    /// Sets the encoding of the buffer's file.
    pub fn set_file_encoding(&mut self, value: FileEncoding)
        ensures
            final(self).spec_file_encoding() == value,
            final(self).spec_tab_stop() == old(self).spec_tab_stop(),
    {
        proof {
            use_type_invariant(&*self);
        }
        self.file_encoding = value;
    }
}

impl Default for BufferLocalOptions {
    fn default() -> (options: Self)
        ensures
            options.spec_tab_stop() == DEFAULT_TAB_STOP,
            options.spec_file_encoding() == FileEncoding::Utf8,
    {
        BufferLocalOptions { tab_stop: DEFAULT_TAB_STOP, file_encoding: FileEncoding::Utf8 }
    }
}

} // verus!
