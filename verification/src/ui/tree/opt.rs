//! Options that all windows share.

use vstd::prelude::*;

verus! {

/// The characters at which a line may be broken, where nothing else is set.
pub const DEFAULT_BREAK_AT: &'static str = " ^I!@*-+;:,./?";

/// The options that all windows share: the pattern of the characters at
/// which a line may be broken.
#[derive(Debug)]
pub struct WindowGlobalOptions {
    break_at: String,
}

impl WindowGlobalOptions {
    /// The pattern, as a value of the model.
    pub closed spec fn spec_break_at(&self) -> Seq<char> {
        self.break_at@
    }

    /// A builder that holds the default pattern.
    pub fn builder() -> (builder: WindowGlobalOptionsBuilder)
        ensures
            builder.spec_break_at() == DEFAULT_BREAK_AT@,
    {
        WindowGlobalOptionsBuilder::default()
    }

    /// The pattern of the characters at which a line may be broken.
    pub fn break_at(&self) -> (pattern: &String)
        ensures
            pattern@ == self.spec_break_at(),
    {
        &self.break_at
    }

    /// Sets the pattern of the characters at which a line may be broken.
    pub fn set_break_at(&mut self, value: &str)
        ensures
            final(self).spec_break_at() == value@,
    {
        self.break_at = value.to_owned();
    }
}

impl Default for WindowGlobalOptions {
    fn default() -> (options: Self)
        ensures
            options.spec_break_at() == DEFAULT_BREAK_AT@,
    {
        WindowGlobalOptions::builder().build()
    }
}

/// Collects the options that all windows share, one after the other.
#[derive(Debug)]
pub struct WindowGlobalOptionsBuilder {
    break_at: String,
}

impl WindowGlobalOptionsBuilder {
    /// The pattern the builder holds, as a value of the model.
    pub closed spec fn spec_break_at(&self) -> Seq<char> {
        self.break_at@
    }

    /// Sets the pattern of the characters at which a line may be broken,
    /// and hands the builder back for the next option.
    pub fn break_at(&mut self, value: &str) -> (builder: &mut Self)
        ensures
            builder.spec_break_at() == value@,
            *final(self) == *final(builder),
    {
        self.break_at = value.to_owned();
        self
    }

    /// The options that the builder holds.
    pub fn build(&self) -> (options: WindowGlobalOptions)
        ensures
            options.spec_break_at() == self.spec_break_at(),
    {
        WindowGlobalOptions { break_at: self.break_at.clone() }
    }
}

impl Default for WindowGlobalOptionsBuilder {
    fn default() -> (builder: Self)
        ensures
            builder.spec_break_at() == DEFAULT_BREAK_AT@,
    {
        WindowGlobalOptionsBuilder { break_at: DEFAULT_BREAK_AT.to_owned() }
    }
}

} // verus!
