//! The two encodings of a fragment's header.

use vstd::prelude::*;

verus! {

/// The encoding of a header.
#[derive(Clone, Copy, Debug, PartialEq, Eq)]
pub enum Format {
    /// The encoding that goes by indentation.
    Yaml,
    /// The encoding that goes by punctuation.
    Toml,
}

/// The line that opens and closes a header in an encoding.
pub open spec fn separator_of(format: Format) -> Seq<char> {
    match format {
        Format::Yaml => "---"@,
        Format::Toml => "+++"@,
    }
}

impl Format {
    /// The line that opens and closes a header in this encoding.
    pub fn separator(&self) -> (r: &'static str)
        ensures
            r@ == separator_of(*self),
    {
        match self {
            Format::Yaml => "---",
            Format::Toml => "+++",
        }
    }
}

} // verus!
