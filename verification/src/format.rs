//! Return format of the selector, and its single-character protocol flag.

use vstd::prelude::*;

verus! {

/// How the child process should format its answer on standard output.
#[derive(Debug)]
pub enum Format {
    /// The chosen candidate verbatim, markup included.
    Text,
    /// The chosen candidate with markup removed.
    StrippedText,
    /// Exactly what the user typed.
    UserInput,
    /// The decimal index of the chosen candidate.
    Index,
}

impl Format {
    /// The single-character token the protocol uses for this format.
    pub open spec fn token(self) -> Seq<char> {
        match self {
            Format::Text => "s"@,
            Format::StrippedText => "p"@,
            Format::UserInput => "f"@,
            Format::Index => "i"@,
        }
    }

    /// The value of the child's `-format` flag for this format.
    pub fn as_arg(&self) -> (r: &'static str)
        ensures
            r@ == self.token(),
    {
        match self {
            Format::Text => "s",
            Format::StrippedText => "p",
            Format::UserInput => "f",
            Format::Index => "i",
        }
    }
}

} // verus!
