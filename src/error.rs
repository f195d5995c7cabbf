use vstd::prelude::*;

verus! {

/// Why an operation of the library failed.
#[derive(Debug)]
pub enum TagError {
    /// A pattern definition was not a valid regular expression.
    InvalidPattern(regex::Error),
}

} // verus!
