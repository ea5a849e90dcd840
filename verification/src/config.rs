//! What the program tells about itself: its name, authors and version, the
//! lines of its usage help and of its manual.
use vstd::prelude::*;

verus! {

/// The texts that the program shows about itself.
pub struct Config<'a> {
    /// The program's name.
    pub name: &'a str,
    /// Its authors.
    pub authors: &'a str,
    /// Its version.
    pub version: &'a str,
    /// The lines of the usage help.
    pub help: [&'a str; 7],
    /// The lines of the manual.
    pub manual: [&'a str; 33],
}

} // verus!
