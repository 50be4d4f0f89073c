//! What the application remembers between runs.

use vstd::prelude::*;
use crate::text;

verus! {

/// User configuration: the film-roll directories shown in the library.
#[derive(Debug, Default, Clone, PartialEq, Eq)]
pub struct Config {
    /// Absolute paths to the roll directories the library lists.
    pub rolls: Vec<String>,
}

impl Config {
    /// The texts of the listed directories.
    pub open spec fn dirs(self) -> Seq<Seq<char>> {
        text::texts(self.rolls@)
    }
}

} // verus!
