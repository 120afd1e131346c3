//! The unit of replication: one immutable log entry.

use vstd::prelude::*;

verus! {

/// One replicated log entry: a 1-based position in the log, the term in
/// which a leader created it, and an opaque payload.
///
/// A log is dense and gap-free: the entry stored at position `i` of a
/// node's log vector always carries `index == i + 1`.
#[derive(Debug, Default, Clone, PartialEq, Eq)]
pub struct Command {
    pub index: usize,
    pub term: usize,
    pub content: String,
}

impl Command {
    /// An explicit copy whose result is pinned, entry for entry, unlike the
    /// derived `Clone` (whose contract Verus does not read).
    pub fn duplicate(&self) -> (r: Command)
        ensures
            r == *self,
    {
        Command { index: self.index, term: self.term, content: self.content.clone() }
    }
}

} // verus!
