//! Guesses whether a file is binary.

use vstd::prelude::*;

verus! {

/// A file is taken as binary when a null byte stands among the first
/// `limit` bytes of its contents.
pub open spec fn spec_is_binary(limit: int, c: Seq<u8>) -> bool {
    exists|i: int| 0 <= i < c.len() && i < limit && c[i] == 0
}

/// Detects binary files by scanning for null bytes.
pub struct Binary {
    pub read_limit: usize,
}

impl Binary {
    /// Creates a detector that reads at most `read_limit` bytes.
    pub fn new(read_limit: usize) -> (r: Self)
        ensures
            r.read_limit == read_limit,
    {
        Binary { read_limit }
    }

    /// Guesses if a file is binary.
    pub fn is_binary(&self, filepath: &str, contents: &[u8]) -> (r: bool)
        ensures
            r == spec_is_binary(self.read_limit as int, contents@),
    {
        self.is_binary_no_read(filepath) || self.is_binary_with_read(filepath, contents)
    }

    /// No path alone marks a file as binary.
    fn is_binary_no_read(&self, _filepath: &str) -> (r: bool)
        ensures
            r == false,
    {
        false
    }

    /// Whether a null byte stands among the first `read_limit` bytes.
    fn is_binary_with_read(&self, _filepath: &str, contents: &[u8]) -> (r: bool)
        ensures
            r == spec_is_binary(self.read_limit as int, contents@),
    {
        let mut i: usize = 0;
        while i < contents.len() && i < self.read_limit
            invariant
                i <= contents.len(),
                forall|j: int| 0 <= j < i ==> !(j < self.read_limit && contents@[j] == 0),
            decreases contents.len() - i,
        {
            if contents[i] == 0 {
                return true;
            }
            i += 1;
        }
        false
    }
}

} // verus!
