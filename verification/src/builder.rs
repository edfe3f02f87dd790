//! Builds a configured analysis entry point.

use vstd::prelude::*;

use crate::analyzer::Analyzers;
use crate::binary::Binary;
use crate::documentation::documentation_glob_list;
use crate::documentation::Documentation;
use crate::generated::generated_filename_list;
use crate::generated::generated_glob_list;
use crate::generated::Generated;
use crate::vendored::vendored_glob_list;
use crate::vendored::Vendored;
use crate::Gengo;

verus! {

/// Builds a new `Gengo` instance around a registry.
pub struct Builder {
    pub analyzers: Analyzers,
    pub read_limit: Option<usize>,
}

impl Builder {
    /// How many bytes are read from each file for heuristic and binary
    /// analysis when no limit is set.
    pub const DEFAULT_READ_LIMIT: usize = 1048576;

    /// Starts a build from a registry.
    pub fn new(analyzers: Analyzers) -> (r: Self)
        ensures
            r.analyzers@ == analyzers@,
            r.read_limit is None,
    {
        Builder { analyzers, read_limit: Option::None }
    }

    /// Sets the limit for how many bytes are read from each file for
    /// heuristic and binary analysis.
    pub fn read_limit(self, read_limit: usize) -> (r: Self)
        ensures
            r.analyzers@ == self.analyzers@,
            r.read_limit == Option::Some(read_limit),
    {
        Builder { analyzers: self.analyzers, read_limit: Option::Some(read_limit) }
    }

    /// Finishes the build, with the built-in classifier pattern lists.
    pub fn build(self) -> (r: Gengo)
        ensures
            r@.reg == self.analyzers@,
            r@.read_limit == match self.read_limit {
                Option::Some(l) => l as int,
                Option::None => Builder::DEFAULT_READ_LIMIT as int,
            },
            r@.bin_limit == r@.read_limit,
            r@.gen_filenames == generated_filename_list(),
            r@.gen_globs == generated_glob_list(),
            r@.doc_globs == documentation_glob_list(),
            r@.vendored_globs == vendored_glob_list(),
    {
        let read_limit = match self.read_limit {
            Option::Some(l) => l,
            Option::None => Builder::DEFAULT_READ_LIMIT,
        };
        Gengo {
            analyzers: self.analyzers,
            read_limit,
            binary: Binary::new(read_limit),
            documentation: Documentation::new(),
            generated: Generated::new(),
            vendored: Vendored::new(),
        }
    }
}

} // verus!
