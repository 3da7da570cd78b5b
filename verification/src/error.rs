//! The conditions that end a run.

use vstd::prelude::*;

verus! {

/// Why a site, a read or the configuration of a run was rejected.
#[derive(Debug, Clone, Copy, PartialEq, Eq, Structural)]
pub enum EvidenceError {
    /// A variant record has no resolvable contig.
    MalformedRecord,
    /// The genotype of the designated sample cannot be decoded at a site.
    MissingGenotype,
    /// A barcode tag is present but does not hold text.
    UnexpectedTagType,
    /// The offset of a read at a site lies beyond the bases of the read.
    OutOfRangePosition,
    /// The sample name that the selected mode needs was not given.
    MissingRequiredArgument,
}

} // verus!
