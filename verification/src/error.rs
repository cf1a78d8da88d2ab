//! Error kinds reported by the driver.

use vstd::prelude::*;

verus! {

/// Everything that can go wrong while mounting or reading an exFAT volume.
///
/// Volume-level failures (`CorruptVolume`) abort the mount; the other kinds
/// are scoped to one file, directory entry, or read call.
#[derive(Clone, Copy, Debug, PartialEq, Eq, Structural)]
pub enum ExFatError {
    /// The boot sector fails its signature or filesystem-name check.
    CorruptVolume,
    /// A caller-supplied buffer is smaller than the data unit requested.
    BufferTooSmall,
    /// A FAT chain contains a bad-cluster mark, a free slot, or an
    /// out-of-range link.
    BrokenChain,
    /// A FAT chain revisits a cluster; walking it would never end.
    ChainCycle,
    /// A directory entry set fails its checksum or structural checks.
    MalformedEntrySet,
    /// A logical offset lies beyond the clusters actually allocated.
    OffsetBeyondChain,
    /// A seek target lies beyond the file size.
    InvalidParameter,
}

} // verus!
