//! Mapping a logical byte offset within a file to its place in the
//! cluster chain.

use vstd::prelude::*;
use crate::error::ExFatError;
use crate::fat::{
    spec_chain_broken, spec_chain_ends, spec_chain_has_cycle, spec_chain_step,
    spec_cluster_in_range, walk_chain, ChainStep,
};

verus! {

/// Map `byte_offset` within a file whose data starts at `first_cluster`
/// to the cluster holding it and the offset inside that cluster.
///
/// With the no-FAT-chain flag set the clusters are physically sequential,
/// so the target is reached by plain arithmetic and the FAT is never
/// consulted; the mapping fails with `OffsetBeyondChain` when the target
/// would lie beyond the cluster heap (or past the largest cluster number),
/// and with `BrokenChain` when `first_cluster` itself is out of range.
///
/// Without the flag the chain is walked from `first_cluster`, advancing
/// `byte_offset / bytes_per_cluster` links; the mapping fails with
/// `OffsetBeyondChain` exactly when the chain ends cleanly before the
/// requested link, and reports `BrokenChain` or `ChainCycle` exactly when
/// the chain is inconsistent, as the walk does.
#[verifier::loop_isolation(false)]
pub fn map_offset(
    fat: &Vec<u32>,
    cluster_count: u32,
    first_cluster: u32,
    contiguous: bool,
    byte_offset: u64,
    bytes_per_cluster: u32,
) -> (r: Result<(u32, u32), ExFatError>)
    requires
        bytes_per_cluster > 0,
        fat@.len() >= cluster_count + 2,
        cluster_count + 2 <= usize::MAX,
    ensures
        ({
            let index = byte_offset as int / bytes_per_cluster as int;
            let intra = byte_offset as int % bytes_per_cluster as int;
            if contiguous {
                &&& r is Ok <==> (spec_cluster_in_range(first_cluster, cluster_count)
                    && first_cluster + index <= cluster_count + 1 && first_cluster + index
                    <= u32::MAX)
                &&& r matches Ok(p) ==> p.0 == first_cluster + index && p.1 == intra
                &&& r is Err ==> (r == Err::<(u32, u32), ExFatError>(ExFatError::BrokenChain)
                    <==> !spec_cluster_in_range(first_cluster, cluster_count))
                &&& r is Err ==> (r == Err::<(u32, u32), ExFatError>(ExFatError::OffsetBeyondChain)
                    <==> spec_cluster_in_range(first_cluster, cluster_count))
            } else {
                &&& r is Ok <==> (spec_chain_ends(fat@, cluster_count, first_cluster)
                    && spec_chain_step(fat@, cluster_count, first_cluster, index) is At)
                &&& r matches Ok(p) ==> spec_chain_step(fat@, cluster_count, first_cluster, index)
                    == ChainStep::At(p.0) && p.1 == intra
                &&& r == Err::<(u32, u32), ExFatError>(ExFatError::OffsetBeyondChain) <==> (
                spec_chain_ends(fat@, cluster_count, first_cluster) && !(spec_chain_step(
                    fat@,
                    cluster_count,
                    first_cluster,
                    index,
                ) is At))
                &&& r == Err::<(u32, u32), ExFatError>(ExFatError::BrokenChain)
                    <==> spec_chain_broken(fat@, cluster_count, first_cluster)
                &&& r == Err::<(u32, u32), ExFatError>(ExFatError::ChainCycle)
                    <==> spec_chain_has_cycle(fat@, cluster_count, first_cluster)
            }
        }),
{
    let index_u64: u64 = byte_offset / (bytes_per_cluster as u64);
    let intra: u32 = (byte_offset % (bytes_per_cluster as u64)) as u32;
    if contiguous {
        if !(first_cluster >= 2 && (first_cluster as u64) <= (cluster_count as u64) + 1) {
            return Err(ExFatError::BrokenChain);
        }
        if index_u64 > (u32::MAX as u64) - (first_cluster as u64) {
            return Err(ExFatError::OffsetBeyondChain);
        }
        let target: u32 = first_cluster + (index_u64 as u32);
        if (target as u64) > (cluster_count as u64) + 1 {
            return Err(ExFatError::OffsetBeyondChain);
        }
        Ok((target, intra))
    } else {
        match walk_chain(fat, cluster_count, first_cluster) {
            Err(e) => Err(e),
            Ok(chain) => {
                if index_u64 < (chain.len() as u64) {
                    let idx = index_u64 as usize;
                    Ok((chain[idx], intra))
                } else {
                    proof {
                        let index = byte_offset as int / bytes_per_cluster as int;
                        if spec_chain_step(fat@, cluster_count, first_cluster, index) is At {
                            crate::fat::lemma_chain_step_absorbing(
                                fat@,
                                cluster_count,
                                first_cluster,
                                chain@.len() as int,
                                index,
                            );
                        }
                    }
                    Err(ExFatError::OffsetBeyondChain)
                }
            },
        }
    }
}

} // verus!
