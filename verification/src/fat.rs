//! The File Allocation Table: entry semantics and chain walking.

use vstd::prelude::*;
use crate::error::ExFatError;

verus! {

/// Semantic reading of one raw 32-bit FAT slot.
#[derive(Debug, Clone, Copy, PartialEq, Eq, Structural)]
pub enum FatEntry {
    /// Free cluster
    Free,
    /// Next cluster in chain
    Next(u32),
    /// Bad cluster
    Bad,
    /// End of cluster chain
    EndOfChain,
}

/// The meaning of a raw 32-bit FAT slot: 0 is free, 0xFFFFFFF7 marks a bad
/// cluster, 0xFFFFFFF8..=0xFFFFFFFF ends a chain, everything else links to
/// the next cluster.
pub open spec fn spec_decode_fat(value: u32) -> FatEntry {
    if value == 0x00000000u32 {
        FatEntry::Free
    } else if value == 0xFFFFFFF7u32 {
        FatEntry::Bad
    } else if value >= 0xFFFFFFF8u32 {
        FatEntry::EndOfChain
    } else {
        FatEntry::Next(value)
    }
}

/// The raw 32-bit slot written for an entry; `EndOfChain` is written with
/// the canonical 0xFFFFFFFF mark.
pub open spec fn spec_encode_fat(e: FatEntry) -> u32 {
    match e {
        FatEntry::Free => 0x00000000u32,
        FatEntry::Next(cluster) => cluster,
        FatEntry::Bad => 0xFFFFFFF7u32,
        FatEntry::EndOfChain => 0xFFFFFFFFu32,
    }
}

impl FatEntry {
    /// Parse FAT entry from u32 value
    pub fn from_u32(value: u32) -> (r: Self)
        ensures
            r == spec_decode_fat(value),
    {
        if value == 0x00000000u32 {
            FatEntry::Free
        } else if value == 0xFFFFFFF7u32 {
            FatEntry::Bad
        } else if value >= 0xFFFFFFF8u32 {
            FatEntry::EndOfChain
        } else {
            FatEntry::Next(value)
        }
    }

    /// Convert FAT entry to u32 value
    pub fn to_u32(&self) -> (r: u32)
        ensures
            r == spec_encode_fat(*self),
    {
        match self {
            FatEntry::Free => 0x00000000u32,
            FatEntry::Next(cluster) => *cluster,
            FatEntry::Bad => 0xFFFFFFF7u32,
            FatEntry::EndOfChain => 0xFFFFFFFFu32,
        }
    }
}

/// Decoding the slot an entry was encoded to yields the entry back, for
/// every entry whose link target is itself a plain link value (a `Next`
/// payload of 0 or of 0xFFFFFFF7 and above collides with the free, bad and
/// end-of-chain marks and cannot survive the trip).
pub proof fn lemma_fat_entry_round_trip(e: FatEntry)
    requires
        e matches FatEntry::Next(c) ==> 1 <= c < 0xFFFFFFF7u32,
    ensures
        spec_decode_fat(spec_encode_fat(e)) == e,
{
}

/// Decode a FAT region, given as its raw bytes, into 32-bit slots, each
/// read little-endian; trailing bytes short of a whole slot are dropped.
#[verifier::loop_isolation(false)]
pub fn fat_slots_from_bytes(bytes: &[u8]) -> (r: Vec<u32>)
    ensures
        r@.len() == bytes@.len() / 4,
        forall|i: int|
            0 <= i < r@.len() ==> #[trigger] r@[i] == crate::boot::spec_le_u32(bytes@, 4 * i),
{
    let count: usize = bytes.len() / 4;
    let mut slots: Vec<u32> = Vec::new();
    let mut i: usize = 0;
    while i < count
        invariant
            i <= count,
            slots@.len() == i,
            forall|k: int|
                0 <= k < i ==> #[trigger] slots@[k] == crate::boot::spec_le_u32(bytes@, 4 * k),
        decreases count - i,
    {
        slots.push(crate::boot::le_u32(bytes, 4 * i));
        i += 1;
    }
    slots
}

/// A usable cluster number: clusters 0 and 1 are reserved, and the heap
/// holds `cluster_count` clusters numbered 2 through `cluster_count + 1`.
pub open spec fn spec_cluster_in_range(c: u32, cluster_count: u32) -> bool {
    2 <= c && c <= cluster_count + 1
}

/// Where a chain walk stands after a number of steps: at a cluster, past a
/// clean end-of-chain mark, or stuck on an inconsistent table.
pub enum ChainStep {
    /// The walk is at this cluster.
    At(u32),
    /// The walk passed an end-of-chain mark.
    Ended,
    /// The walk hit a free slot, a bad-cluster mark, or an out-of-range link.
    Broken,
}

/// The state of the walk from `start` after `n` links have been followed.
/// `Ended` and `Broken` are absorbing; a step from a cluster follows the
/// decoded slot for that cluster.
pub open spec fn spec_chain_step(fat: Seq<u32>, cluster_count: u32, start: u32, n: int) -> ChainStep
    decreases n,
{
    if n <= 0 {
        if spec_cluster_in_range(start, cluster_count) {
            ChainStep::At(start)
        } else {
            ChainStep::Broken
        }
    } else {
        match spec_chain_step(fat, cluster_count, start, n - 1) {
            ChainStep::At(c) => match spec_decode_fat(fat[c as int]) {
                FatEntry::Next(c2) => if spec_cluster_in_range(c2, cluster_count) {
                    ChainStep::At(c2)
                } else {
                    ChainStep::Broken
                },
                FatEntry::EndOfChain => ChainStep::Ended,
                FatEntry::Free => ChainStep::Broken,
                FatEntry::Bad => ChainStep::Broken,
            },
            ChainStep::Ended => ChainStep::Ended,
            ChainStep::Broken => ChainStep::Broken,
        }
    }
}

/// The chain from `start` reaches a clean end-of-chain mark.
pub open spec fn spec_chain_ends(fat: Seq<u32>, cluster_count: u32, start: u32) -> bool {
    exists|n: int| 0 <= n && #[trigger] spec_chain_step(fat, cluster_count, start, n) is Ended
}

/// The chain from `start` runs into a free slot, a bad-cluster mark, or an
/// out-of-range link.
pub open spec fn spec_chain_broken(fat: Seq<u32>, cluster_count: u32, start: u32) -> bool {
    exists|n: int| 0 <= n && #[trigger] spec_chain_step(fat, cluster_count, start, n) is Broken
}

/// The chain from `start` revisits a cluster: following links from it would
/// never terminate.
pub open spec fn spec_chain_has_cycle(fat: Seq<u32>, cluster_count: u32, start: u32) -> bool {
    exists|i: int, j: int|
        0 <= i < j && #[trigger] spec_chain_step(fat, cluster_count, start, i) is At
            && spec_chain_step(fat, cluster_count, start, i) == #[trigger] spec_chain_step(
            fat,
            cluster_count,
            start,
            j,
        )
}

/// Once a walk has ended or broken, it stays so at every later step count.
pub proof fn lemma_chain_step_absorbing(
    fat: Seq<u32>,
    cluster_count: u32,
    start: u32,
    n: int,
    m: int,
)
    requires
        n <= m,
    ensures
        spec_chain_step(fat, cluster_count, start, n) is Ended ==> spec_chain_step(
            fat,
            cluster_count,
            start,
            m,
        ) is Ended,
        spec_chain_step(fat, cluster_count, start, n) is Broken ==> spec_chain_step(
            fat,
            cluster_count,
            start,
            m,
        ) is Broken,
    decreases m - n,
{
    if n < m {
        lemma_chain_step_absorbing(fat, cluster_count, start, n, m - 1);
    }
}

/// The walk is deterministic: equal states a shift apart stay equal under
/// any further number of steps.
proof fn lemma_chain_step_shift(
    fat: Seq<u32>,
    cluster_count: u32,
    start: u32,
    i: int,
    j: int,
    k: int,
)
    requires
        0 <= i,
        0 <= j,
        0 <= k,
        spec_chain_step(fat, cluster_count, start, i) == spec_chain_step(
            fat,
            cluster_count,
            start,
            j,
        ),
    ensures
        spec_chain_step(fat, cluster_count, start, i + k) == spec_chain_step(
            fat,
            cluster_count,
            start,
            j + k,
        ),
    decreases k,
{
    if k > 0 {
        lemma_chain_step_shift(fat, cluster_count, start, i, j, k - 1);
    }
}

/// A revisited state recurs forever: after any number of whole periods the
/// walk stands where it stood.
proof fn lemma_chain_cycle_recurs(
    fat: Seq<u32>,
    cluster_count: u32,
    start: u32,
    i: int,
    j: int,
    k: int,
)
    requires
        0 <= i < j,
        0 <= k,
        spec_chain_step(fat, cluster_count, start, i) == spec_chain_step(
            fat,
            cluster_count,
            start,
            j,
        ),
    ensures
        spec_chain_step(fat, cluster_count, start, i + k * (j - i)) == spec_chain_step(
            fat,
            cluster_count,
            start,
            i,
        ),
    decreases k,
{
    if k > 0 {
        let p = j - i;
        lemma_chain_cycle_recurs(fat, cluster_count, start, i, j, k - 1);
        assert(0 <= (k - 1) * p) by (nonlinear_arith)
            requires
                k >= 1,
                p >= 0,
        ;
        assert(k * p == (k - 1) * p + p) by (nonlinear_arith);
        lemma_chain_step_shift(fat, cluster_count, start, i, j, (k - 1) * p);
        assert(spec_chain_step(fat, cluster_count, start, j + (k - 1) * p) == spec_chain_step(
            fat,
            cluster_count,
            start,
            i + (k - 1) * p,
        ));
        assert(i + k * p == j + (k - 1) * p);
        assert(spec_chain_step(fat, cluster_count, start, i + k * (j - i)) == spec_chain_step(
            fat,
            cluster_count,
            start,
            i,
        ));
    } else {
        assert(k * (j - i) == 0) by (nonlinear_arith)
            requires
                k == 0,
        ;
    }
}

/// At most one fate can befall a walk: it ends, it breaks, or it cycles,
/// never two of these at once.
pub proof fn lemma_chain_outcomes_exclusive(fat: Seq<u32>, cluster_count: u32, start: u32)
    ensures
        !(spec_chain_ends(fat, cluster_count, start) && spec_chain_broken(
            fat,
            cluster_count,
            start,
        )),
        !(spec_chain_ends(fat, cluster_count, start) && spec_chain_has_cycle(
            fat,
            cluster_count,
            start,
        )),
        !(spec_chain_broken(fat, cluster_count, start) && spec_chain_has_cycle(
            fat,
            cluster_count,
            start,
        )),
{
    if spec_chain_ends(fat, cluster_count, start) && spec_chain_broken(fat, cluster_count, start) {
        let n1 = choose|n: int| 0 <= n && #[trigger] spec_chain_step(fat, cluster_count, start, n)
            is Ended;
        let n2 = choose|n: int| 0 <= n && #[trigger] spec_chain_step(fat, cluster_count, start, n)
            is Broken;
        if n1 <= n2 {
            lemma_chain_step_absorbing(fat, cluster_count, start, n1, n2);
        } else {
            lemma_chain_step_absorbing(fat, cluster_count, start, n2, n1);
        }
    }
    if spec_chain_ends(fat, cluster_count, start) && spec_chain_has_cycle(
        fat,
        cluster_count,
        start,
    ) {
        let n = choose|n: int| 0 <= n && #[trigger] spec_chain_step(fat, cluster_count, start, n)
            is Ended;
        let (i, j) = choose|i: int, j: int|
            0 <= i < j && #[trigger] spec_chain_step(fat, cluster_count, start, i) is At
                && spec_chain_step(fat, cluster_count, start, i) == #[trigger] spec_chain_step(
                fat,
                cluster_count,
                start,
                j,
            );
        lemma_chain_cycle_recurs(fat, cluster_count, start, i, j, n + 1);
        assert((n + 1) * (j - i) >= n + 1) by (nonlinear_arith)
            requires
                j - i >= 1,
                n >= 0,
        ;
        lemma_chain_step_absorbing(fat, cluster_count, start, n, i + (n + 1) * (j - i));
    }
    if spec_chain_broken(fat, cluster_count, start) && spec_chain_has_cycle(
        fat,
        cluster_count,
        start,
    ) {
        let n = choose|n: int| 0 <= n && #[trigger] spec_chain_step(fat, cluster_count, start, n)
            is Broken;
        let (i, j) = choose|i: int, j: int|
            0 <= i < j && #[trigger] spec_chain_step(fat, cluster_count, start, i) is At
                && spec_chain_step(fat, cluster_count, start, i) == #[trigger] spec_chain_step(
                fat,
                cluster_count,
                start,
                j,
            );
        lemma_chain_cycle_recurs(fat, cluster_count, start, i, j, n + 1);
        assert((n + 1) * (j - i) >= n + 1) by (nonlinear_arith)
            requires
                j - i >= 1,
                n >= 0,
        ;
        lemma_chain_step_absorbing(fat, cluster_count, start, n, i + (n + 1) * (j - i));
    }
}

/// How many slots of a visit table are still clear.
spec fn count_false(s: Seq<bool>) -> nat
    decreases s.len(),
{
    if s.len() == 0 {
        0
    } else {
        (if s[0] {
            0nat
        } else {
            1nat
        }) + count_false(s.drop_first())
    }
}

/// Marking a clear slot lowers the number of clear slots.
proof fn lemma_count_false_update(s: Seq<bool>, i: int)
    requires
        0 <= i < s.len(),
        !s[i],
    ensures
        count_false(s.update(i, true)) < count_false(s),
    decreases s.len(),
{
    if i == 0 {
        assert(s.update(0, true).drop_first() =~= s.drop_first());
    } else {
        assert(s.update(i, true).drop_first() =~= s.drop_first().update(i - 1, true));
        lemma_count_false_update(s.drop_first(), i - 1);
    }
}

/// Walk the cluster chain that starts at `start`, yielding the clusters in
/// order up to (and including) the one whose slot carries the end-of-chain
/// mark. The FAT is given as its raw 32-bit slots, indexed by cluster
/// number, so it must cover clusters 0 through `cluster_count + 1`.
///
/// The walk succeeds exactly when the chain reaches an end-of-chain mark;
/// it reports `BrokenChain` exactly when the chain runs into a free slot, a
/// bad-cluster mark or an out-of-range link, and `ChainCycle` exactly when
/// the chain revisits a cluster — a hostile table can never make it loop.
pub fn walk_chain(fat: &Vec<u32>, cluster_count: u32, start: u32) -> (r: Result<
    Vec<u32>,
    ExFatError,
>)
    requires
        fat@.len() >= cluster_count + 2,
        cluster_count + 2 <= usize::MAX,
    ensures
        r is Ok <==> spec_chain_ends(fat@, cluster_count, start),
        r == Err::<Vec<u32>, ExFatError>(ExFatError::BrokenChain) <==> spec_chain_broken(
            fat@,
            cluster_count,
            start,
        ),
        r == Err::<Vec<u32>, ExFatError>(ExFatError::ChainCycle) <==> spec_chain_has_cycle(
            fat@,
            cluster_count,
            start,
        ),
        r matches Err(e) ==> (e == ExFatError::BrokenChain || e == ExFatError::ChainCycle),
        r matches Ok(chain) ==> {
            &&& chain@.len() >= 1
            &&& chain@[0] == start
            &&& forall|k: int|
                0 <= k < chain@.len() ==> spec_chain_step(fat@, cluster_count, start, k)
                    == ChainStep::At(#[trigger] chain@[k])
            &&& spec_chain_step(fat@, cluster_count, start, chain@.len() as int) is Ended
            &&& forall|k1: int, k2: int|
                0 <= k1 < k2 < chain@.len() ==> #[trigger] chain@[k1] != #[trigger] chain@[k2]
            &&& forall|k: int|
                0 <= k < chain@.len() ==> spec_cluster_in_range(#[trigger] chain@[k], cluster_count)
        },
{
    proof {
        lemma_chain_outcomes_exclusive(fat@, cluster_count, start);
    }
    if !(start >= 2 && (start as u64) <= (cluster_count as u64) + 1) {
        assert(spec_chain_step(fat@, cluster_count, start, 0) is Broken);
        return Err(ExFatError::BrokenChain);
    }
    let slots: usize = (cluster_count as usize) + 2;
    let mut visited: Vec<bool> = Vec::new();
    while visited.len() < slots
        invariant
            visited@.len() <= slots,
            forall|i: int| 0 <= i < visited@.len() ==> !(#[trigger] visited@[i]),
        decreases slots - visited@.len(),
    {
        visited.push(false);
    }
    let mut chain: Vec<u32> = Vec::new();
    let mut cur: u32 = start;
    loop
        invariant
            fat@.len() >= cluster_count + 2,
            visited@.len() == cluster_count + 2,
            spec_cluster_in_range(cur, cluster_count),
            spec_chain_step(fat@, cluster_count, start, chain@.len() as int) == ChainStep::At(cur),
            forall|k: int|
                0 <= k < chain@.len() ==> spec_chain_step(fat@, cluster_count, start, k)
                    == ChainStep::At(#[trigger] chain@[k]),
            forall|k: int|
                0 <= k < chain@.len() ==> spec_cluster_in_range(
                    #[trigger] chain@[k],
                    cluster_count,
                ),
            forall|c: u32|
                c < visited@.len() ==> (visited@[c as int] <==> #[trigger] chain@.contains(c)),
            forall|k1: int, k2: int|
                0 <= k1 < k2 < chain@.len() ==> #[trigger] chain@[k1] != #[trigger] chain@[k2],
        decreases count_false(visited@),
    {
        proof {
            lemma_chain_outcomes_exclusive(fat@, cluster_count, start);
        }
        if visited[cur as usize] {
            proof {
                let k = choose|k: int| 0 <= k < chain@.len() && chain@[k] == cur;
                assert(chain@.contains(cur));
                assert(spec_chain_step(fat@, cluster_count, start, k) == ChainStep::At(cur));
                assert(spec_chain_step(fat@, cluster_count, start, k) is At);
                assert(spec_chain_step(fat@, cluster_count, start, k) == spec_chain_step(
                    fat@,
                    cluster_count,
                    start,
                    chain@.len() as int,
                ));
            }
            return Err(ExFatError::ChainCycle);
        }
        let ghost old_visited = visited@;
        let ghost old_chain = chain@;
        visited[cur as usize] = true;
        chain.push(cur);
        proof {
            lemma_count_false_update(old_visited, cur as int);
            assert(!old_chain.contains(cur));
            assert forall|c: u32| c < visited@.len() implies (visited@[c as int]
                <==> #[trigger] chain@.contains(c)) by {
                if c == cur {
                    assert(chain@[chain@.len() - 1] == cur);
                    assert(chain@.contains(cur));
                } else {
                    if old_chain.contains(c) {
                        let k = choose|k: int| 0 <= k < old_chain.len() && old_chain[k] == c;
                        assert(chain@[k] == c);
                        assert(chain@.contains(c));
                    }
                    if chain@.contains(c) {
                        let k = choose|k: int| 0 <= k < chain@.len() && chain@[k] == c;
                        assert(k < old_chain.len());
                        assert(old_chain[k] == c);
                        assert(old_chain.contains(c));
                    }
                }
            }
        }
        let raw = fat[cur as usize];
        let entry = FatEntry::from_u32(raw);
        match entry {
            FatEntry::EndOfChain => {
                assert(spec_chain_step(fat@, cluster_count, start, chain@.len() as int) is Ended);
                return Ok(chain);
            },
            FatEntry::Next(c2) => {
                if c2 >= 2 && (c2 as u64) <= (cluster_count as u64) + 1 {
                    cur = c2;
                } else {
                    assert(spec_chain_step(
                        fat@,
                        cluster_count,
                        start,
                        chain@.len() as int,
                    ) is Broken);
                    return Err(ExFatError::BrokenChain);
                }
            },
            _ => {
                assert(spec_chain_step(fat@, cluster_count, start, chain@.len() as int) is Broken);
                return Err(ExFatError::BrokenChain);
            },
        }
    }
}

} // verus!
