//! The volume boot sector: byte-level parsing and geometry queries.

use vstd::prelude::*;
use vstd::arithmetic::power2::{pow2, lemma_pow2_adds};
use vstd::bits::{lemma_u32_pow2_no_overflow, lemma_u32_shl_is_mul};
use crate::error::ExFatError;

verus! {

/// Little-endian 16-bit value at byte offset `off`.
pub open spec fn spec_le_u16(s: Seq<u8>, off: int) -> u16 {
    (s[off] + s[off + 1] * 0x100) as u16
}

/// Little-endian 32-bit value at byte offset `off`.
pub open spec fn spec_le_u32(s: Seq<u8>, off: int) -> u32 {
    (s[off] + s[off + 1] * 0x100 + s[off + 2] * 0x10000 + s[off + 3] * 0x1000000) as u32
}

/// Little-endian 64-bit value at byte offset `off`.
pub open spec fn spec_le_u64(s: Seq<u8>, off: int) -> u64 {
    (s[off] + s[off + 1] * 0x100 + s[off + 2] * 0x10000 + s[off + 3] * 0x1000000
        + s[off + 4] * 0x100000000 + s[off + 5] * 0x10000000000
        + s[off + 6] * 0x1000000000000 + s[off + 7] * 0x100000000000000) as u64
}

/// Little-endian 16-bit read.
pub(crate) fn le_u16(bytes: &[u8], off: usize) -> (r: u16)
    requires
        off + 2 <= bytes@.len(),
    ensures
        r == spec_le_u16(bytes@, off as int),
{
    bytes[off] as u16 + (bytes[off + 1] as u16) * 0x100
}

/// Little-endian 32-bit read.
pub(crate) fn le_u32(bytes: &[u8], off: usize) -> (r: u32)
    requires
        off + 4 <= bytes@.len(),
    ensures
        r == spec_le_u32(bytes@, off as int),
{
    bytes[off] as u32 + (bytes[off + 1] as u32) * 0x100 + (bytes[off + 2] as u32) * 0x10000
        + (bytes[off + 3] as u32) * 0x1000000
}

/// Little-endian 64-bit read.
pub(crate) fn le_u64(bytes: &[u8], off: usize) -> (r: u64)
    requires
        off + 8 <= bytes@.len(),
    ensures
        r == spec_le_u64(bytes@, off as int),
{
    bytes[off] as u64 + (bytes[off + 1] as u64) * 0x100 + (bytes[off + 2] as u64) * 0x10000
        + (bytes[off + 3] as u64) * 0x1000000 + (bytes[off + 4] as u64) * 0x100000000
        + (bytes[off + 5] as u64) * 0x10000000000 + (bytes[off + 6] as u64) * 0x1000000000000
        + (bytes[off + 7] as u64) * 0x100000000000000
}

/// exFAT Boot Sector
#[derive(Debug, Clone, Copy)]
pub struct BootSector {
    /// Jump boot code
    pub jump_boot: [u8; 3],
    /// File system name ("EXFAT   ")
    pub fs_name: [u8; 8],
    /// Must be zeros
    pub must_be_zero: [u8; 53],
    /// Partition offset in sectors
    pub partition_offset: u64,
    /// Volume length in sectors
    pub volume_length: u64,
    /// FAT offset in sectors
    pub fat_offset: u32,
    /// FAT length in sectors
    pub fat_length: u32,
    /// Cluster heap offset in sectors
    pub cluster_heap_offset: u32,
    /// Cluster count
    pub cluster_count: u32,
    /// First cluster of root directory
    pub root_dir_cluster: u32,
    /// Volume serial number
    pub volume_serial: u32,
    /// File system revision (major.minor)
    pub fs_revision: u16,
    /// Volume flags
    pub volume_flags: u16,
    /// Bytes per sector (power of 2)
    pub bytes_per_sector_shift: u8,
    /// Sectors per cluster (power of 2)
    pub sectors_per_cluster_shift: u8,
    /// Number of FATs (should be 1 for exFAT)
    pub num_fats: u8,
    /// Drive select
    pub drive_select: u8,
    /// Percent in use
    pub percent_in_use: u8,
    /// Reserved
    pub reserved: [u8; 7],
    /// Boot code
    pub boot_code: [u8; 390],
    /// Boot signature (0xAA55)
    pub boot_signature: u16,
}

/// The eight bytes of the required filesystem name, "EXFAT   ".
pub open spec fn spec_fs_name_ok(name: Seq<u8>) -> bool {
    &&& name.len() == 8
    &&& name[0] == 0x45u8
    &&& name[1] == 0x58u8
    &&& name[2] == 0x46u8
    &&& name[3] == 0x41u8
    &&& name[4] == 0x54u8
    &&& name[5] == 0x20u8
    &&& name[6] == 0x20u8
    &&& name[7] == 0x20u8
}

/// A boot sector is acceptable exactly when its signature is 0xAA55 and its
/// filesystem name reads "EXFAT   ".
pub open spec fn spec_is_valid(b: BootSector) -> bool {
    b.boot_signature == 0xAA55u16 && spec_fs_name_ok(b.fs_name@)
}

/// Bytes per sector: two to the recorded shift.
pub open spec fn spec_bytes_per_sector(b: BootSector) -> nat {
    pow2(b.bytes_per_sector_shift as nat)
}

/// Sectors per cluster: two to the recorded shift.
pub open spec fn spec_sectors_per_cluster(b: BootSector) -> nat {
    pow2(b.sectors_per_cluster_shift as nat)
}

/// Bytes per cluster: two to the sum of the two shifts.
pub open spec fn spec_bytes_per_cluster(b: BootSector) -> nat {
    pow2((b.bytes_per_sector_shift + b.sectors_per_cluster_shift) as nat)
}

/// The 512 raw bytes and the decoded record agree field by field, each
/// multi-byte field read little-endian at its fixed offset.
pub open spec fn spec_parsed_from(b: BootSector, s: Seq<u8>) -> bool {
    &&& b.jump_boot@ == s.subrange(0, 3)
    &&& b.fs_name@ == s.subrange(3, 11)
    &&& b.must_be_zero@ == s.subrange(11, 64)
    &&& b.partition_offset == spec_le_u64(s, 64)
    &&& b.volume_length == spec_le_u64(s, 72)
    &&& b.fat_offset == spec_le_u32(s, 80)
    &&& b.fat_length == spec_le_u32(s, 84)
    &&& b.cluster_heap_offset == spec_le_u32(s, 88)
    &&& b.cluster_count == spec_le_u32(s, 92)
    &&& b.root_dir_cluster == spec_le_u32(s, 96)
    &&& b.volume_serial == spec_le_u32(s, 100)
    &&& b.fs_revision == spec_le_u16(s, 104)
    &&& b.volume_flags == spec_le_u16(s, 106)
    &&& b.bytes_per_sector_shift == s[108]
    &&& b.sectors_per_cluster_shift == s[109]
    &&& b.num_fats == s[110]
    &&& b.drive_select == s[111]
    &&& b.percent_in_use == s[112]
    &&& b.reserved@ == s.subrange(113, 120)
    &&& b.boot_code@ == s.subrange(120, 510)
    &&& b.boot_signature == spec_le_u16(s, 510)
}

/// The raw sector would decode to a valid boot sector: right signature at
/// offset 510 and the name "EXFAT   " at offset 3.
pub open spec fn spec_boot_bytes_valid(s: Seq<u8>) -> bool {
    spec_le_u16(s, 510) == 0xAA55u16 && spec_fs_name_ok(s.subrange(3, 11))
}

impl BootSector {
    /// Size of boot sector in bytes
    pub const SIZE: usize = 512;

    /// Decode the first sector of a volume. Succeeds exactly when the
    /// signature and filesystem-name checks pass; every field of the result
    /// is the little-endian reading of its fixed byte range.
    pub fn parse(bytes: &[u8]) -> (r: Result<BootSector, ExFatError>)
        requires
            bytes@.len() == 512,
        ensures
            r is Ok <==> spec_boot_bytes_valid(bytes@),
            r matches Ok(b) ==> spec_parsed_from(b, bytes@) && spec_is_valid(b),
            r matches Err(e) ==> e == ExFatError::CorruptVolume,
    {
        let signature = le_u16(bytes, 510);
        let name_ok = bytes[3] == 0x45u8 && bytes[4] == 0x58u8 && bytes[5] == 0x46u8
            && bytes[6] == 0x41u8 && bytes[7] == 0x54u8 && bytes[8] == 0x20u8
            && bytes[9] == 0x20u8 && bytes[10] == 0x20u8;
        if signature != 0xAA55u16 || !name_ok {
            proof {
                assert(spec_fs_name_ok(bytes@.subrange(3, 11)) ==> (bytes@.subrange(3, 11)[0]
                    == 0x45u8 && bytes@.subrange(3, 11)[1] == 0x58u8 && bytes@.subrange(3, 11)[2]
                    == 0x46u8 && bytes@.subrange(3, 11)[3] == 0x41u8 && bytes@.subrange(3, 11)[4]
                    == 0x54u8 && bytes@.subrange(3, 11)[5] == 0x20u8 && bytes@.subrange(3, 11)[6]
                    == 0x20u8 && bytes@.subrange(3, 11)[7] == 0x20u8));
            }
            return Err(ExFatError::CorruptVolume);
        }
        let jump_boot: [u8; 3] = [bytes[0], bytes[1], bytes[2]];
        let fs_name: [u8; 8] = [bytes[3], bytes[4], bytes[5], bytes[6], bytes[7], bytes[8],
            bytes[9], bytes[10]];
        let mut must_be_zero: [u8; 53] = [0u8; 53];
        let mut i: usize = 0;
        while i < 53
            invariant
                i <= 53,
                bytes@.len() == 512,
                forall|j: int| 0 <= j < i ==> must_be_zero@[j] == bytes@[11 + j],
            decreases 53 - i,
        {
            must_be_zero[i] = bytes[11 + i];
            i += 1;
        }
        let mut reserved: [u8; 7] = [0u8; 7];
        let mut i: usize = 0;
        while i < 7
            invariant
                i <= 7,
                bytes@.len() == 512,
                forall|j: int| 0 <= j < i ==> reserved@[j] == bytes@[113 + j],
            decreases 7 - i,
        {
            reserved[i] = bytes[113 + i];
            i += 1;
        }
        let mut boot_code: [u8; 390] = [0u8; 390];
        let mut i: usize = 0;
        while i < 390
            invariant
                i <= 390,
                bytes@.len() == 512,
                forall|j: int| 0 <= j < i ==> boot_code@[j] == bytes@[120 + j],
            decreases 390 - i,
        {
            boot_code[i] = bytes[120 + i];
            i += 1;
        }
        let b = BootSector {
            jump_boot,
            fs_name,
            must_be_zero,
            partition_offset: le_u64(bytes, 64),
            volume_length: le_u64(bytes, 72),
            fat_offset: le_u32(bytes, 80),
            fat_length: le_u32(bytes, 84),
            cluster_heap_offset: le_u32(bytes, 88),
            cluster_count: le_u32(bytes, 92),
            root_dir_cluster: le_u32(bytes, 96),
            volume_serial: le_u32(bytes, 100),
            fs_revision: le_u16(bytes, 104),
            volume_flags: le_u16(bytes, 106),
            bytes_per_sector_shift: bytes[108],
            sectors_per_cluster_shift: bytes[109],
            num_fats: bytes[110],
            drive_select: bytes[111],
            percent_in_use: bytes[112],
            reserved,
            boot_code,
            boot_signature: signature,
        };
        proof {
            assert(b.jump_boot@ =~= bytes@.subrange(0, 3));
            assert(b.fs_name@ =~= bytes@.subrange(3, 11));
            assert(b.must_be_zero@ =~= bytes@.subrange(11, 64));
            assert(b.reserved@ =~= bytes@.subrange(113, 120));
            assert(b.boot_code@ =~= bytes@.subrange(120, 510));
            assert(bytes@.subrange(3, 11)[0] == bytes@[3]);
        }
        Ok(b)
    }

    /// Verify boot sector signature and filesystem name
    pub fn is_valid(&self) -> (r: bool)
        ensures
            r == spec_is_valid(*self),
    {
        self.boot_signature == 0xAA55u16 && self.fs_name[0] == 0x45u8 && self.fs_name[1] == 0x58u8
            && self.fs_name[2] == 0x46u8 && self.fs_name[3] == 0x41u8 && self.fs_name[4] == 0x54u8
            && self.fs_name[5] == 0x20u8 && self.fs_name[6] == 0x20u8 && self.fs_name[7] == 0x20u8
    }

    /// Get bytes per sector
    pub fn bytes_per_sector(&self) -> (r: u32)
        requires
            self.bytes_per_sector_shift < 32,
        ensures
            r == spec_bytes_per_sector(*self),
    {
        proof {
            lemma_u32_pow2_no_overflow(self.bytes_per_sector_shift as nat);
            lemma_u32_shl_is_mul(1u32, self.bytes_per_sector_shift as u32);
        }
        1u32 << (self.bytes_per_sector_shift as u32)
    }

    /// Get sectors per cluster
    pub fn sectors_per_cluster(&self) -> (r: u32)
        requires
            self.sectors_per_cluster_shift < 32,
        ensures
            r == spec_sectors_per_cluster(*self),
    {
        proof {
            lemma_u32_pow2_no_overflow(self.sectors_per_cluster_shift as nat);
            lemma_u32_shl_is_mul(1u32, self.sectors_per_cluster_shift as u32);
        }
        1u32 << (self.sectors_per_cluster_shift as u32)
    }

    /// Get bytes per cluster
    pub fn bytes_per_cluster(&self) -> (r: u32)
        requires
            self.bytes_per_sector_shift + self.sectors_per_cluster_shift < 32,
        ensures
            r == spec_bytes_per_cluster(*self),
    {
        proof {
            lemma_pow2_adds(
                self.bytes_per_sector_shift as nat,
                self.sectors_per_cluster_shift as nat,
            );
            lemma_u32_pow2_no_overflow(
                (self.bytes_per_sector_shift + self.sectors_per_cluster_shift) as nat,
            );
        }
        self.bytes_per_sector() * self.sectors_per_cluster()
    }
}

/// On every boot sector whose two size shifts fit a 32-bit quantity, the
/// cluster size factors exactly into sector size times sectors per cluster,
/// and each of the three is a power of two.
pub proof fn lemma_cluster_size_factors(b: BootSector)
    requires
        b.bytes_per_sector_shift + b.sectors_per_cluster_shift < 32,
    ensures
        spec_bytes_per_cluster(b) == spec_bytes_per_sector(b) * spec_sectors_per_cluster(b),
        spec_bytes_per_sector(b) == pow2(b.bytes_per_sector_shift as nat),
        spec_sectors_per_cluster(b) == pow2(b.sectors_per_cluster_shift as nat),
        spec_bytes_per_cluster(b) == pow2(
            (b.bytes_per_sector_shift + b.sectors_per_cluster_shift) as nat,
        ),
{
    lemma_pow2_adds(b.bytes_per_sector_shift as nat, b.sectors_per_cluster_shift as nat);
}

} // verus!
