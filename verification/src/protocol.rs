//! The host-facing surface: volume, file handle, and directory iterator.

use vstd::prelude::*;
use crate::boot::{
    spec_bytes_per_cluster, spec_bytes_per_sector, spec_is_valid, spec_le_u16, spec_le_u32,
    spec_le_u64, spec_sectors_per_cluster, BootSector,
};
use crate::entry::{
    assemble_file_entry_set, spec_entry_type, spec_set_checksum_ok, spec_set_name_len,
    spec_set_name_unit, spec_set_shape_ok, DirectoryEntry, EntryType, ATTR_DIRECTORY,
};
use crate::error::ExFatError;
use vstd::arithmetic::mul::lemma_mul_upper_bound;
use vstd::bits::lemma_u32_pow2_no_overflow;

verus! {

/// The characters that decoding a sequence of UTF-16 code units yields.
pub uninterp spec fn spec_utf16_chars(units: Seq<u16>) -> Seq<char>;

/// No unit of the sequence lies in the surrogate range: each one is a
/// scalar value of its own and decodes to exactly one character.
pub open spec fn spec_no_surrogates(units: Seq<u16>) -> bool {
    forall|i: int| 0 <= i < units.len() ==> !(0xD800 <= #[trigger] units[i] <= 0xDFFF)
}

/// Relies on alloc's String::from_utf16_lossy: the result is a function of
/// the code units alone, no units decode to no characters, and a sequence
/// without surrogate units decodes unit for unit, one character each.
#[verifier::external_body]
fn utf16_to_string(units: &Vec<u16>) -> (r: String)
    ensures
        r@ == spec_utf16_chars(units@),
        units@.len() == 0 ==> r@.len() == 0,
        spec_no_surrogates(units@) ==> r@.len() == units@.len(),
{
    String::from_utf16_lossy(units.as_slice())
}

/// exFAT Volume
pub struct ExFatVolume {
    /// Boot sector
    pub boot_sector: BootSector,
    /// Block device handle, passed through to the host's read primitive.
    pub block_device: usize,
}

/// The sector address of a cluster: the cluster heap starts at cluster 2,
/// each cluster covering `sectors_per_cluster` sectors.
pub open spec fn spec_cluster_to_lba(b: BootSector, cluster: u32) -> int {
    b.cluster_heap_offset + (cluster - 2) * spec_sectors_per_cluster(b)
}

impl ExFatVolume {
    /// Create a new exFAT volume from boot sector. Succeeds exactly when
    /// the boot sector carries the right signature and filesystem name;
    /// any other boot sector is rejected as a corrupt volume.
    pub fn new(boot_sector: BootSector, block_device: usize) -> (r: Result<Self, ExFatError>)
        ensures
            r is Ok <==> spec_is_valid(boot_sector),
            r matches Ok(v) ==> v.boot_sector == boot_sector && v.block_device == block_device,
            r matches Err(e) ==> e == ExFatError::CorruptVolume,
    {
        if !boot_sector.is_valid() {
            return Err(ExFatError::CorruptVolume);
        }
        Ok(Self { boot_sector, block_device })
    }

    /// Get bytes per sector
    pub fn bytes_per_sector(&self) -> (r: u32)
        requires
            self.boot_sector.bytes_per_sector_shift < 32,
        ensures
            r == spec_bytes_per_sector(self.boot_sector),
    {
        self.boot_sector.bytes_per_sector()
    }

    /// Get bytes per cluster
    pub fn bytes_per_cluster(&self) -> (r: u32)
        requires
            self.boot_sector.bytes_per_sector_shift + self.boot_sector.sectors_per_cluster_shift
                < 32,
        ensures
            r == spec_bytes_per_cluster(self.boot_sector),
    {
        self.boot_sector.bytes_per_cluster()
    }

    /// Convert cluster number to LBA (Logical Block Address). Clusters are
    /// numbered from 2, so cluster 2 sits exactly at the cluster heap
    /// offset.
    pub fn cluster_to_lba(&self, cluster: u32) -> (r: u64)
        requires
            cluster >= 2,
            self.boot_sector.sectors_per_cluster_shift < 32,
        ensures
            r == spec_cluster_to_lba(self.boot_sector, cluster),
    {
        let cluster_heap_offset = self.boot_sector.cluster_heap_offset as u64;
        let sectors_per_cluster = self.boot_sector.sectors_per_cluster() as u64;
        proof {
            lemma_u32_pow2_no_overflow(self.boot_sector.sectors_per_cluster_shift as nat);
            lemma_mul_upper_bound(
                cluster - 2,
                u32::MAX as int,
                spec_sectors_per_cluster(self.boot_sector) as int,
                u32::MAX as int,
            );
        }
        cluster_heap_offset + ((cluster - 2) as u64 * sectors_per_cluster)
    }

    /// Check that a caller's buffer can hold one cluster. The transfer
    /// itself is the block-device collaborator's work and happens outside
    /// the core; the buffer is left untouched here.
    pub fn read_cluster(&self, _cluster: u32, buffer: &mut Vec<u8>) -> (r: Result<(), ExFatError>)
        requires
            self.boot_sector.bytes_per_sector_shift + self.boot_sector.sectors_per_cluster_shift
                < 32,
        ensures
            final(buffer)@ == old(buffer)@,
            r is Ok <==> old(buffer)@.len() >= spec_bytes_per_cluster(self.boot_sector),
            r matches Err(e) ==> e == ExFatError::BufferTooSmall,
    {
        let bytes_per_cluster = self.bytes_per_cluster() as usize;
        if buffer.len() < bytes_per_cluster {
            return Err(ExFatError::BufferTooSmall);
        }
        Ok(())
    }

    /// Get the root directory cluster
    pub fn root_dir_cluster(&self) -> (r: u32)
        ensures
            r == self.boot_sector.root_dir_cluster,
    {
        self.boot_sector.root_dir_cluster
    }
}

/// Cluster 2 sits exactly at the cluster heap offset, and each following
/// cluster is one whole cluster of sectors further out.
pub proof fn lemma_cluster_to_lba_spacing(b: BootSector, n: u32)
    requires
        2 <= n < u32::MAX,
    ensures
        spec_cluster_to_lba(b, 2) == b.cluster_heap_offset,
        spec_cluster_to_lba(b, (n + 1) as u32) - spec_cluster_to_lba(b, n)
            == spec_sectors_per_cluster(b),
{
    let s = spec_sectors_per_cluster(b) as int;
    assert((n + 1 - 2) * s - (n - 2) * s == s) by (nonlinear_arith);
}

/// exFAT File Handle
pub struct ExFatFile {
    /// File name
    pub name: String,
    /// File attributes
    pub attributes: u16,
    /// First cluster
    pub first_cluster: u32,
    /// File size
    pub size: u64,
    /// Current position in file
    pub position: u64,
    /// Volume handle, passed through to the host's read primitive.
    pub volume: usize,
}

impl ExFatFile {
    /// Create a new file handle
    pub fn new(name: String, attributes: u16, first_cluster: u32, size: u64, volume: usize) -> (r:
        Self)
        ensures
            r.name == name,
            r.attributes == attributes,
            r.first_cluster == first_cluster,
            r.size == size,
            r.position == 0,
            r.volume == volume,
    {
        Self { name, attributes, first_cluster, size, position: 0, volume }
    }

    /// Check if this is a directory
    pub fn is_directory(&self) -> (r: bool)
        ensures
            r == (self.attributes & ATTR_DIRECTORY != 0),
    {
        (self.attributes & ATTR_DIRECTORY) != 0
    }

    /// Read from the file: advance the position over up to `buffer.len()`
    /// bytes of what remains before end-of-file and report how many bytes
    /// that is. At or past end-of-file nothing happens and the count is 0.
    /// The byte transfer itself goes through the block-device collaborator
    /// outside the core; `read_from_cluster` does the copying once the
    /// host has a cluster's bytes in hand.
    pub fn read(&mut self, buffer: &mut Vec<u8>) -> (r: Result<usize, ExFatError>)
        ensures
            final(buffer)@ == old(buffer)@,
            final(self).name == old(self).name,
            final(self).attributes == old(self).attributes,
            final(self).first_cluster == old(self).first_cluster,
            final(self).size == old(self).size,
            final(self).volume == old(self).volume,
            r matches Ok(count) ==> {
                &&& old(self).position >= old(self).size ==> count == 0 && final(self).position
                    == old(self).position
                &&& old(self).position < old(self).size ==> {
                    &&& count == (if old(buffer)@.len() <= old(self).size - old(self).position {
                        old(buffer)@.len() as int
                    } else {
                        old(self).size - old(self).position
                    })
                    &&& final(self).position == old(self).position + count
                }
            },
            r is Ok,
    {
        if self.position >= self.size {
            return Ok(0);
        }
        let remaining = self.size - self.position;
        let to_read: usize = if (buffer.len() as u64) <= remaining {
            buffer.len()
        } else {
            remaining as usize
        };
        self.position = self.position + (to_read as u64);
        Ok(to_read)
    }

    /// Seek to a position in the file. A target beyond the file size is
    /// rejected as an invalid parameter and the position is left unchanged.
    pub fn seek(&mut self, position: u64) -> (r: Result<(), ExFatError>)
        ensures
            final(self).name == old(self).name,
            final(self).attributes == old(self).attributes,
            final(self).first_cluster == old(self).first_cluster,
            final(self).size == old(self).size,
            final(self).volume == old(self).volume,
            r is Ok <==> position <= old(self).size,
            r is Ok ==> final(self).position == position,
            r matches Err(e) ==> e == ExFatError::InvalidParameter && final(self).position == old(
                self,
            ).position,
    {
        if position > self.size {
            return Err(ExFatError::InvalidParameter);
        }
        self.position = position;
        Ok(())
    }

    /// Copy the piece of the file that lies in the cluster holding the
    /// current position: fill the caller's buffer from `filled` onward out
    /// of the cluster's bytes, advance the position, and report how many
    /// bytes were taken — as many as the buffer's remainder, the file's
    /// remainder and the cluster's remainder allow. With the host fetching
    /// each cluster's bytes in turn, repeating this per cluster boundary
    /// is the whole of a read.
    #[verifier::loop_isolation(false)]
    pub fn read_from_cluster(
        &mut self,
        bytes_per_cluster: u32,
        cluster_bytes: &Vec<u8>,
        buffer: &mut Vec<u8>,
        filled: usize,
    ) -> (n: usize)
        requires
            bytes_per_cluster > 0,
            cluster_bytes@.len() == bytes_per_cluster,
            filled <= old(buffer)@.len(),
            old(self).position <= old(self).size,
        ensures
            final(self).name == old(self).name,
            final(self).attributes == old(self).attributes,
            final(self).first_cluster == old(self).first_cluster,
            final(self).size == old(self).size,
            final(self).volume == old(self).volume,
            final(buffer)@.len() == old(buffer)@.len(),
            ({
                let intra = old(self).position as int % bytes_per_cluster as int;
                let buf_rem = old(buffer)@.len() - filled;
                let clu_rem = bytes_per_cluster - intra;
                let file_rem = old(self).size - old(self).position;
                let lim = if buf_rem <= clu_rem {
                    buf_rem
                } else {
                    clu_rem
                };
                &&& n == (if file_rem <= lim {
                    file_rem
                } else {
                    lim
                })
                &&& final(self).position == old(self).position + n
                &&& forall|j: int|
                    filled <= j < filled + n ==> #[trigger] final(buffer)@[j] == cluster_bytes@[
                        intra + (j - filled)
                    ]
                &&& forall|j: int|
                    0 <= j < old(buffer)@.len() && (j < filled || j >= filled + n)
                        ==> #[trigger] final(buffer)@[j] == old(buffer)@[j]
            }),
    {
        let intra: usize = (self.position % (bytes_per_cluster as u64)) as usize;
        let buf_rem: usize = buffer.len() - filled;
        let clu_rem: usize = (bytes_per_cluster as usize) - intra;
        let lim: usize = if buf_rem <= clu_rem {
            buf_rem
        } else {
            clu_rem
        };
        let file_rem: u64 = self.size - self.position;
        let n: usize = if file_rem <= (lim as u64) {
            file_rem as usize
        } else {
            lim
        };
        let mut i: usize = 0;
        while i < n
            invariant
                i <= n,
                buffer@.len() == old(buffer)@.len(),
                forall|j: int|
                    filled <= j < filled + i ==> #[trigger] buffer@[j] == cluster_bytes@[intra + (
                    j - filled)],
                forall|j: int|
                    0 <= j < buffer@.len() && (j < filled || j >= filled + i) ==> #[trigger] buffer@[
                        j
                    ] == old(buffer)@[j],
            decreases n - i,
        {
            buffer[filled + i] = cluster_bytes[intra + i];
            i += 1;
        }
        self.position = self.position + (n as u64);
        n
    }

    /// Get file size
    pub fn size(&self) -> (r: u64)
        ensures
            r == self.size,
    {
        self.size
    }

    /// Get file name
    pub fn name(&self) -> (r: &str)
        ensures
            r@ == self.name@,
    {
        self.name.as_str()
    }
}

/// Where a scan of a directory's records stops: the first file (primary)
/// record or end-of-directory marker at or after `from`, or the end of the
/// records; everything before it is skipped as unused or uninteresting.
pub open spec fn spec_scan_pos(entries: Seq<DirectoryEntry>, from: int) -> int
    decreases entries.len() - from,
{
    if from >= entries.len() {
        from
    } else if spec_entry_type(entries[from].entry_type) is EndOfDirectory || spec_entry_type(
        entries[from].entry_type,
    ) is File {
        from
    } else {
        spec_scan_pos(entries, from + 1)
    }
}

/// exFAT Directory Handle
pub struct ExFatDirectory {
    /// Directory cluster
    pub cluster: u32,
    /// Current entry index
    pub current_entry: usize,
    /// Volume handle, passed through to the host's read primitive.
    pub volume: usize,
}

impl ExFatDirectory {
    /// Create a new directory handle
    pub fn new(cluster: u32, volume: usize) -> (r: Self)
        ensures
            r.cluster == cluster,
            r.current_entry == 0,
            r.volume == volume,
    {
        Self { cluster, current_entry: 0, volume }
    }

    /// Read the next directory entry out of the directory's records (as
    /// read from its cluster chain by the host).
    ///
    /// Skips unused records, stops for good at the end-of-directory marker
    /// (or at the end of the records) with `None`, and otherwise assembles
    /// the file entry set at the next file (primary) record. A set that
    /// fails its shape or checksum checks is reported as a malformed entry
    /// set and skipped over, so that iteration can continue behind it.
    #[verifier::loop_isolation(false)]
    pub fn read_entry(&mut self, entries: &Vec<DirectoryEntry>) -> (r: Result<
        Option<ExFatFile>,
        ExFatError,
    >)
        ensures
            final(self).cluster == old(self).cluster,
            final(self).volume == old(self).volume,
            ({
                let from = old(self).current_entry as int;
                let stop = spec_scan_pos(entries@, from);
                let len = entries@.len() as int;
                if stop >= len || spec_entry_type(entries@[stop].entry_type) is EndOfDirectory {
                    &&& r == Ok::<Option<ExFatFile>, ExFatError>(None)
                    &&& final(self).current_entry == stop
                } else {
                    let n = entries@[stop].data@[0] as int;
                    if spec_set_shape_ok(entries@, stop, n) && spec_set_checksum_ok(
                        entries@,
                        stop,
                        n,
                    ) {
                        &&& r matches Ok(Some(f)) && ({
                            let units = Seq::new(
                                spec_set_name_len(entries@, stop, n) as nat,
                                |i: int| spec_set_name_unit(entries@, stop, i),
                            );
                            &&& f.volume == old(self).volume
                            &&& f.attributes == spec_le_u16(entries@[stop].data@, 3)
                            &&& f.first_cluster == spec_le_u32(entries@[stop + 1].data@, 19)
                            &&& f.size == spec_le_u64(entries@[stop + 1].data@, 23)
                            &&& f.position == 0
                            &&& f.name@ == spec_utf16_chars(units)
                            &&& spec_no_surrogates(units) ==> f.name@.len() == units.len()
                        })
                        &&& final(self).current_entry == stop + 1 + n
                    } else {
                        &&& r == Err::<Option<ExFatFile>, ExFatError>(ExFatError::MalformedEntrySet)
                        &&& final(self).current_entry == (if stop + 1 + n <= len {
                            stop + 1 + n
                        } else {
                            len
                        })
                    }
                }
            }),
    {
        let len = entries.len();
        let mut idx: usize = self.current_entry;
        if idx >= len {
            return Ok(None);
        }
        while idx < len
            invariant
                idx <= len,
                spec_scan_pos(entries@, old(self).current_entry as int) == spec_scan_pos(
                    entries@,
                    idx as int,
                ),
            decreases len - idx,
        {
            let t = EntryType::from_u8(entries[idx].entry_type);
            if matches!(t, EntryType::EndOfDirectory) || matches!(t, EntryType::File) {
                break;
            }
            idx += 1;
        }
        self.current_entry = idx;
        if idx >= len {
            return Ok(None);
        }
        let t = EntryType::from_u8(entries[idx].entry_type);
        if matches!(t, EntryType::EndOfDirectory) {
            return Ok(None);
        }
        match assemble_file_entry_set(entries, idx) {
            Ok(set) => {
                let n = set.file.secondary_count as usize;
                self.current_entry = idx + 1 + n;
                let name = utf16_to_string(&set.name_units);
                proof {
                    let stop = idx as int;
                    let m = entries@[stop].data@[0] as int;
                    assert(set.name_units@ =~= Seq::new(
                        spec_set_name_len(entries@, stop, m) as nat,
                        |i: int| spec_set_name_unit(entries@, stop, i),
                    ));
                }
                let f = ExFatFile::new(
                    name,
                    set.file.file_attributes,
                    set.stream.first_cluster,
                    set.stream.data_length,
                    self.volume,
                );
                Ok(Some(f))
            },
            Err(e) => {
                let n = entries[idx].data[0] as usize;
                if n <= len - idx - 1 {
                    self.current_entry = idx + 1 + n;
                } else {
                    self.current_entry = len;
                }
                Err(e)
            },
        }
    }

    /// Reset directory iteration
    pub fn reset(&mut self)
        ensures
            final(self).cluster == old(self).cluster,
            final(self).volume == old(self).volume,
            final(self).current_entry == 0,
    {
        self.current_entry = 0;
    }
}

} // verus!
