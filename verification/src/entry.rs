//! Directory entries: classification, field layouts, the entry-set
//! checksum, and assembly of file entry sets.

use vstd::prelude::*;
use crate::boot::{le_u16, le_u32, le_u64, spec_le_u16, spec_le_u32, spec_le_u64};
use crate::error::ExFatError;

verus! {

/// exFAT Directory Entry Type
#[derive(Debug, Clone, Copy, PartialEq, Eq, Structural)]
pub enum EntryType {
    /// End of directory marker
    EndOfDirectory,
    /// Allocation bitmap
    AllocationBitmap,
    /// Up-case table
    UpCaseTable,
    /// Volume label
    VolumeLabel,
    /// File directory entry
    File,
    /// Volume GUID
    VolumeGuid,
    /// Stream extension
    StreamExtension,
    /// File name extension
    FileName,
    /// Vendor extension
    VendorExtension,
    /// Unknown type
    Unknown,
}

/// The classification of an 8-bit type code: 0x00 ends the directory, the
/// eight assigned codes name their record kinds, anything else is unknown.
pub open spec fn spec_entry_type(value: u8) -> EntryType {
    if value == 0x00u8 {
        EntryType::EndOfDirectory
    } else if value == 0x81u8 {
        EntryType::AllocationBitmap
    } else if value == 0x82u8 {
        EntryType::UpCaseTable
    } else if value == 0x83u8 {
        EntryType::VolumeLabel
    } else if value == 0x85u8 {
        EntryType::File
    } else if value == 0xA0u8 {
        EntryType::VolumeGuid
    } else if value == 0xC0u8 {
        EntryType::StreamExtension
    } else if value == 0xC1u8 {
        EntryType::FileName
    } else if value == 0xE0u8 {
        EntryType::VendorExtension
    } else {
        EntryType::Unknown
    }
}

impl EntryType {
    /// Classify a raw 8-bit type code.
    pub fn from_u8(value: u8) -> (r: EntryType)
        ensures
            r == spec_entry_type(value),
    {
        if value == 0x00u8 {
            EntryType::EndOfDirectory
        } else if value == 0x81u8 {
            EntryType::AllocationBitmap
        } else if value == 0x82u8 {
            EntryType::UpCaseTable
        } else if value == 0x83u8 {
            EntryType::VolumeLabel
        } else if value == 0x85u8 {
            EntryType::File
        } else if value == 0xA0u8 {
            EntryType::VolumeGuid
        } else if value == 0xC0u8 {
            EntryType::StreamExtension
        } else if value == 0xC1u8 {
            EntryType::FileName
        } else if value == 0xE0u8 {
            EntryType::VendorExtension
        } else {
            EntryType::Unknown
        }
    }
}

impl From<u8> for EntryType {
    fn from(value: u8) -> (r: Self)
        ensures
            r == spec_entry_type(value),
    {
        EntryType::from_u8(value)
    }
}

impl vstd::std_specs::convert::FromSpecImpl<u8> for EntryType {
    open spec fn obeys_from_spec() -> bool {
        true
    }

    open spec fn from_spec(v: u8) -> EntryType {
        spec_entry_type(v)
    }
}

/// Generic Directory Entry
#[derive(Debug, Clone, Copy)]
pub struct DirectoryEntry {
    /// Entry type
    pub entry_type: u8,
    /// Entry data (31 bytes)
    pub data: [u8; 31],
}

/// An entry is in use when its type code is not the end marker and carries
/// the in-use bit (the high bit).
pub open spec fn spec_is_in_use(entry_type: u8) -> bool {
    entry_type != 0x00u8 && entry_type & 0x80u8 != 0u8
}

impl DirectoryEntry {
    /// Size of directory entry in bytes
    pub const SIZE: usize = 32;

    /// Get entry type
    pub fn get_type(&self) -> (r: EntryType)
        ensures
            r == spec_entry_type(self.entry_type),
    {
        EntryType::from_u8(self.entry_type)
    }

    /// Check if entry is in use
    pub fn is_in_use(&self) -> (r: bool)
        ensures
            r == spec_is_in_use(self.entry_type),
    {
        self.entry_type != 0x00u8 && (self.entry_type & 0x80u8) != 0u8
    }
}

/// File Directory Entry
#[derive(Debug, Clone, Copy)]
pub struct FileEntry {
    /// Entry type (0x85)
    pub entry_type: u8,
    /// Secondary count (number of secondary entries)
    pub secondary_count: u8,
    /// Set checksum
    pub set_checksum: u16,
    /// File attributes
    pub file_attributes: u16,
    /// Reserved
    pub reserved1: u16,
    /// Create timestamp
    pub create_timestamp: u32,
    /// Last modified timestamp
    pub last_modified_timestamp: u32,
    /// Last accessed timestamp
    pub last_accessed_timestamp: u32,
    /// Create 10ms increment
    pub create_10ms: u8,
    /// Last modified 10ms increment
    pub last_modified_10ms: u8,
    /// Create UTC offset
    pub create_utc_offset: u8,
    /// Last modified UTC offset
    pub last_modified_utc_offset: u8,
    /// Last accessed UTC offset
    pub last_accessed_utc_offset: u8,
    /// Reserved
    pub reserved2: [u8; 7],
}

/// The decoded file entry agrees with the raw 32-byte record field by
/// field, each multi-byte field read little-endian at its fixed offset.
pub open spec fn spec_file_entry_parsed(f: FileEntry, raw: DirectoryEntry) -> bool {
    &&& f.entry_type == raw.entry_type
    &&& f.secondary_count == raw.data@[0]
    &&& f.set_checksum == spec_le_u16(raw.data@, 1)
    &&& f.file_attributes == spec_le_u16(raw.data@, 3)
    &&& f.reserved1 == spec_le_u16(raw.data@, 5)
    &&& f.create_timestamp == spec_le_u32(raw.data@, 7)
    &&& f.last_modified_timestamp == spec_le_u32(raw.data@, 11)
    &&& f.last_accessed_timestamp == spec_le_u32(raw.data@, 15)
    &&& f.create_10ms == raw.data@[19]
    &&& f.last_modified_10ms == raw.data@[20]
    &&& f.create_utc_offset == raw.data@[21]
    &&& f.last_modified_utc_offset == raw.data@[22]
    &&& f.last_accessed_utc_offset == raw.data@[23]
    &&& f.reserved2@ == raw.data@.subrange(24, 31)
}

impl FileEntry {
    /// Decode the fixed fields of a file (primary) directory entry out of
    /// its raw 32-byte record.
    pub fn parse(raw: &DirectoryEntry) -> (r: FileEntry)
        ensures
            spec_file_entry_parsed(r, *raw),
    {
        let data = raw.data.as_slice();
        let reserved2: [u8; 7] = [raw.data[24], raw.data[25], raw.data[26], raw.data[27],
            raw.data[28], raw.data[29], raw.data[30]];
        let r = FileEntry {
            entry_type: raw.entry_type,
            secondary_count: raw.data[0],
            set_checksum: le_u16(data, 1),
            file_attributes: le_u16(data, 3),
            reserved1: le_u16(data, 5),
            create_timestamp: le_u32(data, 7),
            last_modified_timestamp: le_u32(data, 11),
            last_accessed_timestamp: le_u32(data, 15),
            create_10ms: raw.data[19],
            last_modified_10ms: raw.data[20],
            create_utc_offset: raw.data[21],
            last_modified_utc_offset: raw.data[22],
            last_accessed_utc_offset: raw.data[23],
            reserved2,
        };
        proof {
            assert(r.reserved2@ =~= raw.data@.subrange(24, 31));
        }
        r
    }
}

/// File attribute bit: read-only.
pub const ATTR_READ_ONLY: u16 = 0x01;

/// File attribute bit: hidden.
pub const ATTR_HIDDEN: u16 = 0x02;

/// File attribute bit: system.
pub const ATTR_SYSTEM: u16 = 0x04;

/// File attribute bit: directory.
pub const ATTR_DIRECTORY: u16 = 0x10;

/// File attribute bit: archive.
pub const ATTR_ARCHIVE: u16 = 0x20;

/// Stream Extension Directory Entry
#[derive(Debug, Clone, Copy)]
pub struct StreamExtensionEntry {
    /// Entry type (0xC0)
    pub entry_type: u8,
    /// General secondary flags
    pub flags: u8,
    /// Reserved
    pub reserved1: u8,
    /// Name length
    pub name_length: u8,
    /// Name hash
    pub name_hash: u16,
    /// Reserved
    pub reserved2: u16,
    /// Valid data length
    pub valid_data_length: u64,
    /// Reserved
    pub reserved3: u32,
    /// First cluster
    pub first_cluster: u32,
    /// Data length
    pub data_length: u64,
}

/// The decoded stream extension agrees with the raw 32-byte record field
/// by field.
pub open spec fn spec_stream_entry_parsed(s: StreamExtensionEntry, raw: DirectoryEntry) -> bool {
    &&& s.entry_type == raw.entry_type
    &&& s.flags == raw.data@[0]
    &&& s.reserved1 == raw.data@[1]
    &&& s.name_length == raw.data@[2]
    &&& s.name_hash == spec_le_u16(raw.data@, 3)
    &&& s.reserved2 == spec_le_u16(raw.data@, 5)
    &&& s.valid_data_length == spec_le_u64(raw.data@, 7)
    &&& s.reserved3 == spec_le_u32(raw.data@, 15)
    &&& s.first_cluster == spec_le_u32(raw.data@, 19)
    &&& s.data_length == spec_le_u64(raw.data@, 23)
}

impl StreamExtensionEntry {
    /// Decode the fixed fields of a stream extension (secondary) entry out
    /// of its raw 32-byte record.
    pub fn parse(raw: &DirectoryEntry) -> (r: StreamExtensionEntry)
        ensures
            spec_stream_entry_parsed(r, *raw),
    {
        let data = raw.data.as_slice();
        StreamExtensionEntry {
            entry_type: raw.entry_type,
            flags: raw.data[0],
            reserved1: raw.data[1],
            name_length: raw.data[2],
            name_hash: le_u16(data, 3),
            reserved2: le_u16(data, 5),
            valid_data_length: le_u64(data, 7),
            reserved3: le_u32(data, 15),
            first_cluster: le_u32(data, 19),
            data_length: le_u64(data, 23),
        }
    }

    /// The no-FAT-chain flag: when set, the file's clusters are physically
    /// sequential and the FAT is not consulted for them.
    pub fn is_contiguous(&self) -> (r: bool)
        ensures
            r == (self.flags & 0x02u8 != 0u8),
    {
        (self.flags & 0x02u8) != 0u8
    }
}

/// File Name Directory Entry
#[derive(Debug, Clone, Copy)]
pub struct FileNameEntry {
    /// Entry type (0xC1)
    pub entry_type: u8,
    /// General secondary flags
    pub flags: u8,
    /// File name characters (UTF-16)
    pub file_name: [u16; 15],
}

/// The i-th UTF-16 code unit held by a file name record, read
/// little-endian.
pub open spec fn spec_name_unit_of(raw: DirectoryEntry, i: int) -> u16 {
    spec_le_u16(raw.data@, 1 + 2 * i)
}

/// The decoded file name entry agrees with the raw 32-byte record: the
/// flags byte, then fifteen little-endian UTF-16 code units.
pub open spec fn spec_name_entry_parsed(f: FileNameEntry, raw: DirectoryEntry) -> bool {
    &&& f.entry_type == raw.entry_type
    &&& f.flags == raw.data@[0]
    &&& forall|i: int| 0 <= i < 15 ==> #[trigger] f.file_name@[i] == spec_name_unit_of(raw, i)
}

impl FileNameEntry {
    /// Decode a file name (secondary) entry out of its raw 32-byte record.
    #[verifier::loop_isolation(false)]
    pub fn parse(raw: &DirectoryEntry) -> (r: FileNameEntry)
        ensures
            spec_name_entry_parsed(r, *raw),
    {
        let data = raw.data.as_slice();
        let mut file_name: [u16; 15] = [0u16; 15];
        let mut i: usize = 0;
        while i < 15
            invariant
                i <= 15,
                forall|j: int| 0 <= j < i ==> #[trigger] file_name@[j] == spec_name_unit_of(
                    *raw,
                    j,
                ),
            decreases 15 - i,
        {
            file_name[i] = le_u16(data, 1 + 2 * i);
            i += 1;
        }
        FileNameEntry { entry_type: raw.entry_type, flags: raw.data[0], file_name }
    }
}

/// One step of the entry-set checksum: rotate the running 16-bit sum right
/// by one, then add the byte.
pub open spec fn spec_checksum_step(sum: u16, b: u8) -> u16 {
    (((if sum & 1u16 == 1u16 {
        0x8000 as int
    } else {
        0 as int
    }) + (sum >> 1u16) + b) % 0x10000) as u16
}

/// The byte at position `idx` of an entry set laid out record after
/// record: byte 0 of a record is its type code, the rest its data.
pub open spec fn spec_set_byte(entries: Seq<DirectoryEntry>, idx: int) -> u8 {
    if idx % 32 == 0 {
        entries[idx / 32].entry_type
    } else {
        entries[idx / 32].data@[idx % 32 - 1]
    }
}

/// The checksum of the first `n` bytes of an entry set, skipping byte
/// positions 2 and 3 (the stored checksum itself).
pub open spec fn spec_checksum_prefix(entries: Seq<DirectoryEntry>, n: int) -> u16
    decreases n,
{
    if n <= 0 {
        0u16
    } else {
        let prev = spec_checksum_prefix(entries, n - 1);
        if n - 1 == 2 || n - 1 == 3 {
            prev
        } else {
            spec_checksum_step(prev, spec_set_byte(entries, n - 1))
        }
    }
}

/// The 16-bit checksum of a whole entry set: every byte of every record,
/// except the two bytes where the checksum itself is stored.
pub open spec fn spec_entry_set_checksum(entries: Seq<DirectoryEntry>) -> u16 {
    spec_checksum_prefix(entries, 32 * entries.len() as int)
}

/// One checksum step.
fn checksum_step(sum: u16, b: u8) -> (r: u16)
    ensures
        r == spec_checksum_step(sum, b),
{
    assert(sum >> 1u16 <= 0x7FFFu16) by (bit_vector);
    let low: u16 = sum >> 1u16;
    let rot: u16 = if sum & 1u16 == 1u16 {
        low + 0x8000u16
    } else {
        low
    };
    let wide: u32 = (rot as u32 + b as u32) % 0x10000;
    wide as u16
}

/// Compute the checksum of the `count` records starting at `start`,
/// skipping the stored checksum bytes of the first record.
#[verifier::loop_isolation(false)]
pub fn entry_set_checksum(entries: &Vec<DirectoryEntry>, start: usize, count: usize) -> (r: u16)
    requires
        start + count <= entries.len(),
    ensures
        r == spec_entry_set_checksum(entries@.subrange(start as int, start + count)),
{
    let ghost sub = entries@.subrange(start as int, start + count);
    let mut sum: u16 = 0;
    let mut i: usize = 0;
    while i < count
        invariant
            i <= count,
            sum == spec_checksum_prefix(sub, 32 * i),
        decreases count - i,
    {
        let e = entries[start + i];
        let mut j: usize = 0;
        while j < 32
            invariant
                j <= 32,
                sum == spec_checksum_prefix(sub, 32 * i + j),
            decreases 32 - j,
        {
            proof {
                assert((32 * (i as int) + (j as int)) / 32 == i as int && (32 * (i as int) + (
                j as int)) % 32 == j as int) by (nonlinear_arith)
                    requires
                        0 <= j < 32,
                        0 <= i,
                ;
            }
            if !(i == 0 && (j == 2 || j == 3)) {
                let b = if j == 0 {
                    e.entry_type
                } else {
                    e.data[j - 1]
                };
                sum = checksum_step(sum, b);
            }
            j += 1;
        }
        i += 1;
    }
    proof {
        assert(32 * (count as int) == 32 * sub.len());
    }
    sum
}

/// Split a cluster's raw bytes into 32-byte directory records: for each,
/// the leading type code and the 31 data bytes behind it; trailing bytes
/// short of a whole record are dropped.
#[verifier::loop_isolation(false)]
pub fn directory_records_from_bytes(bytes: &[u8]) -> (r: Vec<DirectoryEntry>)
    ensures
        r@.len() == bytes@.len() / 32,
        forall|i: int|
            0 <= i < r@.len() ==> #[trigger] r@[i].entry_type == bytes@[32 * i] && r@[i].data@
                == bytes@.subrange(32 * i + 1, 32 * i + 32),
{
    let count: usize = bytes.len() / 32;
    let mut records: Vec<DirectoryEntry> = Vec::new();
    let mut i: usize = 0;
    while i < count
        invariant
            i <= count,
            records@.len() == i,
            forall|k: int|
                0 <= k < i ==> #[trigger] records@[k].entry_type == bytes@[32 * k]
                    && records@[k].data@ == bytes@.subrange(32 * k + 1, 32 * k + 32),
        decreases count - i,
    {
        let mut data: [u8; 31] = [0u8; 31];
        let mut j: usize = 0;
        while j < 31
            invariant
                i < count,
                j <= 31,
                forall|m: int| 0 <= m < j ==> #[trigger] data@[m] == bytes@[32 * i + 1 + m],
            decreases 31 - j,
        {
            data[j] = bytes[32 * i + 1 + j];
            j += 1;
        }
        let record = DirectoryEntry { entry_type: bytes[32 * i], data };
        proof {
            assert(record.data@ =~= bytes@.subrange(32 * i + 1, 32 * i + 32));
        }
        records.push(record);
        i += 1;
    }
    records
}

/// A file entry set: the file (primary) entry, its stream extension, and
/// the file name code units gathered from the file name entries, truncated
/// to the recorded name length.
pub struct FileEntrySet {
    /// The decoded file (primary) entry.
    pub file: FileEntry,
    /// The decoded stream extension entry.
    pub stream: StreamExtensionEntry,
    /// The UTF-16 code units of the name, in order.
    pub name_units: Vec<u16>,
}

/// The records from `start` have the shape of a file entry set with `n`
/// secondaries: a stream extension first, file name records after it, all
/// within bounds.
pub open spec fn spec_set_shape_ok(entries: Seq<DirectoryEntry>, start: int, n: int) -> bool {
    &&& n >= 1
    &&& start + 1 + n <= entries.len()
    &&& spec_entry_type(entries[start + 1].entry_type) is StreamExtension
    &&& forall|k: int|
        start + 2 <= k < start + 1 + n ==> spec_entry_type(
            #[trigger] entries[k].entry_type,
        ) is FileName
}

/// The i-th UTF-16 code unit of the set's name: unit `i % 15` of the
/// `i / 15`-th file name record.
pub open spec fn spec_set_name_unit(entries: Seq<DirectoryEntry>, start: int, i: int) -> u16 {
    spec_name_unit_of(entries[start + 2 + i / 15], i % 15)
}

/// How many name units the set yields: the recorded name length, capped by
/// what its file name records can hold.
pub open spec fn spec_set_name_len(entries: Seq<DirectoryEntry>, start: int, n: int) -> int {
    let recorded = entries[start + 1].data@[2] as int;
    if recorded <= 15 * (n - 1) {
        recorded
    } else {
        15 * (n - 1)
    }
}

/// The stored checksum of the set starting at `start` matches the checksum
/// computed over its records.
pub open spec fn spec_set_checksum_ok(entries: Seq<DirectoryEntry>, start: int, n: int) -> bool {
    spec_le_u16(entries[start].data@, 1) == spec_entry_set_checksum(
        entries.subrange(start, start + 1 + n),
    )
}

/// Group the file (primary) entry at `start` with its `secondary_count`
/// following records, check their shape and their checksum, and decode the
/// set. Succeeds exactly when the first secondary is a stream extension,
/// the rest are file name records, all of them present, and the stored
/// checksum matches; everything else is a malformed entry set.
#[verifier::loop_isolation(false)]
pub fn assemble_file_entry_set(entries: &Vec<DirectoryEntry>, start: usize) -> (r: Result<
    FileEntrySet,
    ExFatError,
>)
    requires
        start < entries.len(),
        spec_entry_type(entries@[start as int].entry_type) is File,
    ensures
        r is Ok <==> {
            let n = entries@[start as int].data@[0] as int;
            spec_set_shape_ok(entries@, start as int, n) && spec_set_checksum_ok(
                entries@,
                start as int,
                n,
            )
        },
        r matches Ok(s) ==> {
            let n = entries@[start as int].data@[0] as int;
            &&& spec_file_entry_parsed(s.file, entries@[start as int])
            &&& spec_stream_entry_parsed(s.stream, entries@[start as int + 1])
            &&& s.name_units@.len() == spec_set_name_len(entries@, start as int, n)
            &&& forall|i: int|
                0 <= i < s.name_units@.len() ==> #[trigger] s.name_units@[i]
                    == spec_set_name_unit(entries@, start as int, i)
        },
        r matches Err(e) ==> e == ExFatError::MalformedEntrySet,
{
    let file = FileEntry::parse(&entries[start]);
    let n = file.secondary_count as usize;
    if n < 1 || n > entries.len() - start - 1 {
        return Err(ExFatError::MalformedEntrySet);
    }
    let stream_raw = entries[start + 1];
    if !matches!(EntryType::from_u8(stream_raw.entry_type), EntryType::StreamExtension) {
        return Err(ExFatError::MalformedEntrySet);
    }
    let end: usize = start + 1 + n;
    let mut k: usize = 2;
    while k < 1 + n
        invariant
            2 <= k <= 1 + n,
            forall|m: int|
                start + 2 <= m < start + k ==> spec_entry_type(
                    #[trigger] entries@[m].entry_type,
                ) is FileName,
        decreases 1 + n - k,
    {
        if !matches!(EntryType::from_u8(entries[start + k].entry_type), EntryType::FileName) {
            return Err(ExFatError::MalformedEntrySet);
        }
        k += 1;
    }
    let computed = entry_set_checksum(entries, start, 1 + n);
    if computed != file.set_checksum {
        return Err(ExFatError::MalformedEntrySet);
    }
    let stream = StreamExtensionEntry::parse(&stream_raw);
    let avail = 15 * (n - 1);
    let take = if (stream.name_length as usize) <= avail {
        stream.name_length as usize
    } else {
        avail
    };
    let mut name_units: Vec<u16> = Vec::new();
    let mut i: usize = 0;
    while i < take
        invariant
            i <= take,
            name_units@.len() == i,
            forall|m: int|
                0 <= m < i ==> #[trigger] name_units@[m] == spec_set_name_unit(
                    entries@,
                    start as int,
                    m,
                ),
        decreases take - i,
    {
        proof {
            assert(0 <= (i as int) / 15 && (i as int) / 15 < (n as int) - 1 && 0 <= (i as int) % 15
                < 15) by (nonlinear_arith)
                requires
                    0 <= i < take,
                    take <= 15 * ((n as int) - 1),
            ;
        }
        let unit = le_u16(entries[start + 2 + i / 15].data.as_slice(), 1 + 2 * (i % 15));
        name_units.push(unit);
        i += 1;
    }
    Ok(FileEntrySet { file, stream, name_units })
}

} // verus!
