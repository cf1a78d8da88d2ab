use exfat_driver::boot::BootSector;
use exfat_driver::chain::map_offset;
use exfat_driver::entry::{entry_set_checksum, DirectoryEntry};
use exfat_driver::error::ExFatError;
use exfat_driver::protocol::{ExFatDirectory, ExFatFile, ExFatVolume};

fn zeroed_boot_sector() -> BootSector {
    BootSector {
        jump_boot: [0; 3],
        fs_name: [0; 8],
        must_be_zero: [0; 53],
        partition_offset: 0,
        volume_length: 0,
        fat_offset: 0,
        fat_length: 0,
        cluster_heap_offset: 0,
        cluster_count: 0,
        root_dir_cluster: 0,
        volume_serial: 0,
        fs_revision: 0,
        volume_flags: 0,
        bytes_per_sector_shift: 0,
        sectors_per_cluster_shift: 0,
        num_fats: 0,
        drive_select: 0,
        percent_in_use: 0,
        reserved: [0; 7],
        boot_code: [0; 390],
        boot_signature: 0,
    }
}

#[test]
fn test_cluster_to_lba() {
    let mut boot_sector = zeroed_boot_sector();
    boot_sector.cluster_heap_offset = 1024;
    boot_sector.sectors_per_cluster_shift = 3; // 8 sectors per cluster
    boot_sector.boot_signature = 0xAA55;
    boot_sector.fs_name.copy_from_slice(b"EXFAT   ");

    let volume = ExFatVolume::new(boot_sector, 0).unwrap();

    // Cluster 2 should be at cluster_heap_offset
    assert_eq!(volume.cluster_to_lba(2), 1024);

    // Cluster 3 should be at cluster_heap_offset + sectors_per_cluster
    assert_eq!(volume.cluster_to_lba(3), 1032);
}

#[test]
fn test_volume_rejects_corrupt_boot_sector() {
    // Right name, wrong signature.
    let mut b = zeroed_boot_sector();
    b.fs_name.copy_from_slice(b"EXFAT   ");
    b.boot_signature = 0xAA54;
    b.cluster_heap_offset = 1024;
    assert!(matches!(
        ExFatVolume::new(b, 0),
        Err(e) if e == ExFatError::CorruptVolume
    ));
    // Right signature, wrong name.
    let mut b2 = zeroed_boot_sector();
    b2.fs_name.copy_from_slice(b"EXFAT!  ");
    b2.boot_signature = 0xAA55;
    assert!(matches!(
        ExFatVolume::new(b2, 0),
        Err(e) if e == ExFatError::CorruptVolume
    ));
}

#[test]
fn test_volume_geometry() {
    let mut b = zeroed_boot_sector();
    b.fs_name.copy_from_slice(b"EXFAT   ");
    b.boot_signature = 0xAA55;
    b.bytes_per_sector_shift = 9;
    b.sectors_per_cluster_shift = 3;
    b.root_dir_cluster = 5;
    let v = ExFatVolume::new(b, 0).unwrap();
    assert_eq!(v.bytes_per_sector(), 512);
    assert_eq!(v.bytes_per_cluster(), 4096);
    assert_eq!(
        v.bytes_per_cluster(),
        v.bytes_per_sector() * v.boot_sector.sectors_per_cluster()
    );
    assert!(v.bytes_per_sector().is_power_of_two());
    assert!(v.bytes_per_cluster().is_power_of_two());
    assert_eq!(v.root_dir_cluster(), 5);
}

#[test]
fn test_read_cluster_buffer_too_small() {
    let mut b = zeroed_boot_sector();
    b.fs_name.copy_from_slice(b"EXFAT   ");
    b.boot_signature = 0xAA55;
    b.bytes_per_sector_shift = 9;
    b.sectors_per_cluster_shift = 3; // 4096-byte clusters
    let v = ExFatVolume::new(b, 0).unwrap();
    let mut small = vec![0u8; 512];
    assert!(matches!(
        v.read_cluster(2, &mut small),
        Err(e) if e == ExFatError::BufferTooSmall
    ));
    let mut big = vec![0u8; 4096];
    assert!(v.read_cluster(2, &mut big).is_ok());
}

#[test]
fn test_file_read_and_seek() {
    let mut f = ExFatFile::new(String::from("a.txt"), 0x20, 2, 10, 0);
    assert_eq!(f.size(), 10);
    assert_eq!(f.name(), "a.txt");
    assert!(!f.is_directory());

    let mut buf = vec![0u8; 4];
    assert_eq!(f.read(&mut buf).unwrap(), 4);
    assert_eq!(f.position, 4);
    assert_eq!(f.read(&mut buf).unwrap(), 4);
    assert_eq!(f.read(&mut buf).unwrap(), 2);
    assert_eq!(f.position, 10);

    // read() at position == size returns 0 and leaves the position alone.
    assert_eq!(f.read(&mut buf).unwrap(), 0);
    assert_eq!(f.position, 10);

    // seek() past the size fails and leaves the position alone.
    assert!(matches!(
        f.seek(11),
        Err(e) if e == ExFatError::InvalidParameter
    ));
    assert_eq!(f.position, 10);
    f.seek(3).unwrap();
    assert_eq!(f.position, 3);

    let dir = ExFatFile::new(String::from("sub"), 0x10, 3, 0, 0);
    assert!(dir.is_directory());
}

#[test]
fn test_map_offset_contiguous() {
    let fat = vec![0u32; 18];
    // 4096-byte clusters, offset 9000 lands 808 bytes into the third one.
    assert_eq!(map_offset(&fat, 16, 5, true, 9000, 4096), Ok((7, 808)));
    // Beyond the largest cluster number.
    assert_eq!(
        map_offset(&fat, 16, 5, true, 4096 * 13, 4096),
        Err(ExFatError::OffsetBeyondChain)
    );
    // A first cluster out of range is a broken chain.
    assert_eq!(
        map_offset(&fat, 16, 1, true, 0, 4096),
        Err(ExFatError::BrokenChain)
    );
}

#[test]
fn test_map_offset_walks_fat() {
    let mut fat = vec![0u32; 18];
    fat[2] = 9;
    fat[9] = 4;
    fat[4] = 0xFFFFFFFF;
    assert_eq!(map_offset(&fat, 16, 2, false, 0, 4096), Ok((2, 0)));
    assert_eq!(map_offset(&fat, 16, 2, false, 5000, 4096), Ok((9, 904)));
    assert_eq!(map_offset(&fat, 16, 2, false, 2 * 4096 + 1, 4096), Ok((4, 1)));
    // The chain has three clusters: offset into a fourth fails.
    assert_eq!(
        map_offset(&fat, 16, 2, false, 3 * 4096, 4096),
        Err(ExFatError::OffsetBeyondChain)
    );
    // Corruption is reported as such.
    fat[4] = 3;
    fat[3] = 9;
    assert_eq!(
        map_offset(&fat, 16, 2, false, 0, 4096),
        Err(ExFatError::ChainCycle)
    );
}

fn file_primary(secondary_count: u8, attributes: u16) -> DirectoryEntry {
    let mut data = [0u8; 31];
    data[0] = secondary_count;
    data[3] = (attributes & 0xFF) as u8;
    data[4] = (attributes >> 8) as u8;
    DirectoryEntry { entry_type: 0x85, data }
}

fn stream_extension(name_length: u8, first_cluster: u32, data_length: u64) -> DirectoryEntry {
    let mut data = [0u8; 31];
    data[2] = name_length;
    data[19..23].copy_from_slice(&first_cluster.to_le_bytes());
    data[23..31].copy_from_slice(&data_length.to_le_bytes());
    DirectoryEntry { entry_type: 0xC0, data }
}

fn file_name_entry(units: &[u16]) -> DirectoryEntry {
    let mut data = [0u8; 31];
    for (i, u) in units.iter().enumerate() {
        data[1 + 2 * i..3 + 2 * i].copy_from_slice(&u.to_le_bytes());
    }
    DirectoryEntry { entry_type: 0xC1, data }
}

fn seal_checksum(entries: &mut Vec<DirectoryEntry>, start: usize, count: usize) {
    let cs = entry_set_checksum(entries, start, count);
    entries[start].data[1] = (cs & 0xFF) as u8;
    entries[start].data[2] = (cs >> 8) as u8;
}

#[test]
fn test_read_entry_decodes_five_char_name() {
    let units: Vec<u16> = "HELLO".encode_utf16().collect();
    let mut entries = vec![
        file_primary(2, 0x20),
        stream_extension(5, 6, 1234),
        file_name_entry(&units),
        DirectoryEntry { entry_type: 0x00, data: [0; 31] },
    ];
    seal_checksum(&mut entries, 0, 3);

    let mut dir = ExFatDirectory::new(4, 0);
    let f = dir.read_entry(&entries).unwrap().unwrap();
    assert_eq!(f.name(), "HELLO");
    assert_eq!(f.attributes, 0x20);
    assert_eq!(f.first_cluster, 6);
    assert_eq!(f.size(), 1234);
    assert_eq!(dir.current_entry, 3);

    // The next call hits the end-of-directory marker.
    assert!(dir.read_entry(&entries).unwrap().is_none());

    // reset() re-seeks to the first entry.
    dir.reset();
    assert_eq!(dir.current_entry, 0);
    let again = dir.read_entry(&entries).unwrap().unwrap();
    assert_eq!(again.name(), "HELLO");
}

#[test]
fn test_read_entry_rejects_corrupt_checksum() {
    let units: Vec<u16> = "HELLO".encode_utf16().collect();
    let mut entries = vec![
        file_primary(2, 0x20),
        stream_extension(5, 6, 1234),
        file_name_entry(&units),
        DirectoryEntry { entry_type: 0x00, data: [0; 31] },
    ];
    seal_checksum(&mut entries, 0, 3);
    // Flip one byte of the name record: the stored checksum no longer
    // matches and the set must be rejected.
    entries[2].data[1] ^= 0xFF;

    let mut dir = ExFatDirectory::new(4, 0);
    assert!(matches!(
        dir.read_entry(&entries),
        Err(e) if e == ExFatError::MalformedEntrySet
    ));
    // The iterator skipped the bad set and can carry on to the end marker.
    assert_eq!(dir.current_entry, 3);
    assert!(dir.read_entry(&entries).unwrap().is_none());
}

#[test]
fn test_read_entry_skips_unused_records() {
    let units: Vec<u16> = "AB".encode_utf16().collect();
    let mut entries = vec![
        // A volume label and a deleted record come first and are skipped.
        DirectoryEntry { entry_type: 0x83, data: [0; 31] },
        DirectoryEntry { entry_type: 0x05, data: [0; 31] },
        file_primary(2, 0x10),
        stream_extension(2, 8, 0),
        file_name_entry(&units),
    ];
    seal_checksum(&mut entries, 2, 3);

    let mut dir = ExFatDirectory::new(4, 0);
    let f = dir.read_entry(&entries).unwrap().unwrap();
    assert_eq!(f.name(), "AB");
    assert!(f.is_directory());
    // Past the set lies the end of the records.
    assert!(dir.read_entry(&entries).unwrap().is_none());
}

#[test]
fn test_read_entry_rejects_wrong_secondary_shape() {
    // The first secondary must be a stream extension; a file-name record
    // in its place is a malformed set.
    let units: Vec<u16> = "AB".encode_utf16().collect();
    let entries = vec![file_primary(2, 0x20), file_name_entry(&units), file_name_entry(&units)];
    let mut dir = ExFatDirectory::new(4, 0);
    assert!(matches!(
        dir.read_entry(&entries),
        Err(e) if e == ExFatError::MalformedEntrySet
    ));
    // A set whose secondaries run past the records is malformed too.
    let entries2 = vec![file_primary(5, 0x20), stream_extension(2, 8, 0), file_name_entry(&units)];
    let mut dir2 = ExFatDirectory::new(4, 0);
    assert!(matches!(
        dir2.read_entry(&entries2),
        Err(e) if e == ExFatError::MalformedEntrySet
    ));
    assert_eq!(dir2.current_entry, 3);
}

#[test]
fn test_read_from_cluster_copies() {
    let mut f = ExFatFile::new(String::from("d"), 0, 3, 10, 0);
    f.seek(1).unwrap();
    // An 8-byte cluster holding bytes 0..8; position 1 leaves 7 of them.
    let cluster: Vec<u8> = (0u8..8).collect();
    let mut buf = vec![0u8; 16];
    let n = f.read_from_cluster(8, &cluster, &mut buf, 2);
    assert_eq!(n, 7);
    assert_eq!(f.position, 8);
    assert_eq!(&buf[2..9], &[1, 2, 3, 4, 5, 6, 7]);
    assert_eq!(buf[0], 0);
    assert_eq!(buf[9], 0);
    // The next cluster: only 2 file bytes remain before end-of-file.
    let cluster2 = vec![9u8; 8];
    let n2 = f.read_from_cluster(8, &cluster2, &mut buf, 9);
    assert_eq!(n2, 2);
    assert_eq!(f.position, 10);
    assert_eq!(&buf[9..11], &[9, 9]);
    // At end-of-file nothing more is taken and nothing changes.
    assert_eq!(f.read_from_cluster(8, &cluster2, &mut buf, 11), 0);
    assert_eq!(f.position, 10);
    assert_eq!(buf[11], 0);
}
