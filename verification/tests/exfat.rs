use core::mem;
use exfat_driver::boot::BootSector;
use exfat_driver::entry::{
    entry_set_checksum, DirectoryEntry, EntryType, FileEntry, StreamExtensionEntry,
};
use exfat_driver::error::ExFatError;
use exfat_driver::fat::{walk_chain, FatEntry};

#[test]
fn test_boot_sector_size() {
    assert_eq!(mem::size_of::<BootSector>(), BootSector::SIZE);
}

#[test]
fn test_directory_entry_size() {
    assert_eq!(mem::size_of::<DirectoryEntry>(), DirectoryEntry::SIZE);
}

#[test]
fn test_fat_entry_parsing() {
    assert_eq!(FatEntry::from_u32(0x00000000), FatEntry::Free);
    assert_eq!(FatEntry::from_u32(0xFFFFFFF7), FatEntry::Bad);
    assert_eq!(FatEntry::from_u32(0xFFFFFFFF), FatEntry::EndOfChain);
    assert_eq!(FatEntry::from_u32(0x12345), FatEntry::Next(0x12345));
}

#[test]
fn test_fat_entry_round_trip() {
    let entries = [
        FatEntry::Free,
        FatEntry::Bad,
        FatEntry::EndOfChain,
        FatEntry::Next(2),
        FatEntry::Next(0x00012345),
        FatEntry::Next(0xFFFFFFF6),
    ];
    for e in entries {
        assert_eq!(FatEntry::from_u32(e.to_u32()), e);
    }
}

#[test]
fn test_boot_sector_parse_valid() {
    let mut bytes = vec![0u8; 512];
    bytes[3..11].copy_from_slice(b"EXFAT   ");
    bytes[80] = 24; // fat_offset
    bytes[88] = 0;
    bytes[89] = 4; // cluster_heap_offset = 1024
    bytes[92] = 16; // cluster_count
    bytes[96] = 4; // root_dir_cluster
    bytes[108] = 9; // 512 bytes per sector
    bytes[109] = 3; // 8 sectors per cluster
    bytes[510] = 0x55;
    bytes[511] = 0xAA;
    let b = BootSector::parse(&bytes).unwrap();
    assert!(b.is_valid());
    assert_eq!(b.fat_offset, 24);
    assert_eq!(b.cluster_heap_offset, 1024);
    assert_eq!(b.cluster_count, 16);
    assert_eq!(b.root_dir_cluster, 4);
    assert_eq!(b.bytes_per_sector(), 512);
    assert_eq!(b.sectors_per_cluster(), 8);
    assert_eq!(b.bytes_per_cluster(), 4096);
}

#[test]
fn test_boot_sector_parse_rejects() {
    let mut bytes = vec![0u8; 512];
    bytes[3..11].copy_from_slice(b"EXFAT   ");
    bytes[510] = 0x54; // wrong signature
    bytes[511] = 0xAA;
    assert_eq!(BootSector::parse(&bytes).unwrap_err(), ExFatError::CorruptVolume);
    bytes[510] = 0x55;
    let b = BootSector::parse(&bytes).unwrap();
    assert!(b.is_valid());
    bytes[5] = b'X'; // wrong filesystem name
    assert_eq!(BootSector::parse(&bytes).unwrap_err(), ExFatError::CorruptVolume);
}

#[test]
fn test_entry_type_classification() {
    assert_eq!(EntryType::from_u8(0x00), EntryType::EndOfDirectory);
    assert_eq!(EntryType::from_u8(0x81), EntryType::AllocationBitmap);
    assert_eq!(EntryType::from_u8(0x82), EntryType::UpCaseTable);
    assert_eq!(EntryType::from_u8(0x83), EntryType::VolumeLabel);
    assert_eq!(EntryType::from_u8(0x85), EntryType::File);
    assert_eq!(EntryType::from_u8(0xA0), EntryType::VolumeGuid);
    assert_eq!(EntryType::from_u8(0xC0), EntryType::StreamExtension);
    assert_eq!(EntryType::from_u8(0xC1), EntryType::FileName);
    assert_eq!(EntryType::from_u8(0xE0), EntryType::VendorExtension);
    assert_eq!(EntryType::from_u8(0x42), EntryType::Unknown);
    let e = DirectoryEntry { entry_type: 0x85, data: [0; 31] };
    assert_eq!(e.get_type(), EntryType::File);
    assert!(e.is_in_use());
    let gone = DirectoryEntry { entry_type: 0x05, data: [0; 31] };
    assert!(!gone.is_in_use());
    let end = DirectoryEntry { entry_type: 0x00, data: [0; 31] };
    assert!(!end.is_in_use());
}

#[test]
fn test_file_entry_fields() {
    let mut data = [0u8; 31];
    data[0] = 2; // secondary count
    data[1] = 0x34;
    data[2] = 0x12; // set checksum 0x1234
    data[3] = 0x20; // attributes: archive
    let raw = DirectoryEntry { entry_type: 0x85, data };
    let f = FileEntry::parse(&raw);
    assert_eq!(f.secondary_count, 2);
    assert_eq!(f.set_checksum, 0x1234);
    assert_eq!(f.file_attributes, 0x20);
}

#[test]
fn test_stream_entry_fields() {
    let mut data = [0u8; 31];
    data[0] = 0x02; // no-FAT-chain flag
    data[2] = 5; // name length
    data[19] = 7; // first cluster
    data[23] = 100; // data length
    let raw = DirectoryEntry { entry_type: 0xC0, data };
    let s = StreamExtensionEntry::parse(&raw);
    assert!(s.is_contiguous());
    assert_eq!(s.name_length, 5);
    assert_eq!(s.first_cluster, 7);
    assert_eq!(s.data_length, 100);
}

#[test]
fn test_checksum_exact() {
    // One record whose only nonzero byte is its type code 0x01: the running
    // sum becomes 1, is rotated into the high bit, skips the two checksum
    // positions, and is then rotated right 28 more times, landing on bit 3.
    let e = DirectoryEntry { entry_type: 0x01, data: [0; 31] };
    let entries = vec![e];
    assert_eq!(entry_set_checksum(&entries, 0, 1), 0x0008);
}

#[test]
fn test_walk_chain_follows_links() {
    // Clusters: 2 -> 3 -> 4 -> end.
    let mut fat = vec![0u32; 18]; // cluster_count = 16
    fat[2] = 3;
    fat[3] = 4;
    fat[4] = 0xFFFFFFFF;
    let chain = walk_chain(&fat, 16, 2).unwrap();
    assert_eq!(chain, vec![2, 3, 4]);
}

#[test]
fn test_walk_chain_cycle_terminates() {
    // 2 -> 3 -> 4 -> 3: the walk must stop and report the cycle.
    let mut fat = vec![0u32; 18];
    fat[2] = 3;
    fat[3] = 4;
    fat[4] = 3;
    assert_eq!(walk_chain(&fat, 16, 2), Err(ExFatError::ChainCycle));
    // A self-loop as well.
    let mut fat2 = vec![0u32; 18];
    fat2[2] = 2;
    assert_eq!(walk_chain(&fat2, 16, 2), Err(ExFatError::ChainCycle));
}

#[test]
fn test_walk_chain_broken() {
    // A bad-cluster mark mid-chain.
    let mut fat = vec![0u32; 18];
    fat[2] = 3;
    fat[3] = 0xFFFFFFF7;
    assert_eq!(walk_chain(&fat, 16, 2), Err(ExFatError::BrokenChain));
    // A link out of range (cluster_count = 16 allows clusters 2..=17).
    let mut fat2 = vec![0u32; 18];
    fat2[2] = 18;
    assert_eq!(walk_chain(&fat2, 16, 2), Err(ExFatError::BrokenChain));
    // A free slot mid-chain.
    let mut fat3 = vec![0u32; 18];
    fat3[2] = 3;
    assert_eq!(walk_chain(&fat3, 16, 2), Err(ExFatError::BrokenChain));
    // A start below 2.
    assert_eq!(walk_chain(&fat, 16, 0), Err(ExFatError::BrokenChain));
}

#[test]
fn test_fat_slots_from_bytes() {
    let mut bytes = vec![0u8; 18];
    bytes[0] = 0x78;
    bytes[1] = 0x56;
    bytes[2] = 0x34;
    bytes[3] = 0x12;
    bytes[4] = 0xFF;
    bytes[5] = 0xFF;
    bytes[6] = 0xFF;
    bytes[7] = 0xFF;
    bytes[8] = 3;
    // Two trailing bytes short of a slot are dropped.
    let slots = exfat_driver::fat::fat_slots_from_bytes(&bytes);
    assert_eq!(slots, vec![0x12345678, 0xFFFFFFFF, 3, 0]);
}

#[test]
fn test_directory_records_from_bytes() {
    let mut bytes = vec![0u8; 65];
    bytes[0] = 0x85;
    bytes[1] = 2; // first record: secondary count 2
    bytes[32] = 0xC0;
    bytes[34] = 7; // second record: name length at data byte 2
    let records = exfat_driver::entry::directory_records_from_bytes(&bytes);
    assert_eq!(records.len(), 2);
    assert_eq!(records[0].entry_type, 0x85);
    assert_eq!(records[0].data[0], 2);
    assert_eq!(records[1].entry_type, 0xC0);
    assert_eq!(records[1].data[1], 7);
}

#[test]
fn test_read_entry_empty_directory() {
    let mut dir = exfat_driver::protocol::ExFatDirectory::new(2, 0);
    let entries: Vec<DirectoryEntry> = Vec::new();
    assert!(dir.read_entry(&entries).unwrap().is_none());
    assert_eq!(dir.current_entry, 0);
}
