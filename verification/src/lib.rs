//! A read-only exFAT metadata engine: boot-sector parsing, FAT chain
//! walking, and directory-entry decoding, with verified contracts.

pub mod boot;
pub mod chain;
pub mod entry;
pub mod error;
pub mod fat;
pub mod protocol;

pub use boot::BootSector;
pub use entry::{DirectoryEntry, EntryType, FileEntry, FileEntrySet, FileNameEntry, StreamExtensionEntry};
pub use error::ExFatError;
pub use fat::FatEntry;
pub use protocol::{ExFatDirectory, ExFatFile, ExFatVolume};
