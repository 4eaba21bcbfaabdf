//! Read-only decoder for FAT16 and FAT32 volume images: boot sector,
//! cluster addressing, allocation-table chains and directory records.

pub mod le;
pub mod geometry;
pub mod entry;
pub mod reader;
pub mod fat;
pub mod fat32;
pub mod encoding;
