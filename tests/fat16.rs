use fatfs_reader::fat::{DirType, Directory, DirectoryEntry, EntryType, File, FileSystem};
use fatfs_reader::geometry::{FatError, RootDescriptor};

const SECTOR: usize = 512;

fn put16(img: &mut [u8], off: usize, v: u16) {
    img[off..off + 2].copy_from_slice(&v.to_le_bytes());
}

fn put32(img: &mut [u8], off: usize, v: u32) {
    img[off..off + 4].copy_from_slice(&v.to_le_bytes());
}

/// 64 sectors of 512 bytes, 1 sector per cluster, 1 reserved sector, one
/// FAT of 1 sector, a root region of 16 records (1 sector); data from
/// sector 3.
fn boot16(sector_count: u16, large: u32) -> Vec<u8> {
    let mut img = vec![0u8; 64 * SECTOR];
    put16(&mut img, 11, SECTOR as u16);
    img[13] = 1;
    put16(&mut img, 14, 1);
    img[16] = 1;
    put16(&mut img, 17, 16);
    put16(&mut img, 19, sector_count);
    put16(&mut img, 22, 1);
    put32(&mut img, 32, large);
    img[38] = 0x29;
    img[43..54].copy_from_slice(b"TESTVOL    ");
    img
}

fn record(img: &mut [u8], off: usize, name: &[u8; 11], flags: u8, cluster: u16, size: u32) {
    img[off..off + 11].copy_from_slice(name);
    img[off + 11] = flags;
    put16(img, off + 26, cluster);
    put32(img, off + 28, size);
}

fn fat16_set(img: &mut [u8], cluster: usize, v: u16) {
    put16(img, SECTOR + 2 * cluster, v);
}

fn cluster_off(cluster: usize) -> usize {
    (3 + cluster - 2) * SECTOR
}

fn names(v: &[DirectoryEntry]) -> Vec<String> {
    v.iter().map(|e| e.full_name()).collect()
}

#[test]
fn it_works() {
    assert_eq!(2 + 2, 4);
}

#[test]
fn sector_count_prefers_sixteen_bit_field() {
    let fs = FileSystem::new(boot16(64, 99_999)).ok().unwrap();
    assert_eq!(fs.sectors_count(), 64);
    assert_eq!(fs.volume_size(), 64 * 512);
}

#[test]
fn sector_count_falls_back_to_large_field() {
    let fs = FileSystem::new(boot16(0, 99_999)).ok().unwrap();
    assert_eq!(fs.sectors_count(), 99_999);
    assert_eq!(fs.volume_size(), 99_999 * 512);
}

#[test]
fn geometry_and_addressing() {
    let fs = FileSystem::new(boot16(64, 0)).ok().unwrap();
    let g = fs.geometry_ref();
    assert_eq!(g.fat_entry_bits, 16);
    assert_eq!(g.fat_start_sector(), 1);
    assert_eq!(g.data_start_sector(), 3);
    assert_eq!(g.cluster_to_sector(2), g.data_start_sector());
    assert_eq!(g.cluster_to_sector(5), 6);
    assert_eq!(g.byte_offset(6), 3072);
    assert_eq!(g.entries_per_cluster(), 16);
    assert_eq!(g.max_chain(), 64);
    assert!(matches!(g.root, RootDescriptor::FixedRegion { start_sector: 2, max_entries: 16 }));
}

#[test]
fn volume_name_is_trimmed() {
    let fs = FileSystem::new(boot16(64, 0)).ok().unwrap();
    assert_eq!(fs.volume_name(), "TESTVOL");
}

#[test]
fn root_directory_is_fixed_region() {
    let fs = FileSystem::new(boot16(64, 0)).ok().unwrap();
    assert_eq!(fs.root_directory(), Directory { inner: DirType::Root(2, 16) });
}

#[test]
fn root_region_stops_at_terminator() {
    let mut img = boot16(64, 0);
    let root = 2 * SECTOR;
    record(&mut img, root, b"FILE1   TXT", 0x20, 7, 100);
    record(&mut img, root + 32, b"SUBDIR     ", 0x10, 9, 0);
    // terminator, then a record that must not be listed
    record(&mut img, root + 96, b"LATER   TXT", 0x20, 3, 5);
    let fs = FileSystem::new(img).ok().unwrap();
    let v = fs.read_directory(fs.root_directory()).ok().unwrap();
    assert_eq!(v.len(), 2);
    assert_eq!(v[0].name(), "FILE1");
    assert_eq!(v[0].extension(), "TXT");
    assert_eq!(v[0].size, 100);
    assert_eq!(v[0].entry_type(), EntryType::File(File { cluster: 7, size: 100 }));
    assert_eq!(v[1].full_name(), "SUBDIR");
    assert_eq!(v[1].extension(), "");
    assert_eq!(
        v[1].entry_type(),
        EntryType::Dir(Directory { inner: DirType::Regular(9) })
    );
}

#[test]
fn full_root_region_ends_without_terminator() {
    let mut img = boot16(64, 0);
    for i in 0..16 {
        let name = format!("F{:02}     BIN", i);
        record(&mut img, 2 * SECTOR + 32 * i, name.as_bytes().try_into().unwrap(), 0, 0, i as u32);
    }
    // the first data cluster follows; it must not be read as part of the root
    record(&mut img, 3 * SECTOR, b"DATA    BIN", 0, 0, 0);
    let fs = FileSystem::new(img).ok().unwrap();
    let v = fs.read_directory(fs.root_directory()).ok().unwrap();
    assert_eq!(v.len(), 16);
    assert_eq!(v[15].full_name(), "F15.BIN");
}

#[test]
fn two_cluster_chain_is_concatenated() {
    let mut img = boot16(64, 0);
    fat16_set(&mut img, 5, 8);
    fat16_set(&mut img, 8, 0xFFFF);
    for (c, tag) in [(5usize, b'A'), (8usize, b'B')] {
        for i in 0..16 {
            let mut name = *b"X00     DAT";
            name[0] = tag;
            name[1] = b'0' + (i / 10) as u8;
            name[2] = b'0' + (i % 10) as u8;
            record(&mut img, cluster_off(c) + 32 * i, &name, 0x20, 0, i as u32);
        }
    }
    let fs = FileSystem::new(img).ok().unwrap();
    let v = fs.read_directory(Directory { inner: DirType::Regular(5) }).ok().unwrap();
    assert_eq!(v.len(), 32);
    let n = names(&v);
    assert_eq!(n[0], "A00.DAT");
    assert_eq!(n[15], "A15.DAT");
    assert_eq!(n[16], "B00.DAT");
    assert_eq!(n[31], "B15.DAT");
}

#[test]
fn free_first_cluster_lists_nothing() {
    let mut img = boot16(64, 0);
    fat16_set(&mut img, 6, 0);
    record(&mut img, cluster_off(6), b"GHOST   TXT", 0x20, 0, 1);
    let fs = FileSystem::new(img).ok().unwrap();
    let v = fs.read_directory(Directory { inner: DirType::Regular(6) }).ok().unwrap();
    assert_eq!(v.len(), 0);
}

#[test]
fn reserved_first_cluster_lists_nothing() {
    let fs = FileSystem::new(boot16(64, 0)).ok().unwrap();
    let v = fs.read_directory(Directory { inner: DirType::Regular(1) }).ok().unwrap();
    assert_eq!(v.len(), 0);
}

#[test]
fn long_name_records_are_left_out() {
    let mut img = boot16(64, 0);
    let root = 2 * SECTOR;
    record(&mut img, root, b"Ax\0y\0z\0w\0v\0", 0x0F, 0, 0xFFFF_FFFF);
    record(&mut img, root + 32, b"REAL    TXT", 0x20, 4, 12);
    record(&mut img, root + 64, b"Bq\0r\0s\0t\0u\0", 0x0F, 0, 0);
    let fs = FileSystem::new(img).ok().unwrap();
    let v = fs.read_directory(fs.root_directory()).ok().unwrap();
    assert_eq!(v.len(), 1);
    assert_eq!(v[0].full_name(), "REAL.TXT");
    assert!(v.iter().all(|e| e.flags != 0x0F));
}

#[test]
fn end_marker_stops_after_cluster() {
    let mut img = boot16(64, 0);
    fat16_set(&mut img, 4, 0xFFF8);
    record(&mut img, cluster_off(4), b"ONE     TXT", 0x20, 0, 1);
    for i in 1..16 {
        record(&mut img, cluster_off(4) + 32 * i, b"MORE    TXT", 0x20, 0, 1);
    }
    let fs = FileSystem::new(img).ok().unwrap();
    let v = fs.read_directory(Directory { inner: DirType::Regular(4) }).ok().unwrap();
    assert_eq!(v.len(), 16);
}

#[test]
fn cyclic_chain_is_refused() {
    let mut img = boot16(64, 0);
    fat16_set(&mut img, 5, 6);
    fat16_set(&mut img, 6, 5);
    for c in [5usize, 6] {
        for i in 0..16 {
            record(&mut img, cluster_off(c) + 32 * i, b"LOOP    TXT", 0x20, 0, 1);
        }
    }
    let fs = FileSystem::new(img).ok().unwrap();
    let r = fs.read_directory(Directory { inner: DirType::Regular(5) });
    assert_eq!(r.err(), Some(FatError::ChainTooLong));
}

#[test]
fn chain_past_image_is_io_error() {
    let mut img = boot16(64, 0);
    fat16_set(&mut img, 4, 200);
    for i in 0..16 {
        record(&mut img, cluster_off(4) + 32 * i, b"NEXT    TXT", 0x20, 0, 1);
    }
    let fs = FileSystem::new(img).ok().unwrap();
    let r = fs.read_directory(Directory { inner: DirType::Regular(4) });
    assert_eq!(r.err(), Some(FatError::IoError));
}

#[test]
fn bad_signature_is_invalid_boot_sector() {
    let mut img = boot16(64, 0);
    img[38] = 0x00;
    assert_eq!(FileSystem::new(img).err(), Some(FatError::InvalidBootSector));
}

#[test]
fn bad_sector_size_is_invalid_boot_sector() {
    let mut img = boot16(64, 0);
    put16(&mut img, 11, 500);
    assert_eq!(FileSystem::new(img).err(), Some(FatError::InvalidBootSector));
}

#[test]
fn short_image_is_io_error() {
    assert_eq!(FileSystem::new(vec![0u8; 40]).err(), Some(FatError::IoError));
}

#[test]
fn boot_sector_and_records_round_trip() {
    let mut img = vec![0u8; 80 * 1024];
    put16(&mut img, 11, 1024);
    img[13] = 4;
    put16(&mut img, 14, 3);
    img[16] = 2;
    put16(&mut img, 17, 64);
    put16(&mut img, 19, 0);
    put16(&mut img, 22, 5);
    put32(&mut img, 32, 80);
    img[38] = 0x28;
    img[43..54].copy_from_slice(b"MY DISK    ");
    // root region: sector 3 + 2 * 5 = 13, 64 records = 2 sectors
    let root = 13 * 1024;
    record(&mut img, root, b"README  MD ", 0x21, 0x1234, 0xDEAD_BEEF);
    let fs = FileSystem::new(img).ok().unwrap();
    let g = fs.geometry_ref();
    assert_eq!(g.sector_size, 1024);
    assert_eq!(g.cluster_size, 4);
    assert_eq!(g.reserved_sectors, 3);
    assert_eq!(g.fat_count, 2);
    assert_eq!(g.fat_size_sectors, 5);
    assert_eq!(g.total_sectors, 80);
    assert_eq!(g.label, b"MY DISK    ".to_vec());
    assert_eq!(g.data_start_sector(), 15);
    assert_eq!(fs.volume_name(), "MY DISK");
    assert_eq!(fs.root_directory(), Directory { inner: DirType::Root(13, 64) });
    let v = fs.read_directory(fs.root_directory()).ok().unwrap();
    assert_eq!(v.len(), 1);
    assert_eq!(v[0].name, b"README  MD ".to_vec());
    assert_eq!(v[0].flags, 0x21);
    assert_eq!(v[0].first_cluster, 0x1234);
    assert_eq!(v[0].size, 0xDEAD_BEEF);
    assert_eq!(v[0].full_name(), "README.MD");
}
