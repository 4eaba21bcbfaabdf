use fatfs_reader::fat32::{DirType, Directory, EntryType, File, FAT32};
use fatfs_reader::geometry::{FatError, RootDescriptor};

const SECTOR: usize = 512;

fn put16(img: &mut [u8], off: usize, v: u16) {
    img[off..off + 2].copy_from_slice(&v.to_le_bytes());
}

fn put32(img: &mut [u8], off: usize, v: u32) {
    img[off..off + 4].copy_from_slice(&v.to_le_bytes());
}

/// 128 sectors of 512 bytes, 1 sector per cluster, 2 reserved sectors,
/// one FAT of 2 sectors; data from sector 4; root at `root`.
fn boot32(root: u32) -> Vec<u8> {
    let mut img = vec![0u8; 128 * SECTOR];
    put16(&mut img, 11, SECTOR as u16);
    img[13] = 1;
    put16(&mut img, 14, 2);
    img[16] = 1;
    put32(&mut img, 32, 128);
    put32(&mut img, 36, 2);
    put32(&mut img, 44, root);
    img[66] = 0x29;
    img[71..82].copy_from_slice(b"FAT32VOL   ");
    img
}

fn record(img: &mut [u8], off: usize, name: &[u8; 11], flags: u8, cluster: u32, size: u32) {
    img[off..off + 11].copy_from_slice(name);
    img[off + 11] = flags;
    put16(img, off + 20, (cluster >> 16) as u16);
    put16(img, off + 26, cluster as u16);
    put32(img, off + 28, size);
}

fn fat32_set(img: &mut [u8], cluster: usize, v: u32) {
    put32(img, 2 * SECTOR + 4 * cluster, v);
}

fn cluster_off(cluster: usize) -> usize {
    (4 + cluster - 2) * SECTOR
}

#[test]
fn fat32_header_fields() {
    let fs = FAT32::new(boot32(2)).ok().unwrap();
    assert_eq!(fs.sector_count(), 128);
    assert_eq!(fs.volume_size(), 128 * 512);
    assert_eq!(fs.volume_name(), "FAT32VOL");
    assert_eq!(fs.root_directory(), Directory { inner: DirType::Regular(2) });
    let g = fs.geometry_ref();
    assert_eq!(g.fat_entry_bits, 32);
    assert_eq!(g.data_start_sector(), 4);
    assert_eq!(g.cluster_to_sector(2), g.data_start_sector());
    assert!(matches!(g.root, RootDescriptor::ClusterChain { first_cluster: 2 }));
}

#[test]
fn fat32_root_chain_and_high_cluster_bits() {
    let mut img = boot32(2);
    fat32_set(&mut img, 2, 3);
    // reserved high bits set on the end marker must be ignored
    fat32_set(&mut img, 3, 0xFFFF_FFFF);
    for i in 0..16 {
        record(&mut img, cluster_off(2) + 32 * i, b"A       BIN", 0x20, 0x0001_0002, i as u32);
    }
    record(&mut img, cluster_off(3), b"DOCS       ", 0x10, 0x0003_0004, 0);
    let fs = FAT32::new(img).ok().unwrap();
    let v = fs.read_directory(fs.root_directory()).ok().unwrap();
    assert_eq!(v.len(), 17);
    assert_eq!(v[0].entry_type(), EntryType::File(File { cluster: 0x0001_0002, size: 0 }));
    assert_eq!(v[16].full_name(), "DOCS");
    assert_eq!(
        v[16].entry_type(),
        EntryType::Dir(Directory { inner: DirType::Regular(0x0003_0004) })
    );
}

#[test]
fn fat32_masked_next_cluster() {
    let mut img = boot32(5);
    fat32_set(&mut img, 5, 0xF000_0008);
    fat32_set(&mut img, 8, 0x0FFF_FFF8);
    for i in 0..16 {
        record(&mut img, cluster_off(5) + 32 * i, b"FIRST   TXT", 0, 0, 1);
    }
    record(&mut img, cluster_off(8), b"SECOND  TXT", 0, 0, 2);
    let fs = FAT32::new(img).ok().unwrap();
    let v = fs.read_directory(fs.root_directory()).ok().unwrap();
    assert_eq!(v.len(), 17);
    assert_eq!(v[16].full_name(), "SECOND.TXT");
}

#[test]
fn fat32_free_first_cluster_lists_nothing() {
    let mut img = boot32(2);
    record(&mut img, cluster_off(2), b"GHOST   TXT", 0, 0, 1);
    let fs = FAT32::new(img).ok().unwrap();
    let v = fs.read_directory(fs.root_directory()).ok().unwrap();
    assert_eq!(v.len(), 0);
}

#[test]
fn fat32_bad_signature() {
    let mut img = boot32(2);
    img[66] = 0x12;
    assert_eq!(FAT32::new(img).err(), Some(FatError::InvalidBootSector));
}

#[test]
fn fat32_short_image() {
    assert_eq!(FAT32::new(vec![0u8; 70]).err(), Some(FatError::IoError));
}
