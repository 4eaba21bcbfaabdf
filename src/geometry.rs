//! Volume geometry: the BIOS Parameter Block of both variants and the
//! sector / cluster / byte addressing derived from it.

use vstd::prelude::*;
use vstd::slice::slice_to_vec;
use vstd::slice::slice_subrange;
use vstd::arithmetic::div_mod::{lemma_div_is_ordered_by_denominator, lemma_div_basics};
use crate::le::{le16, le32, u16_at, u32_at};
use crate::entry::{field_text, push_chars, string_from_chars, trimmed_len, DirType, Directory};

verus! {

/// Why a volume or one of its directories could not be read.
#[derive(Debug, Clone, Copy, PartialEq, Eq, Structural)]
pub enum FatError {
    /// The boot sector does not describe a volume this decoder accepts.
    InvalidBootSector,
    /// A read fell outside the volume image.
    IoError,
    /// An allocation chain visits more clusters than the volume can hold.
    ChainTooLong,
}

/// Where the root directory lives.
#[derive(Debug, Clone, Copy, PartialEq, Eq, Structural)]
pub enum RootDescriptor {
    /// A fixed region right after the FATs (16-bit variant).
    FixedRegion { start_sector: u32, max_entries: u16 },
    /// An ordinary cluster chain (32-bit variant).
    ClusterChain { first_cluster: u32 },
}

/// Geometry of a volume, read once from its boot sector.
#[derive(Debug)]
pub struct Geometry {
    /// Bytes per sector.
    pub sector_size: u16,
    /// Sectors per cluster.
    pub cluster_size: u8,
    /// Sectors before the first FAT, boot sector included.
    pub reserved_sectors: u16,
    /// Number of FAT copies; only the first is read.
    pub fat_count: u8,
    /// Width of one FAT entry: 16 or 32.
    pub fat_entry_bits: u8,
    /// Sectors in one FAT copy.
    pub fat_size_sectors: u32,
    pub root: RootDescriptor,
    pub total_sectors: u32,
    /// The 11 raw bytes of the volume label, space padded.
    pub label: Vec<u8>,
}

pub const SIG_OLD: u8 = 0x28;
pub const SIG_NEW: u8 = 0x29;

/// Offsets shared by both layouts.
pub const OFF_SECTOR_SIZE: usize = 11;
pub const OFF_CLUSTER_SIZE: usize = 13;
pub const OFF_RESERVED: usize = 14;
pub const OFF_FAT_COUNT: usize = 16;

/// Offsets of the 16-bit layout.
pub const OFF16_ROOT_ENTRIES: usize = 17;
pub const OFF16_SECTOR_COUNT: usize = 19;
pub const OFF16_FAT_SIZE: usize = 22;
pub const OFF16_LARGE_COUNT: usize = 32;
pub const OFF16_SIGNATURE: usize = 38;
pub const OFF16_LABEL: usize = 43;

/// Offsets of the 32-bit layout.
pub const OFF32_SECTOR_COUNT: usize = 32;
pub const OFF32_FAT_SIZE: usize = 36;
pub const OFF32_ROOT_CLUSTER: usize = 44;
pub const OFF32_SIGNATURE: usize = 66;
pub const OFF32_LABEL: usize = 71;

pub const LABEL_LEN: usize = 11;

/// A positive power of two, at least the size of one directory record.
pub open spec fn sector_size_ok(s: u16) -> bool {
    s >= 32 && s & ((s - 1) as u16) == 0
}

pub open spec fn signature_ok(b: u8) -> bool {
    b == SIG_OLD || b == SIG_NEW
}

/// The boot sector fields that make a 16-bit volume acceptable.
pub open spec fn boot16_acceptable(b: Seq<u8>) -> bool {
    &&& signature_ok(b[OFF16_SIGNATURE as int])
    &&& sector_size_ok(le16(b, OFF_SECTOR_SIZE as int) as u16)
    &&& b[OFF_CLUSTER_SIZE as int] >= 1
}

/// The boot sector fields that make a 32-bit volume acceptable.
pub open spec fn boot32_acceptable(b: Seq<u8>) -> bool {
    &&& signature_ok(b[OFF32_SIGNATURE as int])
    &&& sector_size_ok(le16(b, OFF_SECTOR_SIZE as int) as u16)
    &&& b[OFF_CLUSTER_SIZE as int] >= 1
}

/// Fields common to both layouts.
pub open spec fn common_fields(g: Geometry, b: Seq<u8>) -> bool {
    &&& g.sector_size as int == le16(b, OFF_SECTOR_SIZE as int)
    &&& g.cluster_size == b[OFF_CLUSTER_SIZE as int]
    &&& g.reserved_sectors as int == le16(b, OFF_RESERVED as int)
    &&& g.fat_count == b[OFF_FAT_COUNT as int]
}

/// Total sectors of a 16-bit volume: the 16-bit count, or the 32-bit one
/// where the 16-bit count is zero.
pub open spec fn total16(b: Seq<u8>) -> int {
    if le16(b, OFF16_SECTOR_COUNT as int) != 0 {
        le16(b, OFF16_SECTOR_COUNT as int)
    } else {
        le32(b, OFF16_LARGE_COUNT as int)
    }
}

/// `g` is what the 16-bit boot sector `b` describes.
pub open spec fn boot16_fields(g: Geometry, b: Seq<u8>) -> bool {
    &&& common_fields(g, b)
    &&& g.fat_entry_bits == 16
    &&& g.fat_size_sectors as int == le16(b, OFF16_FAT_SIZE as int)
    &&& g.total_sectors as int == total16(b)
    &&& g.root == RootDescriptor::FixedRegion {
        start_sector: (g.reserved_sectors + g.fat_count * g.fat_size_sectors) as u32,
        max_entries: le16(b, OFF16_ROOT_ENTRIES as int) as u16,
    }
    &&& g.label@ == b.subrange(OFF16_LABEL as int, OFF16_LABEL + LABEL_LEN)
}

/// `g` is what the 32-bit boot sector `b` describes.
pub open spec fn boot32_fields(g: Geometry, b: Seq<u8>) -> bool {
    &&& common_fields(g, b)
    &&& g.fat_entry_bits == 32
    &&& g.fat_size_sectors as int == le32(b, OFF32_FAT_SIZE as int)
    &&& g.total_sectors as int == le32(b, OFF32_SECTOR_COUNT as int)
    &&& g.root == RootDescriptor::ClusterChain {
        first_cluster: le32(b, OFF32_ROOT_CLUSTER as int) as u32,
    }
    &&& g.label@ == b.subrange(OFF32_LABEL as int, OFF32_LABEL + LABEL_LEN)
}

fn sector_size_valid(s: u16) -> (r: bool)
    ensures
        r == sector_size_ok(s),
{
    s >= 32 && s & (s - 1) == 0
}

impl Geometry {
    /// The invariant of a geometry: a usable sector and cluster size, an
    /// 11-byte label, and a root descriptor that matches the FAT width.
    pub open spec fn wf(&self) -> bool {
        &&& sector_size_ok(self.sector_size)
        &&& self.cluster_size >= 1
        &&& self.label@.len() == LABEL_LEN
        &&& match self.root {
            RootDescriptor::FixedRegion { start_sector, .. } => {
                &&& self.fat_entry_bits == 16
                &&& start_sector == self.reserved_sectors + self.fat_count
                    * self.fat_size_sectors
            },
            RootDescriptor::ClusterChain { .. } => self.fat_entry_bits == 32,
        }
    }

    pub open spec fn spec_fat_start_sector(&self) -> int {
        self.reserved_sectors as int
    }

    /// Sectors taken by the fixed root region (none in the 32-bit variant).
    pub open spec fn spec_root_sectors(&self) -> int {
        match self.root {
            RootDescriptor::FixedRegion { max_entries, .. } => (max_entries as int * 32) / (
            self.sector_size as int),
            RootDescriptor::ClusterChain { .. } => 0,
        }
    }

    pub open spec fn spec_data_start_sector(&self) -> int {
        self.spec_fat_start_sector() + self.fat_count * self.fat_size_sectors
            + self.spec_root_sectors()
    }

    pub open spec fn spec_cluster_to_sector(&self, cluster: int) -> int {
        self.spec_data_start_sector() + (cluster - 2) * self.cluster_size
    }

    pub open spec fn spec_byte_offset(&self, sector: int) -> int {
        sector * self.sector_size
    }

    /// Directory records that fit in one cluster.
    pub open spec fn spec_entries_per_cluster(&self) -> int {
        (self.cluster_size as int * self.sector_size as int) / 32
    }

    /// Bytes of one FAT entry.
    pub open spec fn spec_fat_entry_width(&self) -> int {
        if self.fat_entry_bits == 16 {
            2
        } else {
            4
        }
    }

    /// The most clusters that a chain on this volume can hold.
    pub open spec fn spec_max_chain(&self) -> int {
        self.total_sectors as int / self.cluster_size as int
    }

    /// Bytes in the volume.
    pub open spec fn spec_volume_size(&self) -> int {
        self.total_sectors as int * self.sector_size as int
    }

    /// The root directory as a listable directory.
    pub open spec fn spec_root_directory(&self) -> Directory {
        match self.root {
            RootDescriptor::FixedRegion { start_sector, max_entries } => Directory {
                inner: DirType::Root(start_sector, max_entries),
            },
            RootDescriptor::ClusterChain { first_cluster } => Directory {
                inner: DirType::Regular(first_cluster),
            },
        }
    }

    /// Bytes in the volume.
    pub fn volume_size(&self) -> (r: u64)
        ensures
            r == self.spec_volume_size(),
    {
        assert(self.total_sectors as int * self.sector_size as int <= 0xffff_ffff * 0xffff)
            by (nonlinear_arith)
            requires
                self.total_sectors <= 0xffff_ffff,
                self.sector_size <= 0xffff,
        ;
        self.total_sectors as u64 * self.sector_size as u64
    }

    /// The volume label without its padding spaces.
    pub fn volume_label(&self) -> (r: String)
        requires
            self.wf(),
        ensures
            r@ == field_text(self.label@),
    {
        let mut v: Vec<char> = Vec::new();
        let n = trimmed_len(&self.label, 0, LABEL_LEN);
        push_chars(&mut v, &self.label, 0, n);
        assert(self.label@.subrange(0, LABEL_LEN as int) =~= self.label@);
        string_from_chars(v)
    }

    /// The root directory as a listable directory.
    pub fn root_directory(&self) -> (r: Directory)
        ensures
            r == self.spec_root_directory(),
    {
        match self.root {
            RootDescriptor::FixedRegion { start_sector, max_entries } => Directory {
                inner: DirType::Root(start_sector, max_entries),
            },
            RootDescriptor::ClusterChain { first_cluster } => Directory {
                inner: DirType::Regular(first_cluster),
            },
        }
    }

    /// The first sector of the first FAT.
    pub fn fat_start_sector(&self) -> (r: u64)
        ensures
            r == self.spec_fat_start_sector(),
    {
        self.reserved_sectors as u64
    }

    /// The first sector after the FATs and the fixed root region.
    pub fn data_start_sector(&self) -> (r: u64)
        requires
            self.wf(),
        ensures
            r == self.spec_data_start_sector(),
            r < 0x100_0000_0000,
    {
        assert(self.fat_count as int * self.fat_size_sectors as int <= 0xff * 0xffff_ffff)
            by (nonlinear_arith)
            requires
                self.fat_count <= 0xff,
                self.fat_size_sectors <= 0xffff_ffff,
        ;
        let fats = self.fat_count as u64 * self.fat_size_sectors as u64;
        let root = match self.root {
            RootDescriptor::FixedRegion { max_entries, .. } => {
                (max_entries as u64 * 32) / self.sector_size as u64
            },
            RootDescriptor::ClusterChain { .. } => 0,
        };
        proof {
            if let RootDescriptor::FixedRegion { max_entries, .. } = self.root {
                lemma_div_is_ordered_by_denominator(max_entries as int * 32, 1, self.sector_size as int);
                lemma_div_basics(max_entries as int * 32);
            }
        }
        self.reserved_sectors as u64 + fats + root
    }

    /// The first sector of a cluster; clusters 0 and 1 have no data.
    pub fn cluster_to_sector(&self, cluster: u32) -> (r: u64)
        requires
            self.wf(),
            cluster >= 2,
        ensures
            r == self.spec_cluster_to_sector(cluster as int),
            r < 0x200_0000_0000,
    {
        let d = self.data_start_sector();
        assert((cluster - 2) as int * self.cluster_size as int <= 0xffff_ffff * 0xff)
            by (nonlinear_arith)
            requires
                0 <= cluster - 2 <= 0xffff_ffff,
                self.cluster_size <= 0xff,
        ;
        let k = (cluster - 2) as u64 * self.cluster_size as u64;
        d + k
    }

    /// The byte offset of a sector.
    pub fn byte_offset(&self, sector: u64) -> (r: u64)
        requires
            sector < 0x200_0000_0000,
        ensures
            r == self.spec_byte_offset(sector as int),
            r < 0x200_0000_0000 * 0x10000,
    {
        assert(sector * self.sector_size < 0x200_0000_0000 * 0x10000) by (nonlinear_arith)
            requires
                sector < 0x200_0000_0000,
                self.sector_size < 0x10000,
        ;
        sector * self.sector_size as u64
    }

    /// Directory records that fit in one cluster.
    pub fn entries_per_cluster(&self) -> (r: u64)
        ensures
            r == self.spec_entries_per_cluster(),
            r <= 0xff * 0xffff,
    {
        assert(self.cluster_size * self.sector_size <= 0xff * 0xffff) by (nonlinear_arith);
        proof {
            let x = self.cluster_size as int * self.sector_size as int;
            lemma_div_is_ordered_by_denominator(x, 1, 32);
            lemma_div_basics(x);
        }
        (self.cluster_size as u64 * self.sector_size as u64) / 32
    }

    /// The most clusters that a chain on this volume can hold.
    pub fn max_chain(&self) -> (r: u32)
        requires
            self.wf(),
        ensures
            r == self.spec_max_chain(),
    {
        self.total_sectors / self.cluster_size as u32
    }
}

/// Cluster 2, the first data cluster, starts where the data region does.
pub proof fn lemma_cluster_two_is_data_start(g: Geometry)
    ensures
        g.spec_cluster_to_sector(2) == g.spec_data_start_sector(),
{
}

/// Decodes the boot sector of a 16-bit volume. The total sector count is
/// the 16-bit field unless it is zero, then the 32-bit one.
pub fn parse_fat16(b: &[u8]) -> (r: Result<Geometry, FatError>)
    ensures
        b@.len() < OFF16_LABEL + LABEL_LEN ==> r == Err::<Geometry, FatError>(FatError::IoError),
        b@.len() >= OFF16_LABEL + LABEL_LEN ==> match r {
            Ok(g) => boot16_acceptable(b@) && boot16_fields(g, b@) && g.wf(),
            Err(e) => !boot16_acceptable(b@) && e == FatError::InvalidBootSector,
        },
{
    if b.len() < OFF16_LABEL + LABEL_LEN {
        return Err(FatError::IoError);
    }
    let sector_size = u16_at(b, OFF_SECTOR_SIZE);
    let cluster_size = b[OFF_CLUSTER_SIZE];
    let reserved_sectors = u16_at(b, OFF_RESERVED);
    let fat_count = b[OFF_FAT_COUNT];
    let root_entries = u16_at(b, OFF16_ROOT_ENTRIES);
    let sector_count = u16_at(b, OFF16_SECTOR_COUNT);
    let fat_size = u16_at(b, OFF16_FAT_SIZE);
    let large_sector_count = u32_at(b, OFF16_LARGE_COUNT);
    let signature = b[OFF16_SIGNATURE];
    if !(signature == SIG_OLD || signature == SIG_NEW) || !sector_size_valid(sector_size)
        || cluster_size < 1 {
        return Err(FatError::InvalidBootSector);
    }
    let label = slice_to_vec(slice_subrange(b, OFF16_LABEL, OFF16_LABEL + LABEL_LEN));
    let total_sectors = if sector_count != 0 {
        sector_count as u32
    } else {
        large_sector_count
    };
    assert(fat_count * fat_size <= 0xff * 0xffff) by (nonlinear_arith);
    let start_sector = reserved_sectors as u32 + fat_count as u32 * fat_size as u32;
    Ok(
        Geometry {
            sector_size,
            cluster_size,
            reserved_sectors,
            fat_count,
            fat_entry_bits: 16,
            fat_size_sectors: fat_size as u32,
            root: RootDescriptor::FixedRegion { start_sector, max_entries: root_entries },
            total_sectors,
            label,
        },
    )
}

/// Decodes the boot sector of a 32-bit volume.
pub fn parse_fat32(b: &[u8]) -> (r: Result<Geometry, FatError>)
    ensures
        b@.len() < OFF32_LABEL + LABEL_LEN ==> r == Err::<Geometry, FatError>(FatError::IoError),
        b@.len() >= OFF32_LABEL + LABEL_LEN ==> match r {
            Ok(g) => boot32_acceptable(b@) && boot32_fields(g, b@) && g.wf(),
            Err(e) => !boot32_acceptable(b@) && e == FatError::InvalidBootSector,
        },
{
    if b.len() < OFF32_LABEL + LABEL_LEN {
        return Err(FatError::IoError);
    }
    let sector_size = u16_at(b, OFF_SECTOR_SIZE);
    let cluster_size = b[OFF_CLUSTER_SIZE];
    let reserved_sectors = u16_at(b, OFF_RESERVED);
    let fat_count = b[OFF_FAT_COUNT];
    let sector_count = u32_at(b, OFF32_SECTOR_COUNT);
    let fat_size = u32_at(b, OFF32_FAT_SIZE);
    let root_cluster = u32_at(b, OFF32_ROOT_CLUSTER);
    let signature = b[OFF32_SIGNATURE];
    if !(signature == SIG_OLD || signature == SIG_NEW) || !sector_size_valid(sector_size)
        || cluster_size < 1 {
        return Err(FatError::InvalidBootSector);
    }
    let label = slice_to_vec(slice_subrange(b, OFF32_LABEL, OFF32_LABEL + LABEL_LEN));
    Ok(
        Geometry {
            sector_size,
            cluster_size,
            reserved_sectors,
            fat_count,
            fat_entry_bits: 32,
            fat_size_sectors: fat_size,
            root: RootDescriptor::ClusterChain { first_cluster: root_cluster },
            total_sectors: sector_count,
            label,
        },
    )
}

} // verus!
