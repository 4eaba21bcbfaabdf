//! How field values are laid out on disk, and proofs that decoding a laid
//! out boot sector or record gives those values back.

use vstd::prelude::*;
use crate::le::{le16, le32};
use crate::geometry::{
    boot16_acceptable, boot16_fields, boot32_acceptable, boot32_fields, signature_ok, Geometry,
    RootDescriptor, LABEL_LEN, OFF16_FAT_SIZE, OFF16_LABEL, OFF16_LARGE_COUNT, OFF16_ROOT_ENTRIES,
    OFF16_SECTOR_COUNT, OFF16_SIGNATURE, OFF32_FAT_SIZE, OFF32_LABEL, OFF32_ROOT_CLUSTER,
    OFF32_SECTOR_COUNT, OFF32_SIGNATURE, OFF_CLUSTER_SIZE, OFF_FAT_COUNT, OFF_RESERVED,
    OFF_SECTOR_SIZE,
};
use crate::entry::{field_text, DirectoryEntry, FULL_NAME_LEN};
use crate::reader::{entry_matches, REC_CLUSTER_HI, REC_CLUSTER_LO, REC_FLAGS, REC_SIZE};

verus! {

/// `b` holds `v` as a 16-bit little-endian value at `i`.
pub open spec fn holds_u16(b: Seq<u8>, i: int, v: int) -> bool {
    &&& 0 <= v < 0x10000
    &&& b[i] as int == v % 256
    &&& b[i + 1] as int == v / 256
}

/// `b` holds `v` as a 32-bit little-endian value at `i`.
pub open spec fn holds_u32(b: Seq<u8>, i: int, v: int) -> bool {
    &&& 0 <= v < 0x1_0000_0000
    &&& holds_u16(b, i, v % 0x10000)
    &&& holds_u16(b, i + 2, v / 0x10000)
}

pub proof fn lemma_read_u16(b: Seq<u8>, i: int, v: int)
    requires
        holds_u16(b, i, v),
    ensures
        le16(b, i) == v,
{
}

pub proof fn lemma_read_u32(b: Seq<u8>, i: int, v: int)
    requires
        holds_u32(b, i, v),
    ensures
        le32(b, i) == v,
{
    lemma_read_u16(b, i, v % 0x10000);
    lemma_read_u16(b, i + 2, v / 0x10000);
}

/// Every field of `h` equals that of `g`.
pub open spec fn same_geometry(h: Geometry, g: Geometry) -> bool {
    &&& h.sector_size == g.sector_size
    &&& h.cluster_size == g.cluster_size
    &&& h.reserved_sectors == g.reserved_sectors
    &&& h.fat_count == g.fat_count
    &&& h.fat_entry_bits == g.fat_entry_bits
    &&& h.fat_size_sectors == g.fat_size_sectors
    &&& h.root == g.root
    &&& h.total_sectors == g.total_sectors
    &&& h.label@ == g.label@
}

/// The 16-bit boot sector `b` lays out `g`: a non-zero total that fits
/// goes to the 16-bit count, any other to the 32-bit one with the 16-bit
/// count zero.
pub open spec fn lays_out_fat16(b: Seq<u8>, g: Geometry) -> bool {
    &&& b.len() >= OFF16_LABEL + LABEL_LEN
    &&& holds_u16(b, OFF_SECTOR_SIZE as int, g.sector_size as int)
    &&& b[OFF_CLUSTER_SIZE as int] == g.cluster_size
    &&& holds_u16(b, OFF_RESERVED as int, g.reserved_sectors as int)
    &&& b[OFF_FAT_COUNT as int] == g.fat_count
    &&& match g.root {
        RootDescriptor::FixedRegion { max_entries, .. } => holds_u16(
            b,
            OFF16_ROOT_ENTRIES as int,
            max_entries as int,
        ),
        RootDescriptor::ClusterChain { .. } => false,
    }
    &&& if 0 < g.total_sectors < 0x10000 {
        holds_u16(b, OFF16_SECTOR_COUNT as int, g.total_sectors as int)
    } else {
        holds_u16(b, OFF16_SECTOR_COUNT as int, 0) && holds_u32(
            b,
            OFF16_LARGE_COUNT as int,
            g.total_sectors as int,
        )
    }
    &&& holds_u16(b, OFF16_FAT_SIZE as int, g.fat_size_sectors as int)
    &&& signature_ok(b[OFF16_SIGNATURE as int])
    &&& b.subrange(OFF16_LABEL as int, OFF16_LABEL + LABEL_LEN) == g.label@
}

/// The 32-bit boot sector `b` lays out `g`.
pub open spec fn lays_out_fat32(b: Seq<u8>, g: Geometry) -> bool {
    &&& b.len() >= OFF32_LABEL + LABEL_LEN
    &&& holds_u16(b, OFF_SECTOR_SIZE as int, g.sector_size as int)
    &&& b[OFF_CLUSTER_SIZE as int] == g.cluster_size
    &&& holds_u16(b, OFF_RESERVED as int, g.reserved_sectors as int)
    &&& b[OFF_FAT_COUNT as int] == g.fat_count
    &&& holds_u32(b, OFF32_SECTOR_COUNT as int, g.total_sectors as int)
    &&& holds_u32(b, OFF32_FAT_SIZE as int, g.fat_size_sectors as int)
    &&& match g.root {
        RootDescriptor::ClusterChain { first_cluster } => holds_u32(
            b,
            OFF32_ROOT_CLUSTER as int,
            first_cluster as int,
        ),
        RootDescriptor::FixedRegion { .. } => false,
    }
    &&& signature_ok(b[OFF32_SIGNATURE as int])
    &&& b.subrange(OFF32_LABEL as int, OFF32_LABEL + LABEL_LEN) == g.label@
}

/// Decoding a 16-bit boot sector that lays out a valid geometry accepts it
/// and gives back every field, the label and its trimmed text included.
pub proof fn lemma_fat16_round_trip(b: Seq<u8>, g: Geometry, h: Geometry)
    requires
        g.wf(),
        g.fat_size_sectors < 0x10000,
        lays_out_fat16(b, g),
        boot16_fields(h, b),
    ensures
        boot16_acceptable(b),
        same_geometry(h, g),
        field_text(h.label@) == field_text(g.label@),
{
    lemma_read_u16(b, OFF_SECTOR_SIZE as int, g.sector_size as int);
    lemma_read_u16(b, OFF_RESERVED as int, g.reserved_sectors as int);
    lemma_read_u16(b, OFF16_FAT_SIZE as int, g.fat_size_sectors as int);
    if let RootDescriptor::FixedRegion { max_entries, .. } = g.root {
        lemma_read_u16(b, OFF16_ROOT_ENTRIES as int, max_entries as int);
    }
    if 0 < g.total_sectors < 0x10000 {
        lemma_read_u16(b, OFF16_SECTOR_COUNT as int, g.total_sectors as int);
    } else {
        lemma_read_u16(b, OFF16_SECTOR_COUNT as int, 0);
        lemma_read_u32(b, OFF16_LARGE_COUNT as int, g.total_sectors as int);
    }
}

/// Decoding a 32-bit boot sector that lays out a valid geometry accepts it
/// and gives back every field, the label and its trimmed text included.
pub proof fn lemma_fat32_round_trip(b: Seq<u8>, g: Geometry, h: Geometry)
    requires
        g.wf(),
        lays_out_fat32(b, g),
        boot32_fields(h, b),
    ensures
        boot32_acceptable(b),
        same_geometry(h, g),
        field_text(h.label@) == field_text(g.label@),
{
    lemma_read_u16(b, OFF_SECTOR_SIZE as int, g.sector_size as int);
    lemma_read_u16(b, OFF_RESERVED as int, g.reserved_sectors as int);
    lemma_read_u32(b, OFF32_SECTOR_COUNT as int, g.total_sectors as int);
    lemma_read_u32(b, OFF32_FAT_SIZE as int, g.fat_size_sectors as int);
    if let RootDescriptor::ClusterChain { first_cluster } = g.root {
        lemma_read_u32(b, OFF32_ROOT_CLUSTER as int, first_cluster as int);
    }
}

/// The record at `off` of `img` lays out a name, flags, first cluster and
/// size; the 32-bit variant splits the cluster into a high and a low half.
pub open spec fn lays_out_record(
    img: Seq<u8>,
    off: int,
    wide: bool,
    name: Seq<u8>,
    flags: u8,
    cluster: u32,
    size: u32,
) -> bool {
    &&& 0 <= off
    &&& off + 32 <= img.len()
    &&& name.len() == FULL_NAME_LEN
    &&& img.subrange(off, off + FULL_NAME_LEN) == name
    &&& img[off + REC_FLAGS] == flags
    &&& if wide {
        holds_u16(img, off + REC_CLUSTER_HI, cluster as int / 0x10000) && holds_u16(
            img,
            off + REC_CLUSTER_LO,
            cluster as int % 0x10000,
        )
    } else {
        cluster < 0x10000 && holds_u16(img, off + REC_CLUSTER_LO, cluster as int)
    }
    &&& holds_u32(img, off + REC_SIZE, size as int)
}

/// Decoding a laid out record gives back its name, flags, first cluster
/// and size.
pub proof fn lemma_record_round_trip(
    img: Seq<u8>,
    g: Geometry,
    off: int,
    name: Seq<u8>,
    flags: u8,
    cluster: u32,
    size: u32,
    e: DirectoryEntry,
)
    requires
        g.fat_entry_bits == 16 || g.fat_entry_bits == 32,
        lays_out_record(img, off, g.fat_entry_bits == 32, name, flags, cluster, size),
        entry_matches(e, img, g, off),
    ensures
        e.name@ == name,
        e.flags == flags,
        e.first_cluster == cluster,
        e.size == size,
{
    lemma_read_u32(img, off + REC_SIZE, size as int);
    if g.fat_entry_bits == 32 {
        lemma_read_u16(img, off + REC_CLUSTER_HI, cluster as int / 0x10000);
        lemma_read_u16(img, off + REC_CLUSTER_LO, cluster as int % 0x10000);
    } else {
        lemma_read_u16(img, off + REC_CLUSTER_LO, cluster as int);
    }
}

} // verus!
