//! Directory listing: the fixed root region and cluster chains, walked
//! through the first FAT.

use vstd::prelude::*;
use vstd::slice::slice_to_vec;
use vstd::slice::slice_subrange;
use crate::le::{le16, le32, u16_at, u32_at};
use crate::geometry::{FatError, Geometry};
use crate::entry::{DirType, Directory, DirectoryEntry, FULL_NAME_LEN};

verus! {

/// Bytes of one directory record.
pub const RECORD_LEN: u64 = 32;
/// First name byte that ends a directory.
pub const END_OF_DIRECTORY: u8 = 0;
/// Attribute value of a long-filename record.
pub const ATTR_LONG_NAME: u8 = 0x0F;

pub const REC_FLAGS: usize = 11;
pub const REC_CLUSTER_HI: usize = 20;
pub const REC_CLUSTER_LO: usize = 26;
pub const REC_SIZE: usize = 28;

/// Mask of the 28 meaningful bits of a 32-bit FAT entry.
pub const FAT32_MASK: u32 = 0x0FFF_FFFF;
pub const END16: u32 = 0xFFF0;
pub const END32: u32 = 0x0FFF_FFF0;

/// The first cluster a record at `off` names: the low half alone in the
/// 16-bit variant, both halves in the 32-bit one.
pub open spec fn record_cluster(img: Seq<u8>, g: Geometry, off: int) -> int {
    if g.fat_entry_bits == 16 {
        le16(img, off + REC_CLUSTER_LO)
    } else {
        le16(img, off + REC_CLUSTER_HI) * 0x10000 + le16(img, off + REC_CLUSTER_LO)
    }
}

/// `e` is the record stored at `off`.
pub open spec fn entry_matches(e: DirectoryEntry, img: Seq<u8>, g: Geometry, off: int) -> bool {
    &&& e.name@ == img.subrange(off, off + FULL_NAME_LEN)
    &&& e.flags == img[off + REC_FLAGS]
    &&& e.first_cluster == record_cluster(img, g, off)
    &&& e.size == le32(img, off + REC_SIZE)
}

/// `v` holds, in order, the records stored at the offsets `offs`.
pub open spec fn listing_matches(
    v: Seq<DirectoryEntry>,
    img: Seq<u8>,
    g: Geometry,
    offs: Seq<int>,
) -> bool {
    &&& v.len() == offs.len()
    &&& forall|i: int| 0 <= i < v.len() ==> #[trigger] entry_matches(v[i], img, g, offs[i])
}

/// Scans at most `n` records from `off`. The offsets of the records that
/// are kept (long-filename ones are skipped), and whether an end marker was
/// met; `None` where a record before the end lies past the image.
pub open spec fn region_slots(img: Seq<u8>, off: int, n: nat) -> Option<(Seq<int>, bool)>
    decreases n,
{
    if n == 0 {
        Some((Seq::empty(), false))
    } else if off + RECORD_LEN > img.len() {
        None
    } else if img[off] == END_OF_DIRECTORY {
        Some((Seq::empty(), true))
    } else {
        match region_slots(img, off + RECORD_LEN, (n - 1) as nat) {
            None => None,
            Some((s, t)) => Some(
                (if img[off + REC_FLAGS] == ATTR_LONG_NAME {
                    s
                } else {
                    seq![off] + s
                }, t),
            ),
        }
    }
}

/// The entry for `cluster` in the first FAT, its reserved bits cleared;
/// `None` where it lies past the image.
pub open spec fn fat_entry(img: Seq<u8>, g: Geometry, cluster: int) -> Option<int> {
    let off = g.spec_byte_offset(g.spec_fat_start_sector()) + cluster
        * g.spec_fat_entry_width();
    if off + g.spec_fat_entry_width() > img.len() {
        None
    } else if g.fat_entry_bits == 16 {
        Some(le16(img, off))
    } else {
        Some(le32(img, off) % 0x1000_0000)
    }
}

/// A FAT value that ends a chain.
pub open spec fn is_end_marker(g: Geometry, v: int) -> bool {
    if g.fat_entry_bits == 16 {
        v >= END16
    } else {
        v >= END32
    }
}

/// A FAT value that names no further cluster: free, reserved or an end.
pub open spec fn stops_chain(g: Geometry, v: int) -> bool {
    v < 2 || is_end_marker(g, v)
}

/// The records of the chain from `cluster`, visiting at most `budget`
/// clusters.
pub open spec fn chain_slots(img: Seq<u8>, g: Geometry, cluster: int, budget: nat) -> Result<
    Seq<int>,
    FatError,
>
    decreases budget,
{
    if budget == 0 {
        Err(FatError::ChainTooLong)
    } else {
        match region_slots(
            img,
            g.spec_byte_offset(g.spec_cluster_to_sector(cluster)),
            g.spec_entries_per_cluster() as nat,
        ) {
            None => Err(FatError::IoError),
            Some((s, true)) => Ok(s),
            Some((s, false)) => match fat_entry(img, g, cluster) {
                None => Err(FatError::IoError),
                Some(next) => if stops_chain(g, next) {
                    Ok(s)
                } else {
                    match chain_slots(img, g, next, (budget - 1) as nat) {
                        Ok(t) => Ok(s + t),
                        Err(e) => Err(e),
                    }
                },
            },
        }
    }
}

/// The offsets of the records that listing `d` yields. A chain whose first
/// cluster is reserved, or marked free in the FAT, is empty.
pub open spec fn directory_slots(img: Seq<u8>, g: Geometry, d: DirType) -> Result<
    Seq<int>,
    FatError,
> {
    match d {
        DirType::Root(start, count) => match region_slots(
            img,
            g.spec_byte_offset(start as int),
            count as nat,
        ) {
            None => Err(FatError::IoError),
            Some((s, _)) => Ok(s),
        },
        DirType::Regular(c) => if c < 2 {
            Ok(Seq::empty())
        } else {
            match fat_entry(img, g, c as int) {
                None => Err(FatError::IoError),
                Some(v) => if v < 2 {
                    Ok(Seq::empty())
                } else {
                    chain_slots(img, g, c as int, g.spec_max_chain() as nat)
                },
            }
        },
    }
}

/// Decodes the record at `p`.
fn decode_entry(img: &[u8], g: &Geometry, p: usize) -> (e: DirectoryEntry)
    requires
        p + RECORD_LEN <= img@.len(),
    ensures
        entry_matches(e, img@, *g, p as int),
        e.wf(),
{
    let _n = img.len();
    let name = slice_to_vec(slice_subrange(img, p, p + FULL_NAME_LEN));
    let flags = img[p + REC_FLAGS];
    let lo = u16_at(img, p + REC_CLUSTER_LO);
    let first_cluster = if g.fat_entry_bits == 16 {
        lo as u32
    } else {
        let hi = u16_at(img, p + REC_CLUSTER_HI);
        assert(hi as int * 0x10000 + lo as int <= 0xffff_ffff) by (nonlinear_arith)
            requires
                hi <= 0xffff,
                lo <= 0xffff,
        ;
        hi as u32 * 0x10000 + lo as u32
    };
    let size = u32_at(img, p + REC_SIZE);
    DirectoryEntry { name, flags, first_cluster, size }
}

/// Looks up the FAT entry of `cluster` in the first FAT.
pub fn fat_lookup(img: &[u8], g: &Geometry, cluster: u32) -> (r: Result<u32, FatError>)
    requires
        g.wf(),
    ensures
        match fat_entry(img@, *g, cluster as int) {
            None => r == Err::<u32, FatError>(FatError::IoError),
            Some(v) => r == Ok::<u32, FatError>(v as u32),
        },
{
    let base = g.byte_offset(g.fat_start_sector());
    let len = img.len() as u64;
    if g.fat_entry_bits == 16 {
        let off = base + cluster as u64 * 2;
        if off + 2 > len {
            return Err(FatError::IoError);
        }
        Ok(u16_at(img, off as usize) as u32)
    } else {
        let off = base + cluster as u64 * 4;
        if off + 4 > len {
            return Err(FatError::IoError);
        }
        let v = u32_at(img, off as usize);
        assert(v & FAT32_MASK == v % 0x1000_0000) by (bit_vector);
        Ok(v & FAT32_MASK)
    }
}

/// The concatenation of `got` in front of what `r` collects.
pub open spec fn after_region(got: Seq<int>, r: Option<(Seq<int>, bool)>) -> Option<(Seq<int>, bool)> {
    match r {
        None => None,
        Some((s, t)) => Some((got + s, t)),
    }
}

/// Appends the records of at most `n` slots from `off`; returns whether an
/// end marker was met.
fn read_region(
    img: &[u8],
    g: &Geometry,
    off: u64,
    n: u64,
    entries: &mut Vec<DirectoryEntry>,
    Ghost(acc): Ghost<Seq<int>>,
) -> (r: Result<bool, FatError>)
    requires
        off < 0x0400_0000_0000_0000,
        n <= 0xffff_ffff,
        listing_matches(old(entries)@, img@, *g, acc),
        forall|i: int| 0 <= i < old(entries)@.len() ==> (#[trigger] old(entries)@[i]).wf(),
    ensures
        match region_slots(img@, off as int, n as nat) {
            None => r == Err::<bool, FatError>(FatError::IoError),
            Some((s, t)) => {
                &&& r == Ok::<bool, FatError>(t)
                &&& listing_matches(final(entries)@, img@, *g, acc + s)
                &&& forall|i: int|
                    0 <= i < final(entries)@.len() ==> (#[trigger] final(entries)@[i]).wf()
            },
        },
{
    let len = img.len() as u64;
    let mut i: u64 = 0;
    let mut pos: u64 = off;
    let ghost mut got: Seq<int> = Seq::empty();
    while i < n
        invariant
            i <= n <= 0xffff_ffff,
            off < 0x0400_0000_0000_0000,
            pos == off + RECORD_LEN * i,
            len == img@.len(),
            listing_matches(entries@, img@, *g, acc + got),
            forall|k: int| 0 <= k < entries@.len() ==> (#[trigger] entries@[k]).wf(),
            region_slots(img@, off as int, n as nat) == after_region(
                got,
                region_slots(img@, pos as int, (n - i) as nat),
            ),
        decreases n - i,
    {
        if pos + RECORD_LEN > len {
            return Err(FatError::IoError);
        }
        let p = pos as usize;
        if img[p] == END_OF_DIRECTORY {
            assert(got + Seq::<int>::empty() =~= got);
            return Ok(true);
        }
        let ghost rest = region_slots(img@, pos + RECORD_LEN, (n - i - 1) as nat);
        if img[p + REC_FLAGS] != ATTR_LONG_NAME {
            let e = decode_entry(img, g, p);
            entries.push(e);
            proof {
                let old_got = got;
                got = got.push(pos as int);
                assert((acc + old_got).push(pos as int) =~= acc + got);
                if let Some((s, t)) = rest {
                    assert(old_got + (seq![pos as int] + s) =~= got + s);
                }
            }
        }
        pos = pos + RECORD_LEN;
        i = i + 1;
    }
    assert(got + Seq::<int>::empty() =~= got);
    Ok(false)
}

/// A chain whose first cluster is a data cluster marked free or reserved in
/// the FAT.
pub open spec fn first_cluster_free(img: Seq<u8>, g: Geometry, d: DirType) -> bool {
    match d {
        DirType::Regular(c) => c >= 2 && match fat_entry(img, g, c as int) {
            Some(v) => v < 2,
            None => false,
        },
        DirType::Root(..) => false,
    }
}

/// The offsets that a region scan keeps.
pub open spec fn kept(r: Option<(Seq<int>, bool)>) -> Seq<int> {
    match r {
        Some((s, _)) => s,
        None => Seq::empty(),
    }
}

/// The concatenation of `got` in front of what `r` lists.
pub open spec fn after_chain(got: Seq<int>, r: Result<Seq<int>, FatError>) -> Result<
    Seq<int>,
    FatError,
> {
    match r {
        Ok(t) => Ok(got + t),
        Err(e) => Err(e),
    }
}

/// No record that a region scan keeps is a long-filename record.
pub proof fn lemma_region_skips_long_names(img: Seq<u8>, off: int, n: nat)
    ensures
        region_slots(img, off, n) matches Some((s, _)) ==> forall|i: int|
            0 <= i < s.len() ==> img[#[trigger] s[i] + REC_FLAGS] != ATTR_LONG_NAME,
    decreases n,
{
    if n > 0 && off + RECORD_LEN <= img.len() && img[off] != END_OF_DIRECTORY {
        lemma_region_skips_long_names(img, off + RECORD_LEN, (n - 1) as nat);
        if let Some((s, t)) = region_slots(img, off + RECORD_LEN, (n - 1) as nat) {
            if img[off + REC_FLAGS] != ATTR_LONG_NAME {
                let s2 = seq![off] + s;
                assert forall|i: int| 0 <= i < s2.len() implies img[#[trigger] s2[i] + REC_FLAGS]
                    != ATTR_LONG_NAME by {
                    if i > 0 {
                        assert(s2[i] == s[i - 1]);
                    }
                }
            }
        }
    }
}

/// No record of a chain listing is a long-filename record.
pub proof fn lemma_chain_skips_long_names(img: Seq<u8>, g: Geometry, cluster: int, budget: nat)
    ensures
        chain_slots(img, g, cluster, budget) matches Ok(s) ==> forall|i: int|
            0 <= i < s.len() ==> img[#[trigger] s[i] + REC_FLAGS] != ATTR_LONG_NAME,
    decreases budget,
{
    if budget > 0 {
        let off = g.spec_byte_offset(g.spec_cluster_to_sector(cluster));
        let n = g.spec_entries_per_cluster() as nat;
        lemma_region_skips_long_names(img, off, n);
        if let Some((s, false)) = region_slots(img, off, n) {
            if let Some(next) = fat_entry(img, g, cluster) {
                if !stops_chain(g, next) {
                    lemma_chain_skips_long_names(img, g, next, (budget - 1) as nat);
                    if let Ok(t) = chain_slots(img, g, next, (budget - 1) as nat) {
                        let st = s + t;
                        assert forall|i: int| 0 <= i < st.len() implies img[#[trigger] st[i]
                            + REC_FLAGS] != ATTR_LONG_NAME by {
                            if i >= s.len() {
                                assert(st[i] == t[i - s.len()]);
                            } else {
                                assert(st[i] == s[i]);
                            }
                        }
                    }
                }
            }
        }
    }
}

/// No record of any directory listing is a long-filename record.
pub proof fn lemma_listing_skips_long_names(img: Seq<u8>, g: Geometry, d: DirType)
    ensures
        directory_slots(img, g, d) matches Ok(s) ==> forall|i: int|
            0 <= i < s.len() ==> img[#[trigger] s[i] + REC_FLAGS] != ATTR_LONG_NAME,
{
    match d {
        DirType::Root(start, count) => {
            lemma_region_skips_long_names(img, g.spec_byte_offset(start as int), count as nat);
        },
        DirType::Regular(c) => {
            lemma_chain_skips_long_names(img, g, c as int, g.spec_max_chain() as nat);
        },
    }
}

/// Lists a directory: its records in on-disk order, long-filename records
/// left out, up to the first end marker or the end of its region or chain.
/// A chain whose first cluster is reserved or free in the FAT lists nothing.
pub fn read_directory(img: &[u8], g: &Geometry, dir: Directory) -> (r: Result<
    Vec<DirectoryEntry>,
    FatError,
>)
    requires
        g.wf(),
    ensures
        match directory_slots(img@, *g, dir.inner) {
            Err(e) => r == Err::<Vec<DirectoryEntry>, FatError>(e),
            Ok(s) => r matches Ok(v) && listing_matches(v@, img@, *g, s),
        },
        r matches Ok(v) ==> forall|i: int|
            0 <= i < v@.len() ==> (#[trigger] v@[i]).wf() && v@[i].flags != ATTR_LONG_NAME,
        first_cluster_free(img@, *g, dir.inner) ==> r is Ok && r->Ok_0@.len() == 0,
{
    let r = list_records(img, g, dir);
    proof {
        lemma_listing_skips_long_names(img@, *g, dir.inner);
        if r is Ok {
            let v = r->Ok_0;
            let s = directory_slots(img@, *g, dir.inner)->Ok_0;
            assert forall|i: int| 0 <= i < v@.len() implies v@[i].flags != ATTR_LONG_NAME by {
                assert(entry_matches(v@[i], img@, *g, s[i]));
            }
        }
    }
    r
}

/// Whether the FAT value `v` names no further cluster.
fn ends_chain(g: &Geometry, v: u32) -> (r: bool)
    ensures
        r == stops_chain(*g, v as int),
{
    v < 2 || (g.fat_entry_bits == 16 && v >= END16) || (g.fat_entry_bits != 16 && v >= END32)
}

/// The records that listing `dir` yields, each decoded from its offset.
fn list_records(img: &[u8], g: &Geometry, dir: Directory) -> (r: Result<
    Vec<DirectoryEntry>,
    FatError,
>)
    requires
        g.wf(),
    ensures
        match directory_slots(img@, *g, dir.inner) {
            Err(e) => r == Err::<Vec<DirectoryEntry>, FatError>(e),
            Ok(s) => r matches Ok(v) && listing_matches(v@, img@, *g, s),
        },
        r matches Ok(v) ==> forall|i: int| 0 <= i < v@.len() ==> (#[trigger] v@[i]).wf(),
{
    let mut entries: Vec<DirectoryEntry> = Vec::new();
    match dir.inner {
        DirType::Root(start, count) => {
            let off = g.byte_offset(start as u64);
            read_region(img, g, off, count as u64, &mut entries, Ghost(Seq::empty()))?;
            Ok(entries)
        },
        DirType::Regular(first) => {
            if first < 2 {
                return Ok(entries);
            }
            let v = fat_lookup(img, g, first)?;
            if v < 2 {
                return Ok(entries);
            }
            let per_cluster = g.entries_per_cluster();
            let mut cluster: u32 = first;
            let mut budget: u32 = g.max_chain();
            let ghost mut got: Seq<int> = Seq::empty();
            loop
                invariant
                    g.wf(),
                    cluster >= 2,
                    per_cluster == g.spec_entries_per_cluster(),
                    per_cluster <= 0xff * 0xffff,
                    listing_matches(entries@, img@, *g, got),
                    forall|k: int| 0 <= k < entries@.len() ==> (#[trigger] entries@[k]).wf(),
                    directory_slots(img@, *g, dir.inner) == chain_slots(
                        img@,
                        *g,
                        first as int,
                        g.spec_max_chain() as nat,
                    ),
                    chain_slots(img@, *g, first as int, g.spec_max_chain() as nat) == after_chain(
                        got,
                        chain_slots(img@, *g, cluster as int, budget as nat),
                    ),
                decreases budget,
            {
                if budget == 0 {
                    return Err(FatError::ChainTooLong);
                }
                let off = g.byte_offset(g.cluster_to_sector(cluster));
                let ghost region = region_slots(img@, off as int, per_cluster as nat);
                let ended = read_region(img, g, off, per_cluster, &mut entries, Ghost(got))?;
                let ghost s = kept(region);
                if ended {
                    return Ok(entries);
                }
                let next = fat_lookup(img, g, cluster)?;
                if ends_chain(g, next) {
                    return Ok(entries);
                }
                proof {
                    let rest = chain_slots(img@, *g, next as int, (budget - 1) as nat);
                    if let Ok(t) = rest {
                        assert(got + (s + t) =~= (got + s) + t);
                    }
                    got = got + s;
                }
                cluster = next;
                budget = budget - 1;
            }
        },
    }
}

} // verus!
