//! A FAT32 volume: root directory in a cluster chain, 32-bit FAT entries.

use vstd::prelude::*;
use crate::geometry::{boot32_acceptable, boot32_fields, parse_fat32, FatError, Geometry, LABEL_LEN, OFF32_LABEL};
use crate::entry::field_text;
use crate::reader::{directory_slots, first_cluster_free, listing_matches, ATTR_LONG_NAME};
pub use crate::entry::{DirType, Directory, DirectoryEntry, EntryType, File};

verus! {

/// An open FAT32 volume image.
pub struct FAT32 {
    image: Vec<u8>,
    br: Geometry,
}

impl FAT32 {
    /// The bytes of the volume image.
    pub closed spec fn image(&self) -> Seq<u8> {
        self.image@
    }

    /// The geometry read from the boot sector.
    pub closed spec fn geometry(&self) -> Geometry {
        self.br
    }

    pub closed spec fn wf(&self) -> bool {
        &&& self.br.wf()
        &&& boot32_fields(self.br, self.image@)
    }

    /// Opens a volume image: `IoError` where it is too short to hold a boot
    /// sector, `InvalidBootSector` where the boot sector is not acceptable.
    pub fn new(image: Vec<u8>) -> (r: Result<FAT32, FatError>)
        ensures
            image@.len() < OFF32_LABEL + LABEL_LEN ==> r is Err && r->Err_0 == FatError::IoError,
            image@.len() >= OFF32_LABEL + LABEL_LEN ==> (r is Ok <==> boot32_acceptable(image@)),
            image@.len() >= OFF32_LABEL + LABEL_LEN && !boot32_acceptable(image@) ==> r is Err
                && r->Err_0 == FatError::InvalidBootSector,
            r matches Ok(fs) ==> fs.wf() && fs.image() == image@ && boot32_fields(
                fs.geometry(),
                image@,
            ),
    {
        let br = parse_fat32(image.as_slice())?;
        Ok(FAT32 { image, br })
    }

    /// Total sectors of the volume.
    pub fn sector_count(&self) -> (r: u32)
        ensures
            r == self.geometry().total_sectors,
    {
        self.br.total_sectors
    }

    /// Bytes in the volume.
    pub fn volume_size(&self) -> (r: u64)
        ensures
            r == self.geometry().spec_volume_size(),
    {
        self.br.volume_size()
    }

    /// The volume label without its padding spaces.
    pub fn volume_name(&self) -> (r: String)
        requires
            self.wf(),
        ensures
            r@ == field_text(self.geometry().label@),
    {
        self.br.volume_label()
    }

    /// The root directory, at the cluster the boot sector names.
    pub fn root_directory(&self) -> (r: Directory)
        ensures
            r == self.geometry().spec_root_directory(),
    {
        self.br.root_directory()
    }

    /// The geometry read from the boot sector.
    pub fn geometry_ref(&self) -> (r: &Geometry)
        ensures
            *r == self.geometry(),
    {
        &self.br
    }

    /// Lists a directory of this volume in on-disk order, leaving out
    /// long-filename records.
    pub fn read_directory(&self, dir: Directory) -> (r: Result<Vec<DirectoryEntry>, FatError>)
        requires
            self.wf(),
        ensures
            match directory_slots(self.image(), self.geometry(), dir.inner) {
                Err(e) => r is Err && r->Err_0 == e,
                Ok(s) => r matches Ok(v) && listing_matches(v@, self.image(), self.geometry(), s),
            },
            r matches Ok(v) ==> forall|i: int|
                0 <= i < v@.len() ==> (#[trigger] v@[i]).wf() && v@[i].flags != ATTR_LONG_NAME,
            first_cluster_free(self.image(), self.geometry(), dir.inner) ==> r is Ok
                && r->Ok_0@.len() == 0,
    {
        crate::reader::read_directory(self.image.as_slice(), &self.br, dir)
    }
}

} // verus!
