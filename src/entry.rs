//! Decoded directory records and what they point to.

use vstd::prelude::*;

verus! {

pub const NAME_LEN: usize = 8;
pub const FULL_NAME_LEN: usize = 11;
pub const ATTR_DIRECTORY: u8 = 0x10;
pub const PAD: u8 = 0x20;

/// A regular file: its first cluster and its size in bytes.
#[derive(Debug, Clone, Copy, PartialEq, Eq, Structural)]
pub struct File {
    pub cluster: u32,
    pub size: u32,
}

/// Where the records of a directory are stored.
#[derive(Debug, Clone, Copy, PartialEq, Eq, Structural)]
pub enum DirType {
    /// The fixed root region: its first sector and how many records it holds.
    Root(u32, u16),
    /// A cluster chain: its first cluster.
    Regular(u32),
}

/// A directory that can be listed; it holds no entries itself.
#[derive(Debug, Clone, Copy, PartialEq, Eq, Structural)]
pub struct Directory {
    pub inner: DirType,
}

/// What a directory entry designates.
#[derive(Debug, Clone, Copy, PartialEq, Eq, Structural)]
pub enum EntryType {
    File(File),
    Dir(Directory),
}

/// One decoded directory record.
#[derive(Debug)]
pub struct DirectoryEntry {
    /// The 11 raw bytes of the name: 8 of base name, 3 of extension.
    pub name: Vec<u8>,
    /// Attribute flags.
    pub flags: u8,
    /// First cluster of the entry's data.
    pub first_cluster: u32,
    /// Size in bytes.
    pub size: u32,
}

/// `s` without its trailing padding spaces.
pub open spec fn trim_pad(s: Seq<u8>) -> Seq<u8>
    decreases s.len(),
{
    if s.len() > 0 && s.last() == PAD {
        trim_pad(s.drop_last())
    } else {
        s
    }
}

/// Each byte read as the character of the same code.
pub open spec fn chars_of(s: Seq<u8>) -> Seq<char> {
    s.map_values(|b: u8| b as char)
}

/// The displayed text of a space-padded field.
pub open spec fn field_text(s: Seq<u8>) -> Seq<char> {
    chars_of(trim_pad(s))
}

/// `NAME.EXT`, or `NAME` where the extension is blank.
pub open spec fn joined_name(base: Seq<char>, ext: Seq<char>) -> Seq<char> {
    if ext.len() == 0 {
        base
    } else {
        base + seq!['.'] + ext
    }
}

/// Relies on std's `String::from_iter` over `char`s: the string holds the
/// characters in the order given.
#[verifier::external_body]
pub(crate) fn string_from_chars(v: Vec<char>) -> (r: String)
    ensures
        r@ == v@,
{
    String::from_iter(v)
}

/// The length of `s[0..hi]` once trailing padding spaces are removed.
pub(crate) fn trimmed_len(s: &Vec<u8>, lo: usize, hi: usize) -> (n: usize)
    requires
        lo <= hi <= s@.len(),
    ensures
        lo <= n <= hi,
        s@.subrange(lo as int, n as int) == trim_pad(s@.subrange(lo as int, hi as int)),
{
    let mut n: usize = hi;
    while n > lo && s[n - 1] == PAD
        invariant
            lo <= n <= hi <= s@.len(),
            trim_pad(s@.subrange(lo as int, n as int)) == trim_pad(
                s@.subrange(lo as int, hi as int),
            ),
        decreases n,
    {
        assert(s@.subrange(lo as int, n as int).drop_last() =~= s@.subrange(
            lo as int,
            n - 1,
        ));
        n = n - 1;
    }
    n
}

/// Appends the bytes `s[lo..hi]` to `out` as characters.
pub(crate) fn push_chars(out: &mut Vec<char>, s: &Vec<u8>, lo: usize, hi: usize)
    requires
        lo <= hi <= s@.len(),
    ensures
        final(out)@ == old(out)@ + chars_of(s@.subrange(lo as int, hi as int)),
{
    let mut i: usize = lo;
    while i < hi
        invariant
            lo <= i <= hi <= s@.len(),
            out@ == old(out)@ + chars_of(s@.subrange(lo as int, i as int)),
        decreases hi - i,
    {
        out.push(s[i] as char);
        assert(chars_of(s@.subrange(lo as int, i + 1)) =~= chars_of(
            s@.subrange(lo as int, i as int),
        ).push(s@[i as int] as char));
        i = i + 1;
    }
}

impl DirectoryEntry {
    /// The name field holds its 11 bytes.
    pub open spec fn wf(&self) -> bool {
        self.name@.len() == FULL_NAME_LEN
    }

    pub open spec fn spec_name(&self) -> Seq<char> {
        field_text(self.name@.subrange(0, NAME_LEN as int))
    }

    pub open spec fn spec_extension(&self) -> Seq<char> {
        field_text(self.name@.subrange(NAME_LEN as int, FULL_NAME_LEN as int))
    }

    pub open spec fn spec_entry_type(&self) -> EntryType {
        if self.flags & ATTR_DIRECTORY != 0 {
            EntryType::Dir(Directory { inner: DirType::Regular(self.first_cluster) })
        } else {
            EntryType::File(File { cluster: self.first_cluster, size: self.size })
        }
    }

    /// The base name without its padding spaces.
    pub fn name(&self) -> (r: String)
        requires
            self.wf(),
        ensures
            r@ == self.spec_name(),
    {
        let mut v: Vec<char> = Vec::new();
        let n = trimmed_len(&self.name, 0, NAME_LEN);
        push_chars(&mut v, &self.name, 0, n);
        string_from_chars(v)
    }

    /// The extension without its padding spaces.
    pub fn extension(&self) -> (r: String)
        requires
            self.wf(),
        ensures
            r@ == self.spec_extension(),
    {
        let mut v: Vec<char> = Vec::new();
        let n = trimmed_len(&self.name, NAME_LEN, FULL_NAME_LEN);
        push_chars(&mut v, &self.name, NAME_LEN, n);
        string_from_chars(v)
    }

    /// `NAME.EXT`, or `NAME` alone where the extension is blank.
    pub fn full_name(&self) -> (r: String)
        requires
            self.wf(),
        ensures
            r@ == joined_name(self.spec_name(), self.spec_extension()),
    {
        let mut v: Vec<char> = Vec::new();
        let n = trimmed_len(&self.name, 0, NAME_LEN);
        push_chars(&mut v, &self.name, 0, n);
        let e = trimmed_len(&self.name, NAME_LEN, FULL_NAME_LEN);
        if e > NAME_LEN {
            v.push('.');
            push_chars(&mut v, &self.name, NAME_LEN, e);
        }
        string_from_chars(v)
    }

    /// A directory where the directory attribute is set, else a file.
    pub fn entry_type(&self) -> (r: EntryType)
        ensures
            r == self.spec_entry_type(),
    {
        if self.flags & ATTR_DIRECTORY != 0 {
            EntryType::Dir(Directory { inner: DirType::Regular(self.first_cluster) })
        } else {
            EntryType::File(File { cluster: self.first_cluster, size: self.size })
        }
    }
}

} // verus!
