//! File metadata: as ext4 reports it, and as Windows is told.

use vstd::prelude::*;

verus! {

/// What kind of object an inode is.
#[derive(Clone, Copy, Debug, PartialEq, Eq, Structural)]
pub enum FileType {
    Unknown,
    RegFile,
    Dir,
    ChrDev,
    BlkDev,
    Fifo,
    Sock,
    Symlink,
}

/// The metadata of an inode.
#[derive(Clone, Copy, Debug, PartialEq, Eq, Structural)]
pub struct Attr {
    pub inode: u32,
    pub mode: u16,
    pub uid: u32,
    pub gid: u32,
    pub size: u64,
    pub atime: i64,
    pub mtime: i64,
    pub ctime: i64,
    pub crtime: i64,
    pub link_count: u16,
    pub file_type: FileType,
    pub atime_nsec: u32,
    pub mtime_nsec: u32,
    pub ctime_nsec: u32,
    pub crtime_nsec: u32,
    pub inode_flags: u32,
    pub generation: u32,
    pub blocks_512: u64,
}

/// The four timestamps of an inode as Windows file times.
#[derive(Clone, Copy, Debug, PartialEq, Eq, Structural)]
pub struct FileTimes {
    pub created: u64,
    pub accessed: u64,
    pub modified: u64,
    pub changed: u64,
}

/// An inode that was looked up: its metadata and its timestamps as file times.
#[derive(Clone, Copy, Debug, PartialEq, Eq, Structural)]
pub struct Found {
    pub attr: Attr,
    pub times: FileTimes,
}

/// What Windows is told about a file.
#[derive(Clone, Copy, Debug, PartialEq, Eq, Structural)]
pub struct FileInfo {
    pub file_attributes: u32,
    pub reparse_tag: u32,
    pub allocation_size: u64,
    pub file_size: u64,
    pub creation_time: u64,
    pub last_access_time: u64,
    pub last_write_time: u64,
    pub change_time: u64,
    pub index_number: u64,
    pub hard_links: u32,
    pub ea_size: u32,
}

/// The attribute bit of a file that nobody may write.
pub const ATTRIBUTE_READONLY: u32 = 0x1;

/// The attribute bit of a directory.
pub const ATTRIBUTE_DIRECTORY: u32 = 0x10;

/// The three write bits of a mode.
pub const WRITE_BITS: u16 = 0o222;

/// Whether a mode lets nobody write.
pub open spec fn unwritable(mode: u16) -> bool {
    mode & WRITE_BITS == 0
}

/// The Windows attribute bits of an inode.
pub open spec fn attribute_bits(attr: Attr) -> u32 {
    let dir: u32 = if attr.file_type == FileType::Dir {
        ATTRIBUTE_DIRECTORY
    } else {
        0
    };
    let readonly: u32 = if unwritable(attr.mode) {
        ATTRIBUTE_READONLY
    } else {
        0
    };
    (dir + readonly) as u32
}

/// A size rounded up to whole blocks of 4096 bytes.
pub open spec fn allocated(size: u64) -> int {
    (size + 4095) / 4096 * 4096
}

/// The file information of an inode. The creation time is never before the
/// last write.
pub open spec fn info_of(found: Found) -> FileInfo {
    FileInfo {
        file_attributes: attribute_bits(found.attr),
        reparse_tag: 0,
        allocation_size: allocated(found.attr.size) as u64,
        file_size: found.attr.size,
        creation_time: if found.times.created >= found.times.modified {
            found.times.created
        } else {
            found.times.modified
        },
        last_access_time: found.times.accessed,
        last_write_time: found.times.modified,
        change_time: found.times.changed,
        index_number: found.attr.inode as u64,
        hard_links: found.attr.link_count as u32,
        ea_size: 0,
    }
}

/// Whether the size of an inode can be rounded up to whole blocks.
pub open spec fn roundable(attr: Attr) -> bool {
    attr.size <= 0xFFFF_FFFF_FFFF_F000
}

/// The Windows attribute bits of an inode.
pub fn file_attributes(attr: &Attr) -> (bits: u32)
    ensures
        bits == attribute_bits(*attr),
{
    let dir: u32 = if attr.file_type == FileType::Dir {
        ATTRIBUTE_DIRECTORY
    } else {
        0
    };
    if attr.mode & WRITE_BITS == 0 {
        dir + ATTRIBUTE_READONLY
    } else {
        dir
    }
}

/// The file information of an inode.
pub fn populate_file_info(found: &Found) -> (info: FileInfo)
    requires
        roundable(found.attr),
    ensures
        info == info_of(*found),
{
    let attr = found.attr;
    let times = found.times;
    FileInfo {
        file_attributes: file_attributes(&attr),
        reparse_tag: 0,
        allocation_size: (attr.size + 4095) / 4096 * 4096,
        file_size: attr.size,
        creation_time: if times.created >= times.modified {
            times.created
        } else {
            times.modified
        },
        last_access_time: times.accessed,
        last_write_time: times.modified,
        change_time: times.changed,
        index_number: attr.inode as u64,
        hard_links: attr.link_count as u32,
        ea_size: 0,
    }
}

/// The room that a file is said to take up is the smallest multiple of 4096
/// that holds it.
pub proof fn law_allocation(found: Found)
    requires
        roundable(found.attr),
    ensures
        info_of(found).allocation_size % 4096 == 0,
        found.attr.size <= info_of(found).allocation_size < found.attr.size + 4096,
{
}

/// The mode with the write bits taken away or given, as the read-only box of
/// a file's properties asks.
pub open spec fn with_readonly(mode: u16, readonly: bool) -> u16 {
    if readonly {
        mode & !WRITE_BITS
    } else {
        mode | WRITE_BITS
    }
}

/// What the read-only box was set to is what it shows afterwards, and only the
/// write bits change.
pub proof fn law_readonly_round_trip(attr: Attr, readonly: bool)
    ensures
        unwritable(with_readonly(attr.mode, readonly)) == readonly,
        with_readonly(attr.mode, readonly) & !WRITE_BITS == attr.mode & !WRITE_BITS,
        attribute_bits(Attr { mode: with_readonly(attr.mode, readonly), ..attr }) & ATTRIBUTE_READONLY
            != 0 <==> readonly,
{
    let m = attr.mode;
    assert((m & !0o222u16) & 0o222u16 == 0) by (bit_vector);
    assert((m | 0o222u16) & 0o222u16 != 0) by (bit_vector);
    assert((m & !0o222u16) & !0o222u16 == m & !0o222u16) by (bit_vector);
    assert((m | 0o222u16) & !0o222u16 == m & !0o222u16) by (bit_vector);
    assert(0x11u32 & 0x1u32 != 0) by (bit_vector);
    assert(0x10u32 & 0x1u32 == 0) by (bit_vector);
    assert(0x1u32 & 0x1u32 != 0) by (bit_vector);
    assert(0x0u32 & 0x1u32 == 0) by (bit_vector);
}

/// What Windows is told of an inode: that it is a directory, and that it is
/// read-only, exactly where nobody may write it, and no other attribute; its
/// size, number and links; and its times, where creation is said to be no
/// earlier than the last write.
pub proof fn law_info_tells_the_inode(found: Found)
    ensures
        info_of(found).file_attributes & 0x10 != 0 <==> found.attr.file_type == FileType::Dir,
        info_of(found).file_attributes & 0x1 != 0 <==> found.attr.mode & 0o222 == 0,
        info_of(found).file_attributes & 0xFFFF_FFEE == 0,
        info_of(found).reparse_tag == 0,
        info_of(found).file_size == found.attr.size,
        info_of(found).index_number == found.attr.inode,
        info_of(found).hard_links == found.attr.link_count,
        info_of(found).ea_size == 0,
        info_of(found).last_access_time == found.times.accessed,
        info_of(found).last_write_time == found.times.modified,
        info_of(found).change_time == found.times.changed,
        info_of(found).creation_time >= found.times.created,
        info_of(found).creation_time >= found.times.modified,
        info_of(found).creation_time == found.times.created || info_of(found).creation_time
            == found.times.modified,
{
    assert(0x11u32 & 0x10u32 != 0 && 0x10u32 & 0x10u32 != 0 && 0x1u32 & 0x10u32 == 0 && 0u32
        & 0x10u32 == 0 && 0x11u32 & 0x1u32 != 0 && 0x10u32 & 0x1u32 == 0 && 0x1u32 & 0x1u32 != 0
        && 0u32 & 0x1u32 == 0 && 0x11u32 & 0xFFFF_FFEEu32 == 0 && 0x10u32 & 0xFFFF_FFEEu32 == 0
        && 0x1u32 & 0xFFFF_FFEEu32 == 0 && 0u32 & 0xFFFF_FFEEu32 == 0) by (bit_vector);
}

/// Setting the read-only box takes all write bits away, clearing it gives all of
/// them, and no other bit of the mode changes.
pub proof fn law_readonly_is_about_the_write_bits(mode: u16)
    ensures
        with_readonly(mode, true) & 0o222 == 0,
        with_readonly(mode, false) & 0o222 == 0o222,
        with_readonly(mode, true) & !0o222u16 == mode & !0o222u16,
        with_readonly(mode, false) & !0o222u16 == mode & !0o222u16,
        unwritable(mode) <==> mode & 0o222 == 0,
{
    assert((mode & !0o222u16) & 0o222u16 == 0 && (mode | 0o222u16) & 0o222u16 == 0o222u16 && (mode
        & !0o222u16) & !0o222u16 == mode & !0o222u16 && (mode | 0o222u16) & !0o222u16 == mode
        & !0o222u16) by (bit_vector);
}

/// A size can be rounded up exactly where the rounded size still fits.
pub proof fn law_sizes_that_round_up_fit(attr: Attr)
    ensures
        roundable(attr) <==> attr.size + 4095 <= u64::MAX,
{
}

}
