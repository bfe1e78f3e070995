//! The requests that Windows makes of a mounted volume.
//!
//! Each request is a short conversation with the ext4 side. A method of
//! [`Ext4Context`] begins it: it refuses the request, or hands back what is to
//! be asked first. Each type named after a pending call takes the reply and
//! says how the request goes on.
//!
//! A *lookup* of a path is a walk that follows links (see [`crate::resolve`]);
//! its reply is the inode that was found, or the failure of the walk.

use vstd::prelude::*;
use vstd::utf8::{decode_utf8, valid_utf8};

use crate::attr::{
    attribute_bits, file_attributes, info_of, populate_file_info, roundable, Attr, FileInfo,
    FileType, Found,
};
use crate::mount::Mount;
use crate::path::{child_of, child_path, unix_form, winpath_to_unix};
use crate::status::{refused, reported, Failure, NtStatus};
use crate::text::{contains_nul, has_nul, lossy_str, lossy_text};
use crate::utf16::{decode16, encode16, encode_wide, valid16, wide_str_lossy};
use crate::xattr::{find_nul, nul_from};

verus! {

/// An open file: where it is, and what was last learnt of it.
pub struct Ext4FileContext {
    pub inode: u32,
    pub unix_path: String,
    pub is_dir: bool,
    pub size: u64,
    pub attr: Attr,
}

/// An open file over a mathematical path.
#[verifier::ext_equal]
pub struct FileView {
    pub inode: u32,
    pub path: Seq<char>,
    pub is_dir: bool,
    pub size: u64,
    pub attr: Attr,
}

impl View for Ext4FileContext {
    type V = FileView;

    open spec fn view(&self) -> FileView {
        FileView {
            inode: self.inode,
            path: self.unix_path@,
            is_dir: self.is_dir,
            size: self.size,
            attr: self.attr,
        }
    }
}

/// What the ext4 side tells of a volume.
pub struct VolumeFacts {
    pub volume_name: Vec<u8>,
    pub uuid: [u8; 16],
    pub last_mounted: Vec<u8>,
    pub block_size: u32,
    pub total_blocks: u64,
    pub free_blocks: u64,
    pub total_inodes: u32,
    pub free_inodes: u32,
    pub inode_size: u16,
    pub rev_level: u32,
    pub minor_rev_level: u16,
    pub feature_compat: u32,
    pub feature_incompat: u32,
    pub feature_ro_compat: u32,
    pub state: u16,
    pub mounted_dirty: u8,
}

/// Whether the sizes of a volume can be told in bytes.
pub open spec fn sizes_fit(f: VolumeFacts) -> bool {
    &&& f.free_blocks <= f.total_blocks
    &&& f.total_blocks * f.block_size <= u64::MAX
}

/// Whether the sizes of a volume can be told in bytes.
pub fn volume_sizes_fit(f: &VolumeFacts) -> (ok: bool)
    ensures
        ok == sizes_fit(*f),
{
    f.free_blocks <= f.total_blocks && f.total_blocks.checked_mul(f.block_size as u64).is_some()
}

/// A mounted volume.
pub struct Ext4Context {
    pub mount: Mount,
    pub label: String,
    pub block_size: u64,
    pub total_blocks: u64,
    pub free_blocks: u64,
}

/// What Windows is told of a volume.
pub struct VolumeInfo {
    pub total_size: u64,
    pub free_size: u64,
    pub label: String,
}

/// What Windows is told of the security of a file. There is no descriptor.
#[derive(Clone, Copy, Debug, PartialEq, Eq, Structural)]
pub struct FileSecurity {
    pub reparse: bool,
    pub sz_security_descriptor: u64,
    pub attributes: u32,
}

/// Whether a found inode has a size that can be rounded to whole blocks.
pub open spec fn sound(reply: Result<Found, Failure>) -> bool {
    reply matches Ok(found) ==> roundable(found.attr)
}

/// Whether a size can be rounded up to whole blocks.
pub fn size_is_roundable(attr: &Attr) -> (ok: bool)
    ensures
        ok == roundable(*attr),
{
    attr.size <= 0xFFFF_FFFF_FFFF_F000
}

/// The refusal of a change to a volume that may not be written.
pub open spec fn write_protected() -> Failure {
    refused(NtStatus::MediaWriteProtected)
}

/// The refusal of a name that the volume cannot hold.
pub open spec fn no_such_name() -> Failure {
    refused(NtStatus::ObjectNameNotFound)
}

/// The path that Windows names, or the refusal of a name that is not UTF-16.
pub open spec fn named_path(name: Seq<u16>) -> Result<Seq<char>, Failure> {
    if valid16(name) {
        Ok(unix_form(decode16(name)))
    } else {
        Err(no_such_name())
    }
}

/// Whether a result holds the text that is wanted, or the wanted failure.
pub open spec fn same_text(out: Result<String, Failure>, want: Result<Seq<char>, Failure>) -> bool {
    match (out, want) {
        (Ok(s), Ok(t)) => s@ == t,
        (Err(f), Err(g)) => f == g,
        _ => false,
    }
}

/// The text before the first NUL of a fixed-size field.
pub open spec fn field_text(bytes: Seq<u8>) -> Seq<char> {
    lossy_text(bytes.take(nul_from(bytes, 0)))
}

/// The text before the first NUL of a fixed-size field.
pub fn cchar_slice_to_string(buf: &[u8]) -> (out: String)
    ensures
        out@ == field_text(buf@),
        valid_utf8(buf@.take(nul_from(buf@, 0))) ==> out@ == decode_utf8(
            buf@.take(nul_from(buf@, 0)),
        ),
{
    let n: usize = find_nul(buf, 0);
    let part = vstd::slice::slice_subrange(buf, 0, n);
    proof {
        assert(part@ =~= buf@.take(n as int));
    }
    lossy_str(part)
}

fn path_of_name(name: &[u16]) -> (out: Result<String, Failure>)
    ensures
        same_text(out, named_path(name@)),
{
    match winpath_to_unix(name) {
        Some(path) => Ok(path),
        None => Err(Failure::refuse(NtStatus::ObjectNameNotFound)),
    }
}

/// A call that reports success by zero.
pub open spec fn code_result(code: i32, errno: i32) -> Result<(), Failure> {
    if code == 0 {
        Ok(())
    } else {
        Err(reported(errno))
    }
}

/// Settles a call that reports success by zero.
pub fn settle_code(code: i32, errno: i32) -> (out: Result<(), Failure>)
    ensures
        out == code_result(code, errno),
{
    if code == 0 {
        Ok(())
    } else {
        Err(Failure::report(errno))
    }
}

/// Why the contents of a file may not be changed, or `None`.
pub open spec fn content_refusal(writable: bool, file: FileView) -> Option<Failure> {
    if !writable {
        Some(write_protected())
    } else if file.is_dir {
        Some(refused(NtStatus::FileIsADirectory))
    } else if has_nul(file.path) {
        Some(no_such_name())
    } else {
        None
    }
}

/// Why the metadata of a file may not be changed, or `None`.
pub open spec fn metadata_refusal(writable: bool, file: FileView) -> Option<Failure> {
    if !writable {
        Some(write_protected())
    } else if has_nul(file.path) {
        Some(no_such_name())
    } else {
        None
    }
}

/// The open file after a lookup of it: its size and metadata are those found.
pub open spec fn refreshed(file: FileView, found: Found) -> FileView {
    FileView { size: found.attr.size, attr: found.attr, ..file }
}

/// The open file after a lookup that leaves its remembered size alone.
pub open spec fn reattributed(file: FileView, found: Found) -> FileView {
    FileView { attr: found.attr, ..file }
}

impl Ext4Context {
    /// The volume that a mount opens on, from what the ext4 side tells of it.
    /// `reason` is what it says where it tells nothing.
    pub fn new(mount: Mount, facts: Option<&VolumeFacts>, reason: &str) -> (out: Result<
        Ext4Context,
        String,
    >)
        ensures
            match facts {
                None => out matches Err(e) && e@ == "fs_ext4_get_volume_info failed: "@ + reason@,
                Some(f) => out matches Ok(c) && {
                    &&& c.mount == mount
                    &&& c.label@ == field_text(f.volume_name@)
                    &&& c.block_size == f.block_size
                    &&& c.total_blocks == f.total_blocks
                    &&& c.free_blocks == f.free_blocks
                },
            },
    {
        match facts {
            None => {
                let mut e = "fs_ext4_get_volume_info failed: ".to_owned();
                e.append(reason);
                Err(e)
            },
            Some(f) => Ok(
                Ext4Context {
                    mount,
                    label: cchar_slice_to_string(f.volume_name.as_slice()),
                    block_size: f.block_size as u64,
                    total_blocks: f.total_blocks,
                    free_blocks: f.free_blocks,
                },
            ),
        }
    }

    /// Refuses a change to a volume that may not be written.
    pub fn ensure_writable(&self) -> (out: Result<(), Failure>)
        ensures
            out == if self.mount.writable {
                Ok::<(), Failure>(())
            } else {
                Err(write_protected())
            },
    {
        if !self.mount.writable {
            return Err(Failure::refuse(NtStatus::MediaWriteProtected));
        }
        Ok(())
    }

    /// The size of the volume and its label; a volume without a label is
    /// called by the name of its file system.
    pub fn get_volume_info(&self) -> (out: VolumeInfo)
        requires
            self.total_blocks * self.block_size <= u64::MAX,
            self.free_blocks * self.block_size <= u64::MAX,
        ensures
            out.total_size == self.total_blocks * self.block_size,
            out.free_size == self.free_blocks * self.block_size,
            out.label@ == if self.label@.len() == 0 {
                "ext4"@
            } else {
                self.label@
            },
    {
        let label = if crate::text::chars_of(self.label.as_str()).len() == 0 {
            "ext4".to_owned()
        } else {
            self.label.clone()
        };
        VolumeInfo {
            total_size: self.total_blocks * self.block_size,
            free_size: self.free_blocks * self.block_size,
            label,
        }
    }

    pub(crate) fn content_check(&self, file: &Ext4FileContext) -> (out: Result<(), Failure>)
        ensures
            out == match content_refusal(self.mount.writable, file@) {
                Some(f) => Err(f),
                None => Ok::<(), Failure>(()),
            },
    {
        if !self.mount.writable {
            return Err(Failure::refuse(NtStatus::MediaWriteProtected));
        }
        if file.is_dir {
            return Err(Failure::refuse(NtStatus::FileIsADirectory));
        }
        if contains_nul(file.unix_path.as_str()) {
            return Err(Failure::refuse(NtStatus::ObjectNameNotFound));
        }
        Ok(())
    }

    pub(crate) fn metadata_check(&self, file: &Ext4FileContext) -> (out: Result<(), Failure>)
        ensures
            out == match metadata_refusal(self.mount.writable, file@) {
                Some(f) => Err(f),
                None => Ok::<(), Failure>(()),
            },
    {
        if !self.mount.writable {
            return Err(Failure::refuse(NtStatus::MediaWriteProtected));
        }
        if contains_nul(file.unix_path.as_str()) {
            return Err(Failure::refuse(NtStatus::ObjectNameNotFound));
        }
        Ok(())
    }
}

// ---------------------------------------------------------------------------
// Looking at files
// ---------------------------------------------------------------------------

impl Ext4Context {
    /// A request for the security of a file: the path to look up.
    pub fn get_security_by_name(&self, name: &[u16]) -> (out: Result<String, Failure>)
        ensures
            same_text(out, named_path(name@)),
    {
        path_of_name(name)
    }

    /// A request to open a file: the path to look up.
    pub fn open(&self, name: &[u16]) -> (out: Result<String, Failure>)
        ensures
            same_text(out, named_path(name@)),
    {
        path_of_name(name)
    }

    /// A request for what is known of an open file: the path to look up.
    pub fn get_file_info(&self, file: &Ext4FileContext) -> (path: String)
        ensures
            path@ == file@.path,
    {
        file.unix_path.clone()
    }

    /// A request for the entry of one name in an open directory: the path to
    /// look up.
    pub fn get_dir_info_by_name(&self, dir: &Ext4FileContext, name: &[u16]) -> (path: String)
        ensures
            path@ == child_of(dir@.path, decode16(name@)),
    {
        child_path(dir.unix_path.as_str(), wide_str_lossy(name).as_str())
    }

    /// A request to write out an open file, or the volume where there is none:
    /// the path to look up, if any. Nothing is held back, so there is nothing
    /// to write.
    pub fn flush(&self, file: Option<&Ext4FileContext>) -> (path: Option<String>)
        ensures
            match file {
                None => path is None,
                Some(f) => path matches Some(p) && p@ == f@.path,
            },
    {
        match file {
            None => None,
            Some(f) => Some(f.unix_path.clone()),
        }
    }
}

/// The answer to a request for the security of a file.
pub fn security_found(reply: Result<Found, Failure>) -> (out: Result<FileSecurity, Failure>)
    ensures
        out == match reply {
            Err(f) => Err::<FileSecurity, Failure>(f),
            Ok(found) => Ok(
                FileSecurity {
                    reparse: false,
                    sz_security_descriptor: 0,
                    attributes: attribute_bits(found.attr),
                },
            ),
        },
{
    match reply {
        Err(f) => Err(f),
        Ok(found) => Ok(
            FileSecurity {
                reparse: false,
                sz_security_descriptor: 0,
                attributes: file_attributes(&found.attr),
            },
        ),
    }
}

/// An open file at the path that the links lead to.
pub open spec fn opened_at(path: Seq<char>, found: Found) -> FileView {
    FileView {
        inode: found.attr.inode,
        path,
        is_dir: found.attr.file_type == FileType::Dir,
        size: found.attr.size,
        attr: found.attr,
    }
}

/// The answer to a request to open a file: the open file stands at the path
/// that the links lead to, so that reads and writes reach the file itself.
pub fn file_opened(reply: Result<(String, Found), Failure>) -> (out: Result<
    (Ext4FileContext, FileInfo),
    Failure,
>)
    requires
        reply matches Ok(r) ==> roundable(r.1.attr),
    ensures
        match reply {
            Err(f) => out == Err::<(Ext4FileContext, FileInfo), Failure>(f),
            Ok(r) => out matches Ok(o) && o.0@ == opened_at(r.0@, r.1) && o.1 == info_of(r.1),
        },
{
    match reply {
        Err(f) => Err(f),
        Ok((path, found)) => {
            let info = populate_file_info(&found);
            let file = Ext4FileContext {
                inode: found.attr.inode,
                unix_path: path,
                is_dir: found.attr.file_type == FileType::Dir,
                size: found.attr.size,
                attr: found.attr,
            };
            Ok((file, info))
        },
    }
}

/// A request for what is known of an open file, once it was looked up. Where
/// `probe` holds a path, the size of its list of attribute names is asked for.
pub struct InfoProbe {
    pub found: Found,
    pub probe: Option<String>,
}

/// Goes on with a request for what is known of an open file.
pub fn info_found(file: &Ext4FileContext, reply: Result<Found, Failure>) -> (out: Result<
    InfoProbe,
    Failure,
>)
    ensures
        match reply {
            Err(f) => out == Err::<InfoProbe, Failure>(f),
            Ok(found) => out matches Ok(p) && p.found == found && if has_nul(file@.path) {
                p.probe is None
            } else {
                p.probe matches Some(s) && s@ == file@.path
            },
        },
{
    match reply {
        Err(f) => Err(f),
        Ok(found) => if contains_nul(file.unix_path.as_str()) {
            Ok(InfoProbe { found, probe: None })
        } else {
            Ok(InfoProbe { found, probe: Some(file.unix_path.clone()) })
        },
    }
}

impl InfoProbe {
    /// The answer, from the size of the list of attribute names. A file with
    /// attributes says so, so that Windows asks for them.
    pub fn on_list_size(self, file: &mut Ext4FileContext, size: Option<i64>) -> (info: FileInfo)
        requires
            roundable(self.found.attr),
        ensures
            info == (FileInfo {
                ea_size: match size {
                    Some(n) => if n > 0 {
                        n as u32
                    } else {
                        0
                    },
                    None => 0,
                },
                ..info_of(self.found)
            }),
            final(file)@ == refreshed(old(file)@, self.found),
    {
        let mut info = populate_file_info(&self.found);
        if let Some(n) = size {
            if n > 0 {
                info.ea_size = #[verifier::truncate]
                (n as u32);
            }
        }
        file.size = self.found.attr.size;
        file.attr = self.found.attr;
        info
    }
}

/// The answer to a request to write out an open file: what was found of it, or
/// nothing. The request succeeds either way.
pub fn flushed(file: &mut Ext4FileContext, reply: Result<Found, Failure>) -> (info: Option<FileInfo>)
    requires
        sound(reply),
    ensures
        match reply {
            Err(_) => info is None && final(file)@ == old(file)@,
            Ok(found) => info == Some(info_of(found)) && final(file)@ == reattributed(
                old(file)@,
                found,
            ),
        },
{
    match reply {
        Err(_) => None,
        Ok(found) => {
            file.attr = found.attr;
            Some(populate_file_info(&found))
        },
    }
}

/// The answer to a request for the entry of one name: its information, and the
/// name as Windows wrote it, without a NUL behind it.
pub fn dir_info_found(name: &[u16], reply: Result<Found, Failure>) -> (out: Result<
    (FileInfo, Vec<u16>),
    Failure,
>)
    requires
        sound(reply),
    ensures
        match reply {
            Err(f) => out == Err::<(FileInfo, Vec<u16>), Failure>(f),
            Ok(found) => out matches Ok(o) && o.0 == info_of(found) && o.1@ == encode16(
                decode16(name@),
            ),
        },
{
    match reply {
        Err(f) => Err(f),
        Ok(found) => {
            let info = populate_file_info(&found);
            Ok((info, encode_wide(wide_str_lossy(name).as_str())))
        },
    }
}

/// Settles whether the name of an entry found room in Windows' structure.
pub fn dir_info_named(named: bool) -> (out: Result<(), Failure>)
    ensures
        out == if named {
            Ok::<(), Failure>(())
        } else {
            Err(no_such_name())
        },
{
    if named {
        Ok(())
    } else {
        Err(Failure::refuse(NtStatus::ObjectNameNotFound))
    }
}

// ---------------------------------------------------------------------------
// Reading
// ---------------------------------------------------------------------------

/// A read that is about to be made.
pub struct ReadCall {
    pub path: String,
    pub offset: u64,
}

/// Why a read is not made, or `None`. What was last learnt of the size decides
/// whether it starts behind the end.
pub open spec fn read_refusal(file: FileView, offset: u64) -> Option<Failure> {
    if file.is_dir {
        Some(refused(NtStatus::InvalidDeviceRequest))
    } else if offset >= file.size {
        Some(refused(NtStatus::EndOfFile))
    } else if has_nul(file.path) {
        Some(no_such_name())
    } else {
        None
    }
}

impl Ext4Context {
    /// A request to read an open file from `offset` on.
    pub fn read(&self, file: &Ext4FileContext, offset: u64) -> (out: Result<ReadCall, Failure>)
        ensures
            match read_refusal(file@, offset) {
                Some(f) => out == Err::<ReadCall, Failure>(f),
                None => out matches Ok(c) && c.path@ == file@.path && c.offset == offset,
            },
    {
        if file.is_dir {
            return Err(Failure::refuse(NtStatus::InvalidDeviceRequest));
        }
        if offset >= file.size {
            return Err(Failure::refuse(NtStatus::EndOfFile));
        }
        if contains_nul(file.unix_path.as_str()) {
            return Err(Failure::refuse(NtStatus::ObjectNameNotFound));
        }
        Ok(ReadCall { path: file.unix_path.clone(), offset })
    }
}

/// The answer to a read: how many bytes came, where the count is not negative.
pub fn read_done(count: i64, errno: i32) -> (out: Result<u32, Failure>)
    ensures
        out == if count < 0 {
            Err::<u32, Failure>(reported(errno))
        } else {
            Ok(count as u32)
        },
{
    if count < 0 {
        return Err(Failure::report(errno));
    }
    Ok(#[verifier::truncate]
    (count as u32))
}

/// A read is allowed exactly of a file, before its end; a change of contents
/// exactly of a file on a volume that may be written; and a change of metadata
/// of anything on such a volume. No path may hold a NUL. What is refused says
/// why, and ext4 was not asked.
pub proof fn law_requests_are_allowed_or_refused(writable: bool, file: FileView, offset: u64)
    ensures
        ({
            let clean = !file.path.contains('\0');
            &&& read_refusal(file, offset) is None <==> !file.is_dir && offset < file.size && clean
            &&& file.is_dir ==> read_refusal(file, offset) == Some(
                Failure { status: NtStatus::InvalidDeviceRequest, errno: None },
            )
            &&& !file.is_dir && offset >= file.size ==> read_refusal(file, offset) == Some(
                Failure { status: NtStatus::EndOfFile, errno: None },
            )
            &&& !file.is_dir && offset < file.size && !clean ==> read_refusal(file, offset) == Some(
                Failure { status: NtStatus::ObjectNameNotFound, errno: None },
            )
            &&& content_refusal(writable, file) is None <==> writable && !file.is_dir && clean
            &&& writable && file.is_dir ==> content_refusal(writable, file) == Some(
                Failure { status: NtStatus::FileIsADirectory, errno: None },
            )
            &&& metadata_refusal(writable, file) is None <==> writable && clean
            &&& !writable ==> {
                &&& content_refusal(writable, file) == Some(
                    Failure { status: NtStatus::MediaWriteProtected, errno: None },
                )
                &&& metadata_refusal(writable, file) == Some(
                    Failure { status: NtStatus::MediaWriteProtected, errno: None },
                )
            }
            &&& writable && !clean ==> {
                &&& metadata_refusal(writable, file) == Some(
                    Failure { status: NtStatus::ObjectNameNotFound, errno: None },
                )
                &&& !file.is_dir ==> content_refusal(writable, file) == Some(
                    Failure { status: NtStatus::ObjectNameNotFound, errno: None },
                )
            }
        }),
{
}

/// An open file knows what its inode said: all of it when it is opened, and
/// afterwards the metadata, with the size where contents may have changed. Its
/// path, its number and whether it is a directory stay.
pub proof fn law_open_files_follow_their_inode(path: Seq<char>, file: FileView, found: Found)
    ensures
        opened_at(path, found).path == path,
        opened_at(path, found).inode == found.attr.inode,
        opened_at(path, found).is_dir <==> found.attr.file_type == FileType::Dir,
        opened_at(path, found).size == found.attr.size,
        opened_at(path, found).attr == found.attr,
        refreshed(file, found).path == file.path,
        refreshed(file, found).inode == file.inode,
        refreshed(file, found).is_dir == file.is_dir,
        refreshed(file, found).size == found.attr.size,
        refreshed(file, found).attr == found.attr,
        reattributed(file, found).path == file.path,
        reattributed(file, found).inode == file.inode,
        reattributed(file, found).is_dir == file.is_dir,
        reattributed(file, found).size == file.size,
        reattributed(file, found).attr == found.attr,
        refreshed(opened_at(path, found), found) == opened_at(path, found),
{
}

/// Every name that Windows can spell as text is a path, with slashes; any other
/// is no name at all.
pub proof fn law_names_are_paths(text: Seq<char>, name: Seq<u16>)
    ensures
        named_path(encode16(text)) == Ok::<Seq<char>, Failure>(unix_form(text)),
        named_path(name) is Ok <==> valid16(name),
        !valid16(name) ==> named_path(name) == Err::<Seq<char>, Failure>(
            Failure { status: NtStatus::ObjectNameNotFound, errno: None },
        ),
{
    crate::utf16::law_wide_round_trip(text);
}

/// A text field of the superblock ends at its first NUL, and where it has none
/// it is read whole.
pub proof fn law_fields_end_at_their_nul(text: Seq<char>, behind: Seq<u8>)
    requires
        !vstd::utf8::encode_utf8(text).contains(0u8),
    ensures
        field_text(vstd::utf8::encode_utf8(text) + seq![0u8] + behind) == text,
        field_text(vstd::utf8::encode_utf8(text)) == text,
{
    let b = vstd::utf8::encode_utf8(text);
    crate::xattr::lemma_nul_at(b, behind);
    assert((b + seq![0u8] + behind).take(b.len() as int) =~= b);
    assert(b.take(b.len() as int) =~= b);
    crate::text::law_utf8_is_read_as_it_is(text, behind);
}

/// A call succeeds exactly where its code is zero; otherwise its errno says why.
pub proof fn law_codes_are_settled(code: i32, errno: i32)
    ensures
        code_result(0, errno) == Ok::<(), Failure>(()),
        code != 0 ==> code_result(code, errno) == Err::<(), Failure>(
            Failure { status: crate::status::status_of_errno(errno), errno: Some(errno) },
        ),
        sound(Err(write_protected())),
        write_protected() == (Failure { status: NtStatus::MediaWriteProtected, errno: None }),
        no_such_name() == (Failure { status: NtStatus::ObjectNameNotFound, errno: None }),
{
}

/// An open file is seen as what it holds.
pub proof fn law_files_are_seen_as_they_are(file: Ext4FileContext)
    ensures
        file@.inode == file.inode,
        file@.path == file.unix_path@,
        file@.is_dir == file.is_dir,
        file@.size == file.size,
        file@.attr == file.attr,
{
}

}
