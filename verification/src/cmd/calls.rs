//! The commands that make one call, and those that write a file.

use vstd::prelude::*;

use crate::attributes::value_read;
use crate::changes::RENAME_REPLACE;
use crate::cmd::report::{c_text, call_failed, call_failure};
use crate::ea::bytes_of;
use crate::resolve::{link_bytes, link_target};
use crate::text::{
    debug_str, debug_text, dec, dec_text, has_nul, hex, hex_text, oct, pad_left, radix_text,
    signed_dec, signed_dec_text, strict_str, views,
};
use crate::xattr::{byte_views, names_from, xattr_names};
use vstd::utf8::{decode_utf8, valid_utf8};

verus! {

/// The mode of a directory that `mkdir` makes.
pub const MKDIR_MODE: u16 = 0o755;

/// The mode of a file that `write` or `touch` makes.
pub const CREATE_MODE: u16 = 0o644;

/// A call on the ext4 side.
pub enum FsCall {
    Setxattr { path: String, name: String, value: Vec<u8> },
    Removexattr { path: String, name: String },
    Symlink { target: String, linkpath: String },
    Link { src: String, dst: String },
    Chmod { path: String, mode: u16 },
    Chown { path: String, uid: u32, gid: u32 },
    SetFlags { path: String, inode_flags: u32 },
    Mknod { path: String, mode: u16, major: u32, minor: u32 },
    Mkdir { path: String, mode: u16 },
    Rmdir { path: String },
    Unlink { path: String },
    Truncate { path: String, size: u64 },
    Rename { src: String, dst: String, flags: i32 },
    Fallocate { path: String, offset: u64, len: u64, flags: i32 },
}

/// A call over mathematical text.
pub enum FsCallView {
    Setxattr { path: Seq<char>, name: Seq<char>, value: Seq<u8> },
    Removexattr { path: Seq<char>, name: Seq<char> },
    Symlink { target: Seq<char>, linkpath: Seq<char> },
    Link { src: Seq<char>, dst: Seq<char> },
    Chmod { path: Seq<char>, mode: u16 },
    Chown { path: Seq<char>, uid: u32, gid: u32 },
    SetFlags { path: Seq<char>, inode_flags: u32 },
    Mknod { path: Seq<char>, mode: u16, major: u32, minor: u32 },
    Mkdir { path: Seq<char>, mode: u16 },
    Rmdir { path: Seq<char> },
    Unlink { path: Seq<char> },
    Truncate { path: Seq<char>, size: u64 },
    Rename { src: Seq<char>, dst: Seq<char>, flags: i32 },
    Fallocate { path: Seq<char>, offset: u64, len: u64, flags: i32 },
}

impl View for FsCall {
    type V = FsCallView;

    open spec fn view(&self) -> FsCallView {
        match *self {
            FsCall::Setxattr { path, name, value } => FsCallView::Setxattr {
                path: path@,
                name: name@,
                value: value@,
            },
            FsCall::Removexattr { path, name } => FsCallView::Removexattr {
                path: path@,
                name: name@,
            },
            FsCall::Symlink { target, linkpath } => FsCallView::Symlink {
                target: target@,
                linkpath: linkpath@,
            },
            FsCall::Link { src, dst } => FsCallView::Link { src: src@, dst: dst@ },
            FsCall::Chmod { path, mode } => FsCallView::Chmod { path: path@, mode },
            FsCall::Chown { path, uid, gid } => FsCallView::Chown { path: path@, uid, gid },
            FsCall::SetFlags { path, inode_flags } => FsCallView::SetFlags {
                path: path@,
                inode_flags,
            },
            FsCall::Mknod { path, mode, major, minor } => FsCallView::Mknod {
                path: path@,
                mode,
                major,
                minor,
            },
            FsCall::Mkdir { path, mode } => FsCallView::Mkdir { path: path@, mode },
            FsCall::Rmdir { path } => FsCallView::Rmdir { path: path@ },
            FsCall::Unlink { path } => FsCallView::Unlink { path: path@ },
            FsCall::Truncate { path, size } => FsCallView::Truncate { path: path@, size },
            FsCall::Rename { src, dst, flags } => FsCallView::Rename {
                src: src@,
                dst: dst@,
                flags,
            },
            FsCall::Fallocate { path, offset, len, flags } => FsCallView::Fallocate {
                path: path@,
                offset,
                len,
                flags,
            },
        }
    }
}

/// Whether a call answers with the inode that it made, and with zero where it
/// fails. All other calls answer with zero where they succeed.
pub open spec fn answers_with_inode(call: FsCallView) -> bool {
    call is Symlink || call is Mknod || call is Mkdir
}

/// Whether an answer means success.
pub open spec fn succeeded(call: FsCallView, answer: i64) -> bool {
    if answers_with_inode(call) {
        answer != 0
    } else {
        answer == 0
    }
}

/// A command that makes one call, and how its failure names the call.
pub struct Command {
    pub call: FsCall,
    pub label: String,
}

/// Whether a command was set up with the given call and label.
pub open spec fn sets_up(
    out: Result<Command, String>,
    call: FsCallView,
    label: Seq<char>,
) -> bool {
    out matches Ok(c) && c.call@ == call && c.label@ == label
}

/// Whether a command was refused because of a NUL in the named argument.
pub open spec fn refuses_nul(out: Result<Command, String>, what: Seq<char>) -> bool {
    out matches Err(e) && e@ == what + " contains NUL byte"@
}

impl Command {
    /// Settles the command with the answer of its call.
    pub fn settle(self, answer: i64, reason: &str) -> (out: Result<(), String>)
        ensures
            if succeeded(self.call@, answer) {
                out is Ok
            } else {
                out matches Err(e) && e@ == self.label@ + " failed: "@ + reason@
            },
    {
        let done: bool = match self.call {
            FsCall::Symlink { .. } => answer != 0,
            FsCall::Mknod { .. } => answer != 0,
            FsCall::Mkdir { .. } => answer != 0,
            _ => answer == 0,
        };
        if done {
            return Ok(());
        }
        let mut e = self.label;
        e.append(" failed: ");
        e.append(reason);
        Err(e)
    }
}

// ---------------------------------------------------------------------------
// Labels
// ---------------------------------------------------------------------------

/// A call with one path and nothing else.
pub open spec fn label_one(call: Seq<char>, path: Seq<char>) -> Seq<char> {
    call + "("@ + debug_text(path) + ")"@
}

/// A call with two names.
pub open spec fn label_two(
    call: Seq<char>,
    a: Seq<char>,
    between: Seq<char>,
    b: Seq<char>,
) -> Seq<char> {
    call + "("@ + debug_text(a) + between + debug_text(b) + ")"@
}

/// A call with one path and more.
pub open spec fn label_more(call: Seq<char>, path: Seq<char>, more: Seq<char>) -> Seq<char> {
    call + "("@ + debug_text(path) + ", "@ + more + ")"@
}

fn one(call: &str, path: &str) -> (out: String)
    ensures
        out@ == label_one(call@, path@),
{
    let mut out = call.to_owned();
    out.append("(");
    out.append(debug_str(path).as_str());
    out.append(")");
    out
}

fn two(call: &str, a: &str, between: &str, b: &str) -> (out: String)
    ensures
        out@ == label_two(call@, a@, between@, b@),
{
    let mut out = call.to_owned();
    out.append("(");
    out.append(debug_str(a).as_str());
    out.append(between);
    out.append(debug_str(b).as_str());
    out.append(")");
    out
}

fn more(call: &str, path: &str, rest: &str) -> (out: String)
    ensures
        out@ == label_more(call@, path@, rest@),
{
    let mut out = call.to_owned();
    out.append("(");
    out.append(debug_str(path).as_str());
    out.append(", ");
    out.append(rest);
    out.append(")");
    out
}

// ---------------------------------------------------------------------------
// Commands of one call
// ---------------------------------------------------------------------------

/// Sets an extended attribute.
pub fn setxattr(path: &str, name: &str, value: &[u8]) -> (out: Result<Command, String>)
    ensures
        if has_nul(path@) {
            refuses_nul(out, "path"@)
        } else if has_nul(name@) {
            refuses_nul(out, "name"@)
        } else {
            sets_up(
                out,
                FsCallView::Setxattr { path: path@, name: name@, value: value@ },
                label_two("setxattr"@, path@, ", "@, name@),
            )
        },
{
    if let Err(e) = c_text("path", path) {
        return Err(e);
    }
    if let Err(e) = c_text("name", name) {
        return Err(e);
    }
    let bytes = bytes_of(value, 0, value.len());
    proof {
        assert(bytes@ =~= value@);
    }
    let call = FsCall::Setxattr { path: path.to_owned(), name: name.to_owned(), value: bytes };
    Ok(Command { call, label: two("setxattr", path, ", ", name) })
}

/// Removes an extended attribute.
pub fn removexattr(path: &str, name: &str) -> (out: Result<Command, String>)
    ensures
        if has_nul(path@) {
            refuses_nul(out, "path"@)
        } else if has_nul(name@) {
            refuses_nul(out, "name"@)
        } else {
            sets_up(
                out,
                FsCallView::Removexattr { path: path@, name: name@ },
                label_two("removexattr"@, path@, ", "@, name@),
            )
        },
{
    if let Err(e) = c_text("path", path) {
        return Err(e);
    }
    if let Err(e) = c_text("name", name) {
        return Err(e);
    }
    let call = FsCall::Removexattr { path: path.to_owned(), name: name.to_owned() };
    Ok(Command { call, label: two("removexattr", path, ", ", name) })
}

/// Makes a symbolic link at `linkpath` with the given target.
pub fn symlink(target: &str, linkpath: &str) -> (out: Result<Command, String>)
    ensures
        if has_nul(target@) {
            refuses_nul(out, "target"@)
        } else if has_nul(linkpath@) {
            refuses_nul(out, "linkpath"@)
        } else {
            sets_up(
                out,
                FsCallView::Symlink { target: target@, linkpath: linkpath@ },
                label_two("symlink"@, target@, " -> "@, linkpath@),
            )
        },
{
    if let Err(e) = c_text("target", target) {
        return Err(e);
    }
    if let Err(e) = c_text("linkpath", linkpath) {
        return Err(e);
    }
    let call = FsCall::Symlink { target: target.to_owned(), linkpath: linkpath.to_owned() };
    Ok(Command { call, label: two("symlink", target, " -> ", linkpath) })
}

/// Makes `dst` another name of the file at `src`.
pub fn link(src: &str, dst: &str) -> (out: Result<Command, String>)
    ensures
        if has_nul(src@) {
            refuses_nul(out, "src"@)
        } else if has_nul(dst@) {
            refuses_nul(out, "dst"@)
        } else {
            sets_up(
                out,
                FsCallView::Link { src: src@, dst: dst@ },
                label_two("link"@, src@, " -> "@, dst@),
            )
        },
{
    if let Err(e) = c_text("src", src) {
        return Err(e);
    }
    if let Err(e) = c_text("dst", dst) {
        return Err(e);
    }
    let call = FsCall::Link { src: src.to_owned(), dst: dst.to_owned() };
    Ok(Command { call, label: two("link", src, " -> ", dst) })
}

/// Whether a rename was set up with the given flags, or refused because of a
/// NUL.
pub open spec fn renames(
    out: Result<Command, String>,
    src: Seq<char>,
    dst: Seq<char>,
    flags: i32,
) -> bool {
    if has_nul(src) {
        refuses_nul(out, "src"@)
    } else if has_nul(dst) {
        refuses_nul(out, "dst"@)
    } else {
        sets_up(
            out,
            FsCallView::Rename { src, dst, flags },
            label_two("rename"@, src, " -> "@, dst),
        )
    }
}

fn rename_with(src: &str, dst: &str, flags: i32) -> (out: Result<Command, String>)
    ensures
        renames(out, src@, dst@, flags),
{
    if let Err(e) = c_text("src", src) {
        return Err(e);
    }
    if let Err(e) = c_text("dst", dst) {
        return Err(e);
    }
    let call = FsCall::Rename { src: src.to_owned(), dst: dst.to_owned(), flags };
    Ok(Command { call, label: two("rename", src, " -> ", dst) })
}

/// Renames `src` to `dst`, which may not exist.
pub fn rename(src: &str, dst: &str) -> (out: Result<Command, String>)
    ensures
        renames(out, src@, dst@, 0),
{
    rename_with(src, dst, 0)
}

/// Renames `src` to `dst`, and replaces `dst` where it exists.
pub fn rename_replacing(src: &str, dst: &str) -> (out: Result<Command, String>)
    ensures
        renames(out, src@, dst@, RENAME_REPLACE),
{
    rename_with(src, dst, RENAME_REPLACE)
}

/// Changes the mode of a file. Only the low sixteen bits reach it.
pub fn chmod(path: &str, mode: u32) -> (out: Result<Command, String>)
    ensures
        if has_nul(path@) {
            refuses_nul(out, "path"@)
        } else {
            sets_up(
                out,
                FsCallView::Chmod { path: path@, mode: mode as u16 },
                label_more("chmod"@, path@, "0o"@ + oct(mode as nat)),
            )
        },
{
    if let Err(e) = c_text("path", path) {
        return Err(e);
    }
    let mut shown = "0o".to_owned();
    shown.append(radix_text(mode as u64, 8).as_str());
    let low: u16 = #[verifier::truncate]
    (mode as u16);
    let call = FsCall::Chmod { path: path.to_owned(), mode: low };
    Ok(Command { call, label: more("chmod", path, shown.as_str()) })
}

/// Changes the owner and the group of a file.
pub fn chown(path: &str, uid: u32, gid: u32) -> (out: Result<Command, String>)
    ensures
        if has_nul(path@) {
            refuses_nul(out, "path"@)
        } else {
            sets_up(
                out,
                FsCallView::Chown { path: path@, uid, gid },
                label_more("chown"@, path@, dec(uid as nat) + ", "@ + dec(gid as nat)),
            )
        },
{
    if let Err(e) = c_text("path", path) {
        return Err(e);
    }
    let mut shown = dec_text(uid as u64);
    shown.append(", ");
    shown.append(dec_text(gid as u64).as_str());
    let call = FsCall::Chown { path: path.to_owned(), uid, gid };
    Ok(Command { call, label: more("chown", path, shown.as_str()) })
}

/// Sets the inode flags of a file.
pub fn setflags(path: &str, flags: u32) -> (out: Result<Command, String>)
    ensures
        if has_nul(path@) {
            refuses_nul(out, "path"@)
        } else {
            sets_up(
                out,
                FsCallView::SetFlags { path: path@, inode_flags: flags },
                label_more("set_flags"@, path@, "0x"@ + pad_left(hex(flags as nat), 8, '0')),
            )
        },
{
    if let Err(e) = c_text("path", path) {
        return Err(e);
    }
    let mut shown = "0x".to_owned();
    shown.append(hex_text(flags as u64, 8).as_str());
    let call = FsCall::SetFlags { path: path.to_owned(), inode_flags: flags };
    Ok(Command { call, label: more("set_flags", path, shown.as_str()) })
}

/// Makes a special file.
pub fn mknod(path: &str, mode: u16, major: u32, minor: u32) -> (out: Result<Command, String>)
    ensures
        if has_nul(path@) {
            refuses_nul(out, "path"@)
        } else {
            sets_up(
                out,
                FsCallView::Mknod { path: path@, mode, major, minor },
                label_more(
                    "mknod"@,
                    path@,
                    "mode=0o"@ + oct(mode as nat) + ", "@ + dec(major as nat) + ":"@ + dec(
                        minor as nat,
                    ),
                ),
            )
        },
{
    if let Err(e) = c_text("path", path) {
        return Err(e);
    }
    let mut shown = "mode=0o".to_owned();
    shown.append(radix_text(mode as u64, 8).as_str());
    shown.append(", ");
    shown.append(dec_text(major as u64).as_str());
    shown.append(":");
    shown.append(dec_text(minor as u64).as_str());
    let call = FsCall::Mknod { path: path.to_owned(), mode, major, minor };
    Ok(Command { call, label: more("mknod", path, shown.as_str()) })
}

/// Makes a directory.
pub fn mkdir(path: &str) -> (out: Result<Command, String>)
    ensures
        if has_nul(path@) {
            refuses_nul(out, "path"@)
        } else {
            sets_up(
                out,
                FsCallView::Mkdir { path: path@, mode: MKDIR_MODE },
                label_one("mkdir"@, path@),
            )
        },
{
    if let Err(e) = c_text("path", path) {
        return Err(e);
    }
    let call = FsCall::Mkdir { path: path.to_owned(), mode: MKDIR_MODE };
    Ok(Command { call, label: one("mkdir", path) })
}

/// Removes an empty directory.
pub fn rmdir(path: &str) -> (out: Result<Command, String>)
    ensures
        if has_nul(path@) {
            refuses_nul(out, "path"@)
        } else {
            sets_up(out, FsCallView::Rmdir { path: path@ }, label_one("rmdir"@, path@))
        },
{
    if let Err(e) = c_text("path", path) {
        return Err(e);
    }
    Ok(Command { call: FsCall::Rmdir { path: path.to_owned() }, label: one("rmdir", path) })
}

/// Removes a file.
pub fn unlink(path: &str) -> (out: Result<Command, String>)
    ensures
        if has_nul(path@) {
            refuses_nul(out, "path"@)
        } else {
            sets_up(out, FsCallView::Unlink { path: path@ }, label_one("unlink"@, path@))
        },
{
    if let Err(e) = c_text("path", path) {
        return Err(e);
    }
    Ok(Command { call: FsCall::Unlink { path: path.to_owned() }, label: one("unlink", path) })
}

/// Gives a file a new size.
pub fn truncate(path: &str, size: u64) -> (out: Result<Command, String>)
    ensures
        if has_nul(path@) {
            refuses_nul(out, "path"@)
        } else {
            sets_up(
                out,
                FsCallView::Truncate { path: path@, size },
                label_more("truncate"@, path@, dec(size as nat)),
            )
        },
{
    if let Err(e) = c_text("path", path) {
        return Err(e);
    }
    let call = FsCall::Truncate { path: path.to_owned(), size };
    Ok(Command { call, label: more("truncate", path, dec_text(size).as_str()) })
}

/// Reserves room for a file, or punches a hole into it.
pub fn fallocate(path: &str, offset: u64, len: u64, flags: i32) -> (out: Result<Command, String>)
    ensures
        if has_nul(path@) {
            refuses_nul(out, "path"@)
        } else {
            sets_up(
                out,
                FsCallView::Fallocate { path: path@, offset, len, flags },
                label_more(
                    "fallocate"@,
                    path@,
                    "offset="@ + dec(offset as nat) + ", len="@ + dec(len as nat) + ", flags=0x"@
                        + hex((flags as u32) as nat),
                ),
            )
        },
{
    if let Err(e) = c_text("path", path) {
        return Err(e);
    }
    let word: u32 = #[verifier::truncate]
    (flags as u32);
    let mut shown = "offset=".to_owned();
    shown.append(dec_text(offset).as_str());
    shown.append(", len=");
    shown.append(dec_text(len).as_str());
    shown.append(", flags=0x");
    shown.append(radix_text(word as u64, 16).as_str());
    let call = FsCall::Fallocate { path: path.to_owned(), offset, len, flags };
    Ok(Command { call, label: more("fallocate", path, shown.as_str()) })
}

// ---------------------------------------------------------------------------
// Writing a file
// ---------------------------------------------------------------------------

/// A file that is being written: `len` bytes are to be its contents.
pub struct SaveRun {
    pub path: String,
    pub len: u64,
}

/// How the writing of a file goes on.
#[derive(Clone, Copy, Debug, PartialEq, Eq, Structural)]
pub enum SaveStep {
    /// The file is made, with [`CREATE_MODE`].
    Create,
    /// It is emptied.
    Truncate,
    /// The bytes are written to its start.
    Write,
    /// It is done.
    Done,
}

/// The first step of writing a file: one that does not exist is made.
pub open spec fn save_start(present: bool) -> SaveStep {
    if present {
        SaveStep::Truncate
    } else {
        SaveStep::Create
    }
}

/// What follows a step of writing `len` bytes, or `None` where it failed. The
/// reply is the inode that was made, the code of the truncation, or the result
/// of the write.
pub open spec fn save_next(len: nat, step: SaveStep, reply: int) -> Option<SaveStep> {
    match step {
        SaveStep::Create => if reply == 0 {
            None
        } else {
            Some(SaveStep::Truncate)
        },
        SaveStep::Truncate => if reply != 0 {
            None
        } else if len == 0 {
            Some(SaveStep::Done)
        } else {
            Some(SaveStep::Write)
        },
        SaveStep::Write => if reply < len {
            None
        } else {
            Some(SaveStep::Done)
        },
        SaveStep::Done => Some(SaveStep::Done),
    }
}

/// Begins to write a file: it is looked at first.
pub fn write_file(path: &str, len: usize) -> (out: Result<SaveRun, String>)
    ensures
        if has_nul(path@) {
            out matches Err(e) && e@ == "path"@ + " contains NUL byte"@
        } else {
            out matches Ok(r) && r.path@ == path@ && r.len == len
        },
{
    if let Err(e) = c_text("path", path) {
        return Err(e);
    }
    Ok(SaveRun { path: path.to_owned(), len: len as u64 })
}

impl SaveRun {
    /// Goes on once the file was looked at: one that does not exist is made.
    pub fn on_stat(&self, present: bool) -> (step: SaveStep)
        ensures
            step == save_start(present),
    {
        if present {
            SaveStep::Truncate
        } else {
            SaveStep::Create
        }
    }

    /// Goes on once the file was made. Inode zero stands for a failure.
    pub fn on_created(&self, inode: u32, reason: &str) -> (out: Result<SaveStep, String>)
        ensures
            match save_next(self.len as nat, SaveStep::Create, inode as int) {
                Some(step) => out == Ok::<SaveStep, String>(step),
                None => out matches Err(e) && e@ == call_failure("create"@, self.path@, reason@),
            },
    {
        if inode == 0 {
            Err(call_failed("create", self.path.as_str(), reason))
        } else {
            Ok(SaveStep::Truncate)
        }
    }

    /// Goes on once the file was emptied: nothing is written where there are
    /// no bytes.
    pub fn on_truncated(&self, code: i32, reason: &str) -> (out: Result<SaveStep, String>)
        ensures
            match save_next(self.len as nat, SaveStep::Truncate, code as int) {
                Some(step) => out == Ok::<SaveStep, String>(step),
                None => out matches Err(e) && e@ == label_more("truncate"@, self.path@, "0"@)
                    + " failed: "@ + reason@,
            },
    {
        if code != 0 {
            let mut e = more("truncate", self.path.as_str(), "0");
            e.append(" failed: ");
            e.append(reason);
            Err(e)
        } else if self.len == 0 {
            Ok(SaveStep::Done)
        } else {
            Ok(SaveStep::Write)
        }
    }

    /// Settles the write of the bytes.
    pub fn on_written(&self, written: i64, reason: &str) -> (out: Result<SaveStep, String>)
        ensures
            match save_next(self.len as nat, SaveStep::Write, written as int) {
                Some(step) => out == Ok::<SaveStep, String>(step),
                None => out matches Err(e) && e@ == if written < 0 {
                    call_failure("pwrite"@, self.path@, reason@)
                } else {
                    label_one("pwrite"@, self.path@) + ": short write ("@ + signed_dec(
                        written as int,
                    ) + " < "@ + dec(self.len as nat) + ")"@
                },
            },
    {
        if written < 0 {
            return Err(call_failed("pwrite", self.path.as_str(), reason));
        }
        if (written as u64) < self.len {
            let mut e = one("pwrite", self.path.as_str());
            e.append(": short write (");
            e.append(signed_dec_text(written).as_str());
            e.append(" < ");
            e.append(dec_text(self.len).as_str());
            e.append(")");
            return Err(e);
        }
        Ok(SaveStep::Done)
    }
}

/// The contents of a file once a step succeeded, where `file` was there before;
/// `None` stands for a file that does not exist. A new file is empty, so is one
/// that was cut to size zero, and a write to the start replaces as many bytes
/// as it has.
pub open spec fn step_effect(file: Option<Seq<u8>>, step: SaveStep, bytes: Seq<u8>) -> Option<
    Seq<u8>,
> {
    match (step, file) {
        (SaveStep::Create, _) => Some(Seq::empty()),
        (SaveStep::Truncate, Some(contents)) => Some(contents.take(0)),
        (SaveStep::Write, Some(contents)) => Some(
            bytes + contents.skip(
                if bytes.len() < contents.len() {
                    bytes.len() as int
                } else {
                    contents.len() as int
                },
            ),
        ),
        _ => file,
    }
}

/// The file once the writing of it is done, from `step` on and with the given
/// replies to the steps; `None` where a step fails or a reply is missing.
pub open spec fn saved(
    file: Option<Seq<u8>>,
    step: SaveStep,
    bytes: Seq<u8>,
    replies: Seq<int>,
) -> Option<Option<Seq<u8>>>
    decreases replies.len(),
{
    if step == SaveStep::Done {
        Some(file)
    } else if replies.len() == 0 {
        None
    } else {
        match save_next(bytes.len(), step, replies[0]) {
            None => None,
            Some(next) => saved(
                step_effect(file, step, bytes),
                next,
                bytes,
                replies.skip(1),
            ),
        }
    }
}

proof fn lemma_saved(file: Option<Seq<u8>>, step: SaveStep, bytes: Seq<u8>, replies: Seq<int>)
    requires
        match step {
            SaveStep::Create => true,
            SaveStep::Truncate => file is Some,
            SaveStep::Write => file == Some(Seq::<u8>::empty()),
            SaveStep::Done => file == Some(bytes),
        },
    ensures
        saved(file, step, bytes, replies) matches Some(end) ==> end == Some(bytes),
    decreases replies.len(),
{
    if step != SaveStep::Done && replies.len() > 0 {
        if let Some(next) = save_next(bytes.len(), step, replies[0]) {
            let after = step_effect(file, step, bytes);
            if step == SaveStep::Truncate {
                assert(after->0 =~= Seq::empty());
                if bytes.len() == 0 {
                    assert(bytes =~= Seq::empty());
                }
            }
            if step == SaveStep::Write {
                assert(after->0 =~= bytes);
            }
            lemma_saved(after, next, bytes, replies.skip(1));
        }
    }
}

/// Whatever the replies, a file whose writing is done holds exactly the given
/// bytes, and nothing of what it held before. Where no step fails, it is done
/// once all of them were made.
pub proof fn law_saved_file_holds_the_bytes(
    file: Option<Seq<u8>>,
    bytes: Seq<u8>,
    replies: Seq<int>,
    inode: int,
    written: int,
)
    ensures
        saved(file, save_start(file is Some), bytes, replies) matches Some(end) ==> end == Some(
            bytes,
        ),
        inode != 0 && written >= bytes.len() ==> saved(
            file,
            save_start(file is Some),
            bytes,
            if file is Some {
                seq![0, written]
            } else {
                seq![inode, 0, written]
            },
        ) == Some(Some(bytes)),
{
    lemma_saved(file, save_start(file is Some), bytes, replies);
    if inode != 0 && written >= bytes.len() {
        let tail: Seq<int> = seq![0, written];
        let made: Seq<int> = seq![inode, 0, written];
        reveal_with_fuel(saved, 4);
        assert(made.skip(1) =~= tail);
        assert(tail.skip(1) =~= seq![written]);
        let used = if file is Some {
            tail
        } else {
            made
        };
        lemma_saved(file, save_start(file is Some), bytes, used);
    }
}

/// A file that is being touched.
pub struct TouchRun {
    pub path: String,
}

/// The first step of touching a file: one that exists is left alone.
pub open spec fn touch_start(present: bool) -> SaveStep {
    if present {
        SaveStep::Done
    } else {
        SaveStep::Create
    }
}

/// A file that exists is not changed by a touch, and one that does not is empty
/// once it was made.
pub proof fn law_touch_leaves_a_file_alone(file: Option<Seq<u8>>, bytes: Seq<u8>)
    ensures
        step_effect(file, touch_start(file is Some), bytes) == match file {
            Some(contents) => Some(contents),
            None => Some(Seq::empty()),
        },
{
}

/// Begins to touch a file: it is looked at first.
pub fn touch(path: &str) -> (out: Result<TouchRun, String>)
    ensures
        if has_nul(path@) {
            out matches Err(e) && e@ == "path"@ + " contains NUL byte"@
        } else {
            out matches Ok(r) && r.path@ == path@
        },
{
    if let Err(e) = c_text("path", path) {
        return Err(e);
    }
    Ok(TouchRun { path: path.to_owned() })
}

impl TouchRun {
    /// Goes on once the file was looked at: one that exists is left alone.
    pub fn on_stat(&self, present: bool) -> (step: SaveStep)
        ensures
            step == touch_start(present),
    {
        if present {
            SaveStep::Done
        } else {
            SaveStep::Create
        }
    }

    /// Settles the making of the file. Inode zero stands for a failure.
    pub fn on_created(&self, inode: u32, reason: &str) -> (out: Result<SaveStep, String>)
        ensures
            if inode == 0 {
                out matches Err(e) && e@ == call_failure("create"@, self.path@, reason@)
            } else {
                out == Ok::<SaveStep, String>(SaveStep::Done)
            },
    {
        if inode == 0 {
            Err(call_failed("create", self.path.as_str(), reason))
        } else {
            Ok(SaveStep::Done)
        }
    }
}

// ---------------------------------------------------------------------------
// Links and attributes
// ---------------------------------------------------------------------------

/// Bytes as text, or what stands in for bytes that are not UTF-8.
pub open spec fn text_or(bytes: Seq<u8>, otherwise: Seq<char>) -> Seq<char> {
    if valid_utf8(bytes) {
        decode_utf8(bytes)
    } else {
        otherwise
    }
}

fn str_or(bytes: &[u8], otherwise: &str) -> (out: String)
    ensures
        out@ == text_or(bytes@, otherwise@),
{
    match strict_str(bytes) {
        Some(s) => s.to_owned(),
        None => otherwise.to_owned(),
    }
}

/// What `readlink` prints: the target of a link, from what a read of it gave.
pub fn readlink(path: &str, count: i32, buf: &[u8], reason: &str) -> (out: Result<String, String>)
    requires
        count <= buf@.len(),
    ensures
        if count < 0 {
            out matches Err(e) && e@ == call_failure("readlink"@, path@, reason@)
        } else {
            out matches Ok(s) && s@ == text_or(
                link_bytes(count as int, buf@),
                "<invalid utf-8>"@,
            )
        },
{
    if count < 0 {
        return Err(call_failed("readlink", path, reason));
    }
    let target = link_target(count, buf);
    Ok(str_or(target.as_slice(), "<invalid utf-8>"))
}

/// The size of the list of attribute names to read, or `None` where the file
/// has no attributes.
pub fn listxattr_size(path: &str, needed: i64, reason: &str) -> (out: Result<Option<u64>, String>)
    ensures
        if needed < 0 {
            out matches Err(e) && e@ == call_failure("listxattr"@, path@, reason@)
        } else if needed == 0 {
            out == Ok::<Option<u64>, String>(None)
        } else {
            out == Ok::<Option<u64>, String>(Some(needed as u64))
        },
{
    if needed < 0 {
        return Err(call_failed("listxattr", path, reason));
    }
    if needed == 0 {
        Ok(None)
    } else {
        Ok(Some(needed as u64))
    }
}

/// What `listxattr` prints: the attribute names in the first `count` bytes of
/// the list, one per line.
pub fn listxattr(path: &str, count: i64, list: &[u8], reason: &str) -> (out: Result<
    Vec<String>,
    String,
>)
    requires
        count <= list@.len(),
    ensures
        if count < 0 {
            out matches Err(e) && e@ == call_failure("listxattr"@, path@, reason@)
        } else {
            out matches Ok(lines) && views(lines@) == names_from(
                list@,
                count as int,
                0,
            ).map_values(|n: Seq<u8>| text_or(n, "<invalid>"@))
        },
{
    if count < 0 {
        return Err(call_failed("listxattr", path, reason));
    }
    proof {
        assert(list.len() == list@.len());
    }
    let names = xattr_names(list, count as usize);
    let mut lines: Vec<String> = Vec::new();
    for i in 0..names.len()
        invariant
            lines@.len() == i,
            forall|k: int|
                0 <= k < i ==> (#[trigger] lines@[k])@ == text_or(names@[k]@, "<invalid>"@),
    {
        lines.push(str_or(names[i].as_slice(), "<invalid>"));
    }
    proof {
        assert(views(lines@) =~= byte_views(names@).map_values(
            |n: Seq<u8>| text_or(n, "<invalid>"@),
        ));
    }
    Ok(lines)
}

/// The size of the value to read, or `None` where it is empty.
pub fn getxattr_size(path: &str, name: &str, needed: i64, reason: &str) -> (out: Result<
    Option<u64>,
    String,
>)
    ensures
        if needed < 0 {
            out matches Err(e) && e@ == label_two("getxattr"@, path@, ", "@, name@) + " failed: "@
                + reason@
        } else if needed == 0 {
            out == Ok::<Option<u64>, String>(None)
        } else {
            out == Ok::<Option<u64>, String>(Some(needed as u64))
        },
{
    if needed < 0 {
        let mut e = two("getxattr", path, ", ", name);
        e.append(" failed: ");
        e.append(reason);
        return Err(e);
    }
    if needed == 0 {
        Ok(None)
    } else {
        Ok(Some(needed as u64))
    }
}

/// What `getxattr` writes: the value that a read gave, byte for byte.
pub fn getxattr<'a>(path: &str, name: &str, count: i64, buf: &'a [u8], reason: &str) -> (out: Result<
    &'a [u8],
    String,
>)
    requires
        count <= buf@.len(),
    ensures
        if count < 0 {
            out matches Err(e) && e@ == label_two("getxattr"@, path@, ", "@, name@) + " failed: "@
                + reason@
        } else {
            out matches Ok(v) && v@ == buf@.take(count as int)
        },
{
    match value_read(count, buf) {
        Some(v) => Ok(v),
        None => {
            let mut e = two("getxattr", path, ", ", name);
            e.append(" failed: ");
            e.append(reason);
            Err(e)
        },
    }
}

/// A call that makes something answers with its inode, which is never zero, and
/// zero where it failed; any other call answers zero where it worked.
pub proof fn law_answers_are_understood(call: FsCallView, answer: i64)
    ensures
        call is Symlink || call is Mknod || call is Mkdir ==> (succeeded(call, answer) <==> answer
            != 0),
        !(call is Symlink || call is Mknod || call is Mkdir) ==> (succeeded(call, answer)
            <==> answer == 0),
{
}

/// A label names the call, with its paths quoted and in their order.
pub proof fn law_labels_name_the_call(
    call: Seq<char>,
    a: Seq<char>,
    between: Seq<char>,
    b: Seq<char>,
)
    ensures
        label_one(call, a) == call + seq!['('] + debug_text(a) + seq![')'],
        label_two(call, a, between, b) == call + seq!['('] + debug_text(a) + between + debug_text(
            b,
        ) + seq![')'],
        label_more(call, a, b) == call + seq!['('] + debug_text(a) + seq![',', ' '] + b + seq![')'],
{
    reveal_strlit("(");
    reveal_strlit(")");
    reveal_strlit(", ");
    assert("("@ =~= seq!['(']);
    assert(")"@ =~= seq![')']);
    assert(", "@ =~= seq![',', ' ']);
}

/// What is UTF-8 is shown as it is, and anything else as the given text.
pub proof fn law_shown_as_text_where_it_is_text(
    text: Seq<char>,
    bytes: Seq<u8>,
    otherwise: Seq<char>,
)
    ensures
        text_or(vstd::utf8::encode_utf8(text), otherwise) == text,
        !valid_utf8(bytes) ==> text_or(bytes, otherwise) == otherwise,
{
    vstd::utf8::encode_utf8_valid_utf8(text);
    vstd::utf8::encode_utf8_decode_utf8(text);
}

/// Saving makes a file only where there is none, empties it in any case, and
/// writes only where there is something to write. It fails at the first call
/// that fails, and a write that falls short is one.
pub proof fn law_saving_goes_step_by_step(len: nat, reply: int)
    ensures
        save_start(false) == SaveStep::Create,
        save_start(true) == SaveStep::Truncate,
        touch_start(false) == SaveStep::Create,
        touch_start(true) == SaveStep::Done,
        save_next(len, SaveStep::Create, reply) is None <==> reply == 0,
        reply != 0 ==> save_next(len, SaveStep::Create, reply) == Some(SaveStep::Truncate),
        save_next(len, SaveStep::Truncate, reply) is None <==> reply != 0,
        len > 0 ==> save_next(len, SaveStep::Truncate, 0) == Some(SaveStep::Write),
        save_next(0, SaveStep::Truncate, 0) == Some(SaveStep::Done),
        save_next(len, SaveStep::Write, reply) is None <==> reply < len,
        reply >= len ==> save_next(len, SaveStep::Write, reply) == Some(SaveStep::Done),
{
}

/// A command is set up with its call and its label, or refused for a NUL in what
/// it names; a rename is one with its two paths in their order.
pub proof fn law_commands_are_set_up_or_refused(
    out: Result<Command, String>,
    src: Seq<char>,
    dst: Seq<char>,
    flags: i32,
)
    ensures
        renames(out, src, dst, flags) && !src.contains('\0') && !dst.contains('\0') ==> {
            &&& out matches Ok(c) && c.call@ == (FsCallView::Rename { src, dst, flags })
            &&& out->Ok_0.label@ == "rename"@ + "("@ + debug_text(src) + " -> "@ + debug_text(dst)
                + ")"@
        },
        renames(out, src, dst, flags) && src.contains('\0') ==> {
            out matches Err(e) && e@ == "src"@ + " contains NUL byte"@
        },
        renames(out, src, dst, flags) && !src.contains('\0') && dst.contains('\0') ==> {
            out matches Err(e) && e@ == "dst"@ + " contains NUL byte"@
        },
        out matches Ok(c) ==> sets_up(out, c.call@, c.label@) && !refuses_nul(out, src),
        out matches Err(e) ==> (refuses_nul(out, src) <==> e@ == src + " contains NUL byte"@),
{
}

/// A call is seen as what it holds, with no two of its arguments exchanged.
#[verifier::rlimit(40)]
pub proof fn law_calls_are_seen_as_they_are(call: FsCall)
    ensures
        match call {
            FsCall::Setxattr { path, name, value } => call@ == (FsCallView::Setxattr {
                path: path@,
                name: name@,
                value: value@,
            }),
            FsCall::Removexattr { path, name } => call@ == (FsCallView::Removexattr {
                path: path@,
                name: name@,
            }),
            FsCall::Symlink { target, linkpath } => call@ == (FsCallView::Symlink {
                target: target@,
                linkpath: linkpath@,
            }),
            FsCall::Link { src, dst } => call@ == (FsCallView::Link { src: src@, dst: dst@ }),
            FsCall::Chmod { path, mode } => call@ == (FsCallView::Chmod { path: path@, mode }),
            FsCall::Chown { path, uid, gid } => call@ == (FsCallView::Chown {
                path: path@,
                uid,
                gid,
            }),
            FsCall::SetFlags { path, inode_flags } => call@ == (FsCallView::SetFlags {
                path: path@,
                inode_flags,
            }),
            FsCall::Mknod { path, mode, major, minor } => call@ == (FsCallView::Mknod {
                path: path@,
                mode,
                major,
                minor,
            }),
            FsCall::Mkdir { path, mode } => call@ == (FsCallView::Mkdir { path: path@, mode }),
            FsCall::Rmdir { path } => call@ == (FsCallView::Rmdir { path: path@ }),
            FsCall::Unlink { path } => call@ == (FsCallView::Unlink { path: path@ }),
            FsCall::Truncate { path, size } => call@ == (FsCallView::Truncate { path: path@, size }),
            FsCall::Rename { src, dst, flags } => call@ == (FsCallView::Rename {
                src: src@,
                dst: dst@,
                flags,
            }),
            FsCall::Fallocate { path, offset, len, flags } => call@ == (FsCallView::Fallocate {
                path: path@,
                offset,
                len,
                flags,
            }),
        },
{
}

/// What is made may be written by its owner alone, and a directory searched by
/// all.
pub proof fn law_modes_of_what_is_made()
    ensures
        MKDIR_MODE == 0o755,
        CREATE_MODE == 0o644,
{
}

}
