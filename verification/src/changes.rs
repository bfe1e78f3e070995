//! The requests that change a mounted volume. All of them are refused where it
//! was opened for reading only.

use vstd::prelude::*;

use crate::attr::{
    info_of, populate_file_info, unwritable, with_readonly, Attr, FileInfo, Found,
    ATTRIBUTE_READONLY, WRITE_BITS,
};
use crate::context::{
    code_result, content_refusal, metadata_refusal, named_path, no_such_name, reattributed,
    refreshed, settle_code, sound, write_protected, Ext4Context, Ext4FileContext, FileView,
};
use crate::path::winpath_to_unix;
use crate::status::{refused, reported, Failure, NtStatus};
use crate::text::{contains_nul, has_nul};

verus! {

/// The flag bit of a cleanup that deletes the file.
pub const CLEANUP_DELETE: u32 = 0x1;

/// The attributes of a request that leaves them alone.
pub const INVALID_FILE_ATTRIBUTES: u32 = 0xFFFF_FFFF;

/// The seconds that leave a timestamp alone.
pub const TIME_UNCHANGED: i64 = i64::MIN;

/// The flag of a rename that may replace its destination.
pub const RENAME_REPLACE: i32 = 1;

// ---------------------------------------------------------------------------
// Writing
// ---------------------------------------------------------------------------

/// A write that waits for the lookup of its file.
pub struct WriteCheck {
    pub path: String,
    pub len: u64,
    pub offset: u64,
    pub to_eof: bool,
    pub constrained: bool,
}

/// A write that is about to be made: the first `len` bytes of the request go
/// to `offset`.
pub struct WriteCall {
    pub path: String,
    pub offset: u64,
    pub len: u64,
}

/// How a write goes on once its file was looked up.
pub enum WritePlan {
    /// No byte is accepted; this is the answer.
    Nothing(FileInfo),
    Call(WriteCall),
}

/// A write that was made and waits for another lookup of its file.
pub struct WriteRefresh {
    pub path: String,
    pub len: u64,
}

/// The answer to a write.
#[derive(Clone, Copy, Debug, PartialEq, Eq, Structural)]
pub struct Written {
    pub count: u32,
    pub info: FileInfo,
}

/// Where a write goes: to the end of the file where that is asked for.
pub open spec fn write_position(offset: u64, to_eof: bool, size: u64) -> u64 {
    if to_eof {
        size
    } else {
        offset
    }
}

/// How many bytes of a write are accepted: all, or, where the write may not
/// make the file longer, those that fall inside of it.
pub open spec fn accepted(len: u64, position: u64, constrained: bool, size: u64) -> int {
    if !constrained {
        len as int
    } else if position >= size {
        0
    } else if len > size - position {
        size - position
    } else {
        len as int
    }
}

impl Ext4Context {
    /// A request to write `len` bytes to an open file. The file is looked up
    /// first, for its size may have changed through another handle.
    pub fn write(
        &self,
        file: &Ext4FileContext,
        len: usize,
        offset: u64,
        to_eof: bool,
        constrained: bool,
    ) -> (out: Result<WriteCheck, Failure>)
        ensures
            match content_refusal(self.mount.writable, file@) {
                Some(f) => out == Err::<WriteCheck, Failure>(f),
                None => out matches Ok(w) && {
                    &&& w.path@ == file@.path
                    &&& w.len == len
                    &&& w.offset == offset
                    &&& w.to_eof == to_eof
                    &&& w.constrained == constrained
                },
            },
    {
        match self.content_check(file) {
            Err(f) => Err(f),
            Ok(()) => Ok(
                WriteCheck {
                    path: file.unix_path.clone(),
                    len: len as u64,
                    offset,
                    to_eof,
                    constrained,
                },
            ),
        }
    }
}

impl WriteCheck {
    /// Goes on once the file was looked up.
    pub fn on_lookup(self, reply: Result<Found, Failure>) -> (out: Result<WritePlan, Failure>)
        requires
            sound(reply),
        ensures
            match reply {
                Err(f) => out == Err::<WritePlan, Failure>(f),
                Ok(found) => {
                    let at = write_position(self.offset, self.to_eof, found.attr.size);
                    let n = accepted(self.len, at, self.constrained, found.attr.size);
                    if n == 0 {
                        out == Ok::<WritePlan, Failure>(WritePlan::Nothing(info_of(found)))
                    } else {
                        out matches Ok(WritePlan::Call(c)) && c.path@ == self.path@ && c.offset
                            == at && c.len == n
                    }
                },
            },
    {
        let found = match reply {
            Err(f) => {
                return Err(f);
            },
            Ok(found) => found,
        };
        let size: u64 = found.attr.size;
        let offset: u64 = if self.to_eof {
            size
        } else {
            self.offset
        };
        let mut len: u64 = self.len;
        if self.constrained {
            if offset >= size {
                return Ok(WritePlan::Nothing(populate_file_info(&found)));
            }
            let avail: u64 = size - offset;
            if len > avail {
                len = avail;
            }
        }
        if len == 0 {
            return Ok(WritePlan::Nothing(populate_file_info(&found)));
        }
        Ok(WritePlan::Call(WriteCall { path: self.path, offset, len }))
    }
}

impl WriteCall {
    /// Goes on once the write was made. A negative result is a failure.
    pub fn on_written(self, result: i64, errno: i32) -> (out: Result<WriteRefresh, Failure>)
        ensures
            if result < 0 {
                out == Err::<WriteRefresh, Failure>(reported(errno))
            } else {
                out matches Ok(r) && r.path@ == self.path@ && r.len == self.len
            },
    {
        if result < 0 {
            return Err(Failure::report(errno));
        }
        Ok(WriteRefresh { path: self.path, len: self.len })
    }
}

impl WriteRefresh {
    /// The answer, once the file was looked up again.
    pub fn on_lookup(self, file: &mut Ext4FileContext, reply: Result<Found, Failure>) -> (out:
        Result<Written, Failure>)
        requires
            sound(reply),
        ensures
            match reply {
                Err(f) => out == Err::<Written, Failure>(f) && final(file)@ == old(file)@,
                Ok(found) => {
                    &&& out == Ok::<Written, Failure>(
                        Written { count: self.len as u32, info: info_of(found) },
                    )
                    &&& final(file)@ == refreshed(old(file)@, found)
                },
            },
    {
        match reply {
            Err(f) => Err(f),
            Ok(found) => {
                file.size = found.attr.size;
                file.attr = found.attr;
                let count: u32 = #[verifier::truncate]
                (self.len as u32);
                Ok(Written { count, info: populate_file_info(&found) })
            },
        }
    }
}

/// A write that may not make the file longer does not: what it touches ends
/// inside the file. Any other write is accepted whole. No write is accepted
/// beyond what was asked.
pub proof fn law_constrained_write_stays_inside(
    len: u64,
    offset: u64,
    to_eof: bool,
    constrained: bool,
    size: u64,
)
    ensures
        ({
            let at = write_position(offset, to_eof, size);
            let n = accepted(len, at, constrained, size);
            &&& 0 <= n <= len
            &&& constrained && n > 0 ==> at + n <= size
            &&& !constrained ==> n == len
            &&& constrained && to_eof ==> n == 0
        }),
{
}

// ---------------------------------------------------------------------------
// Changing the size
// ---------------------------------------------------------------------------

/// A change of size that is about to be made.
pub struct TruncateCall {
    pub path: String,
    pub size: u64,
}

/// A change that was made; its file is looked up next.
pub struct Refresh {
    pub path: String,
}

impl Ext4Context {
    /// A request to give an open file a new size.
    pub fn set_file_size(&self, file: &Ext4FileContext, new_size: u64) -> (out: Result<
        TruncateCall,
        Failure,
    >)
        ensures
            match content_refusal(self.mount.writable, file@) {
                Some(f) => out == Err::<TruncateCall, Failure>(f),
                None => out matches Ok(c) && c.path@ == file@.path && c.size == new_size,
            },
    {
        match self.content_check(file) {
            Err(f) => Err(f),
            Ok(()) => Ok(TruncateCall { path: file.unix_path.clone(), size: new_size }),
        }
    }

    /// A request to replace the contents of an open file: it is emptied here,
    /// and writes of the new bytes follow.
    pub fn overwrite(&self, file: &Ext4FileContext) -> (out: Result<TruncateCall, Failure>)
        ensures
            match content_refusal(self.mount.writable, file@) {
                Some(f) => out == Err::<TruncateCall, Failure>(f),
                None => out matches Ok(c) && c.path@ == file@.path && c.size == 0,
            },
    {
        self.set_file_size(file, 0)
    }
}

impl TruncateCall {
    /// Goes on once the size was changed.
    pub fn on_code(self, code: i32, errno: i32) -> (out: Result<Refresh, Failure>)
        ensures
            match code_result(code, errno) {
                Err(f) => out == Err::<Refresh, Failure>(f),
                Ok(()) => out matches Ok(r) && r.path@ == self.path@,
            },
    {
        match settle_code(code, errno) {
            Err(f) => Err(f),
            Ok(()) => Ok(Refresh { path: self.path }),
        }
    }
}

impl Refresh {
    /// The answer, once the file was looked up.
    pub fn on_lookup(self, file: &mut Ext4FileContext, reply: Result<Found, Failure>) -> (out:
        Result<FileInfo, Failure>)
        requires
            sound(reply),
        ensures
            match reply {
                Err(f) => out == Err::<FileInfo, Failure>(f) && final(file)@ == old(file)@,
                Ok(found) => out == Ok::<FileInfo, Failure>(info_of(found)) && final(file)@
                    == refreshed(old(file)@, found),
            },
    {
        match reply {
            Err(f) => Err(f),
            Ok(found) => {
                file.size = found.attr.size;
                file.attr = found.attr;
                Ok(populate_file_info(&found))
            },
        }
    }
}

// ---------------------------------------------------------------------------
// Timestamps and the read-only box
// ---------------------------------------------------------------------------

/// A timestamp: seconds since 1970 and nanoseconds.
#[derive(Clone, Copy, Debug, PartialEq, Eq, Structural)]
pub struct UnixTime {
    pub secs: i64,
    pub nsec: u32,
}

/// A timestamp as the ext4 side takes it, where `None` leaves it alone.
pub open spec fn time_argument(time: Option<UnixTime>) -> UnixTime {
    match time {
        Some(t) => t,
        None => UnixTime { secs: TIME_UNCHANGED, nsec: 0 },
    }
}

/// Timestamps that are about to be set.
pub struct SetTimes {
    pub path: String,
    pub atime: UnixTime,
    pub mtime: UnixTime,
    pub attributes: u32,
}

/// A request that waits for a lookup, to learn the mode that the file has.
pub struct ModeLook {
    pub path: String,
    pub attributes: u32,
}

/// A mode that is about to be set.
pub struct SetMode {
    pub path: String,
    pub mode: u16,
}

/// A change of metadata that was made; its file is looked up next.
pub struct BasicRefresh {
    pub path: String,
}

/// How a change of metadata goes on.
pub enum BasicStep {
    Times(SetTimes),
    Look(ModeLook),
    Mode(SetMode),
    Refresh(BasicRefresh),
}

/// A step of a change of metadata over mathematical paths.
pub enum BasicView {
    Times { path: Seq<char>, atime: UnixTime, mtime: UnixTime, attributes: u32 },
    Look { path: Seq<char>, attributes: u32 },
    Mode { path: Seq<char>, mode: u16 },
    Refresh { path: Seq<char> },
}

impl View for BasicStep {
    type V = BasicView;

    open spec fn view(&self) -> BasicView {
        match *self {
            BasicStep::Times(t) => BasicView::Times {
                path: t.path@,
                atime: t.atime,
                mtime: t.mtime,
                attributes: t.attributes,
            },
            BasicStep::Look(l) => BasicView::Look { path: l.path@, attributes: l.attributes },
            BasicStep::Mode(m) => BasicView::Mode { path: m.path@, mode: m.mode },
            BasicStep::Refresh(r) => BasicView::Refresh { path: r.path@ },
        }
    }
}

/// What follows the timestamps: the mode is looked at where the request names
/// attributes.
pub open spec fn after_times(path: Seq<char>, attributes: u32) -> BasicView {
    if attributes != 0 && attributes != INVALID_FILE_ATTRIBUTES {
        BasicView::Look { path, attributes }
    } else {
        BasicView::Refresh { path }
    }
}

/// How a change of metadata begins: with the timestamps, where one is given.
pub open spec fn basic_start(
    path: Seq<char>,
    attributes: u32,
    atime: Option<UnixTime>,
    mtime: Option<UnixTime>,
) -> BasicView {
    let a = time_argument(atime);
    let m = time_argument(mtime);
    if a.secs != TIME_UNCHANGED || m.secs != TIME_UNCHANGED {
        BasicView::Times { path, atime: a, mtime: m, attributes }
    } else {
        after_times(path, attributes)
    }
}

/// Whether the attributes tick the read-only box.
pub open spec fn wants_readonly(attributes: u32) -> bool {
    attributes & ATTRIBUTE_READONLY != 0
}

/// What follows the lookup: the mode is set only where the box changes.
pub open spec fn after_look(path: Seq<char>, attributes: u32, mode: u16) -> BasicView {
    if wants_readonly(attributes) != unwritable(mode) {
        BasicView::Mode { path, mode: with_readonly(mode, wants_readonly(attributes)) }
    } else {
        BasicView::Refresh { path }
    }
}

fn times_done(path: String, attributes: u32) -> (step: BasicStep)
    ensures
        step@ == after_times(path@, attributes),
{
    if attributes != 0 && attributes != INVALID_FILE_ATTRIBUTES {
        BasicStep::Look(ModeLook { path, attributes })
    } else {
        BasicStep::Refresh(BasicRefresh { path })
    }
}

impl Ext4Context {
    /// A request to change the attributes and timestamps of an open file.
    /// `None` leaves a timestamp alone.
    pub fn set_basic_info(
        &self,
        file: &Ext4FileContext,
        attributes: u32,
        last_access: Option<UnixTime>,
        last_write: Option<UnixTime>,
    ) -> (out: Result<BasicStep, Failure>)
        ensures
            match metadata_refusal(self.mount.writable, file@) {
                Some(f) => out == Err::<BasicStep, Failure>(f),
                None => out matches Ok(s) && s@ == basic_start(
                    file@.path,
                    attributes,
                    last_access,
                    last_write,
                ),
            },
    {
        if let Err(f) = self.metadata_check(file) {
            return Err(f);
        }
        let path = file.unix_path.clone();
        let atime = match last_access {
            Some(t) => t,
            None => UnixTime { secs: TIME_UNCHANGED, nsec: 0 },
        };
        let mtime = match last_write {
            Some(t) => t,
            None => UnixTime { secs: TIME_UNCHANGED, nsec: 0 },
        };
        if atime.secs != TIME_UNCHANGED || mtime.secs != TIME_UNCHANGED {
            Ok(BasicStep::Times(SetTimes { path, atime, mtime, attributes }))
        } else {
            Ok(times_done(path, attributes))
        }
    }
}

impl SetTimes {
    /// Goes on once the timestamps were set.
    pub fn on_code(self, code: i32, errno: i32) -> (out: Result<BasicStep, Failure>)
        ensures
            match code_result(code, errno) {
                Err(f) => out == Err::<BasicStep, Failure>(f),
                Ok(()) => out matches Ok(s) && s@ == after_times(self.path@, self.attributes),
            },
    {
        match settle_code(code, errno) {
            Err(f) => Err(f),
            Ok(()) => Ok(times_done(self.path, self.attributes)),
        }
    }
}

impl ModeLook {
    /// Goes on once the file was looked up.
    pub fn on_lookup(self, reply: Result<Found, Failure>) -> (out: Result<BasicStep, Failure>)
        ensures
            match reply {
                Err(f) => out == Err::<BasicStep, Failure>(f),
                Ok(found) => out matches Ok(s) && s@ == after_look(
                    self.path@,
                    self.attributes,
                    found.attr.mode,
                ),
            },
    {
        let mode: u16 = match reply {
            Err(f) => {
                return Err(f);
            },
            Ok(found) => found.attr.mode,
        };
        let want: bool = self.attributes & ATTRIBUTE_READONLY != 0;
        let is: bool = mode & WRITE_BITS == 0;
        if want != is {
            let mode: u16 = if want {
                mode & !WRITE_BITS
            } else {
                mode | WRITE_BITS
            };
            Ok(BasicStep::Mode(SetMode { path: self.path, mode }))
        } else {
            Ok(BasicStep::Refresh(BasicRefresh { path: self.path }))
        }
    }
}

impl SetMode {
    /// Goes on once the mode was set.
    pub fn on_code(self, code: i32, errno: i32) -> (out: Result<BasicRefresh, Failure>)
        ensures
            match code_result(code, errno) {
                Err(f) => out == Err::<BasicRefresh, Failure>(f),
                Ok(()) => out matches Ok(r) && r.path@ == self.path@,
            },
    {
        match settle_code(code, errno) {
            Err(f) => Err(f),
            Ok(()) => Ok(BasicRefresh { path: self.path }),
        }
    }
}

impl BasicRefresh {
    /// The answer, once the file was looked up.
    pub fn on_lookup(self, file: &mut Ext4FileContext, reply: Result<Found, Failure>) -> (out:
        Result<FileInfo, Failure>)
        requires
            sound(reply),
        ensures
            match reply {
                Err(f) => out == Err::<FileInfo, Failure>(f) && final(file)@ == old(file)@,
                Ok(found) => out == Ok::<FileInfo, Failure>(info_of(found)) && final(file)@
                    == reattributed(old(file)@, found),
            },
    {
        match reply {
            Err(f) => Err(f),
            Ok(found) => {
                file.attr = found.attr;
                Ok(populate_file_info(&found))
            },
        }
    }
}

/// The mode that a file has once the step after the lookup was made.
pub open spec fn mode_after(step: BasicView, mode: u16) -> u16 {
    match step {
        BasicView::Mode { path, mode: new } => new,
        _ => mode,
    }
}

/// The read-only box shows afterwards what the request asked for, and bits
/// other than the write bits keep their value. A request that asks for what
/// the file already shows sets no mode.
pub proof fn law_readonly_box(path: Seq<char>, attributes: u32, attr: Attr)
    ensures
        ({
            let step = after_look(path, attributes, attr.mode);
            let new = mode_after(step, attr.mode);
            &&& unwritable(new) == wants_readonly(attributes)
            &&& new & !WRITE_BITS == attr.mode & !WRITE_BITS
            &&& unwritable(attr.mode) == wants_readonly(attributes) ==> step is Refresh
        }),
{
    crate::attr::law_readonly_round_trip(attr, wants_readonly(attributes));
}

// ---------------------------------------------------------------------------
// Renaming and deleting
// ---------------------------------------------------------------------------

/// A rename that is about to be made.
pub struct RenameCall {
    pub src: String,
    pub dst: String,
    pub flags: i32,
}

/// What a rename refuses, or the two paths that it joins.
pub open spec fn rename_paths(writable: bool, name: Seq<u16>, new_name: Seq<u16>) -> Result<
    (Seq<char>, Seq<char>),
    Failure,
> {
    if !writable {
        Err(write_protected())
    } else {
        match (named_path(name), named_path(new_name)) {
            (Ok(src), Ok(dst)) => if has_nul(src) || has_nul(dst) {
                Err(no_such_name())
            } else {
                Ok((src, dst))
            },
            _ => Err(no_such_name()),
        }
    }
}

impl Ext4Context {
    /// A request to rename a file.
    pub fn rename(&self, name: &[u16], new_name: &[u16], replace_if_exists: bool) -> (out: Result<
        RenameCall,
        Failure,
    >)
        ensures
            match rename_paths(self.mount.writable, name@, new_name@) {
                Err(f) => out == Err::<RenameCall, Failure>(f),
                Ok(paths) => out matches Ok(c) && {
                    &&& c.src@ == paths.0
                    &&& c.dst@ == paths.1
                    &&& c.flags == if replace_if_exists {
                        RENAME_REPLACE
                    } else {
                        0
                    }
                },
            },
    {
        if let Err(f) = self.ensure_writable() {
            return Err(f);
        }
        let (src, dst) = match (winpath_to_unix(name), winpath_to_unix(new_name)) {
            (Some(src), Some(dst)) => (src, dst),
            _ => {
                return Err(Failure::refuse(NtStatus::ObjectNameNotFound));
            },
        };
        if contains_nul(src.as_str()) || contains_nul(dst.as_str()) {
            return Err(Failure::refuse(NtStatus::ObjectNameNotFound));
        }
        let flags: i32 = if replace_if_exists {
            RENAME_REPLACE
        } else {
            0
        };
        Ok(RenameCall { src, dst, flags })
    }

    /// A request to mark an open file for deletion. The deletion itself comes
    /// with the cleanup.
    pub fn set_delete(&self) -> (out: Result<(), Failure>)
        ensures
            out == if self.mount.writable {
                Ok::<(), Failure>(())
            } else {
                Err(write_protected())
            },
    {
        self.ensure_writable()
    }

    /// The last call on a handle: what is to be removed, if anything.
    pub fn cleanup(&self, file: &Ext4FileContext, flags: u32) -> (out: Option<RemoveCall>)
        ensures
            if flags & CLEANUP_DELETE != 0 && self.mount.writable && !has_nul(file@.path) {
                out matches Some(c) && c.path@ == file@.path && c.is_dir == file@.is_dir
            } else {
                out is None
            },
    {
        if flags & CLEANUP_DELETE == 0 || !self.mount.writable || contains_nul(
            file.unix_path.as_str(),
        ) {
            return None;
        }
        Some(RemoveCall { path: file.unix_path.clone(), is_dir: file.is_dir })
    }

    /// A request to change the security of a file: it is said to succeed, and
    /// nothing is changed.
    pub fn set_security(&self) -> (out: Result<(), Failure>)
        ensures
            out == Ok::<(), Failure>(()),
    {
        Ok(())
    }
}

/// A removal that is about to be made: of a directory or of a file.
pub struct RemoveCall {
    pub path: String,
    pub is_dir: bool,
}

impl RenameCall {
    /// The answer, once the rename was made. The open file then stands at its
    /// new path.
    pub fn on_code(self, file: &mut Ext4FileContext, code: i32, errno: i32) -> (out: Result<
        (),
        Failure,
    >)
        ensures
            out == code_result(code, errno),
            final(file)@ == if code == 0 {
                FileView { path: self.dst@, ..old(file)@ }
            } else {
                old(file)@
            },
    {
        match settle_code(code, errno) {
            Err(f) => Err(f),
            Ok(()) => {
                file.unix_path = self.dst;
                Ok(())
            },
        }
    }
}

/// What a change of metadata can change of a file.
pub struct Stamps {
    pub atime: UnixTime,
    pub mtime: UnixTime,
    pub mode: u16,
}

/// A timestamp after it was set; the smallest number of seconds leaves it alone.
pub open spec fn stamped(before: UnixTime, given: UnixTime) -> UnixTime {
    if given.secs == i64::MIN {
        before
    } else {
        given
    }
}

/// The file once the call of a step was made.
pub open spec fn step_made(s: Stamps, step: BasicView) -> Stamps {
    match step {
        BasicView::Times { path, atime, mtime, attributes } => Stamps {
            atime: stamped(s.atime, atime),
            mtime: stamped(s.mtime, mtime),
            mode: s.mode,
        },
        BasicView::Mode { path, mode } => Stamps { mode, ..s },
        _ => s,
    }
}

/// The step that follows once the call of a step was made and `s` is the file.
pub open spec fn step_behind(s: Stamps, step: BasicView) -> BasicView {
    match step {
        BasicView::Times { path, atime, mtime, attributes } => after_times(path, attributes),
        BasicView::Look { path, attributes } => after_look(path, attributes, s.mode),
        BasicView::Mode { path, mode } => BasicView::Refresh { path },
        BasicView::Refresh { path } => step,
    }
}

/// The file and the step once `count` steps were made.
pub open spec fn steps_made(s: Stamps, step: BasicView, count: nat) -> (Stamps, BasicView)
    decreases count,
{
    if count == 0 {
        (s, step)
    } else {
        let made = step_made(s, step);
        steps_made(made, step_behind(made, step), (count - 1) as nat)
    }
}

/// A change of metadata does what was asked, and nothing else: after the whole
/// request a timestamp is the one that was given, or the old one where none was;
/// the write bits are gone or all there as the read-only bit asks, where
/// attributes were given and the box changes; and all other bits of the mode are
/// the old ones. The first step sets timestamps exactly where one is given, and
/// the last one looks at the file of the request.
#[verifier::rlimit(40)]
pub proof fn law_basic_info_is_what_was_asked(
    path: Seq<char>,
    attributes: u32,
    atime: Option<UnixTime>,
    mtime: Option<UnixTime>,
    before: Stamps,
)
    ensures
        ({
            let first = basic_start(path, attributes, atime, mtime);
            let (after, last) = steps_made(before, first, 3);
            let readonly = attributes & 1 != 0;
            let atime_given = atime is Some && atime->0.secs != i64::MIN;
            let mtime_given = mtime is Some && mtime->0.secs != i64::MIN;
            &&& first is Times <==> atime_given || mtime_given
            &&& last == BasicView::Refresh { path }
            &&& after.atime == if atime_given {
                atime->0
            } else {
                before.atime
            }
            &&& after.mtime == if mtime_given {
                mtime->0
            } else {
                before.mtime
            }
            &&& after.mode & !0o222u16 == before.mode & !0o222u16
            &&& attributes == 0 || attributes == 0xFFFF_FFFF ==> after.mode == before.mode
            &&& attributes != 0 && attributes != 0xFFFF_FFFF ==> {
                &&& (after.mode & 0o222 == 0) == readonly
                &&& (before.mode & 0o222 == 0) == readonly ==> after.mode == before.mode
                &&& !readonly && before.mode & 0o222 == 0 ==> after.mode & 0o222 == 0o222
            }
        }),
{
    let m = before.mode;
    assert((m & !0o222u16) & 0o222u16 == 0 && (m | 0o222u16) & 0o222u16 == 0o222u16 && (m
        & !0o222u16) & !0o222u16 == m & !0o222u16 && (m | 0o222u16) & !0o222u16 == m & !0o222u16)
        by (bit_vector);
    reveal_with_fuel(steps_made, 4);
}

/// A write goes to the end where that is asked for and else to its offset. All
/// of it is accepted, unless it may not make the file longer: then as much as
/// fits before the end, and neither more nor less.
pub proof fn law_writes_are_accepted_as_far_as_they_may(
    len: u64,
    offset: u64,
    to_eof: bool,
    size: u64,
)
    ensures
        write_position(offset, true, size) == size,
        write_position(offset, false, size) == offset,
        accepted(len, offset, false, size) == len,
        0 <= accepted(len, offset, true, size) <= len,
        offset >= size ==> accepted(len, offset, true, size) == 0,
        offset < size && offset + len <= size ==> accepted(len, offset, true, size) == len,
        offset < size && offset + len > size ==> offset + accepted(len, offset, true, size) == size,
{
}

/// A rename goes from the first name to the second one. It is refused exactly
/// where the volume may not be written, a name is not UTF-16 or one holds a NUL.
pub proof fn law_renames_go_from_the_first_to_the_second(
    writable: bool,
    name: Seq<u16>,
    new_name: Seq<u16>,
)
    ensures
        ({
            let src = crate::path::unix_form(crate::utf16::decode16(name));
            let dst = crate::path::unix_form(crate::utf16::decode16(new_name));
            let good = crate::utf16::valid16(name) && crate::utf16::valid16(new_name)
                && !src.contains('\0') && !dst.contains('\0');
            rename_paths(writable, name, new_name) == if !writable {
                Err::<(Seq<char>, Seq<char>), Failure>(
                    Failure { status: NtStatus::MediaWriteProtected, errno: None },
                )
            } else if !good {
                Err(Failure { status: NtStatus::ObjectNameNotFound, errno: None })
            } else {
                Ok((src, dst))
            }
        }),
{
}

/// A step is seen as what it holds.
pub proof fn law_steps_are_seen_as_they_are(step: BasicStep)
    ensures
        match step {
            BasicStep::Times(t) => step@ == (BasicView::Times {
                path: t.path@,
                atime: t.atime,
                mtime: t.mtime,
                attributes: t.attributes,
            }),
            BasicStep::Look(l) => step@ == (BasicView::Look {
                path: l.path@,
                attributes: l.attributes,
            }),
            BasicStep::Mode(m) => step@ == (BasicView::Mode { path: m.path@, mode: m.mode }),
            BasicStep::Refresh(r) => step@ == (BasicView::Refresh { path: r.path@ }),
        },
{
}

/// The numbers in which Windows and ext4 speak of changes.
pub proof fn law_numbers_of_changes()
    ensures
        CLEANUP_DELETE == 1,
        INVALID_FILE_ATTRIBUTES == u32::MAX,
        TIME_UNCHANGED == i64::MIN,
        RENAME_REPLACE == 1,
{
}

}
