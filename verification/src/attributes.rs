//! The requests that carry extended attributes: creating a file, setting the
//! attributes of an open file, and listing them.
//!
//! The name of an attribute is the full ext4 name with its namespace, so that
//! both sides see the same name.

use vstd::prelude::*;
use vstd::slice::slice_subrange;

use crate::attr::{
    info_of, populate_file_info, unwritable, with_readonly, FileInfo, Found, ATTRIBUTE_READONLY,
    WRITE_BITS,
};
use crate::context::{
    code_result, content_refusal, metadata_refusal, named_path, no_such_name, reattributed,
    settle_code, sound, write_protected, Ext4Context, Ext4FileContext, FileView,
};
use crate::ea::{
    asks_removal, ea_edits, edit_views, edits_from, encodable, encode_from, present_from, put_ea, EaEdit,
    EaEditView,
};
use crate::changes::rename_paths;
use crate::path::winpath_to_unix;
use crate::status::{refused, reported, Failure, NtStatus};
use crate::text::{contains_nul, has_nul};
use crate::xattr::{byte_views, names_from, xattr_names};

verus! {

/// The option bit of a request to create a directory.
pub const FILE_DIRECTORY_FILE: u32 = 0x1;

/// The mode of a new directory.
pub const NEW_DIR_MODE: u16 = 0o755;

/// The mode of a new file.
pub const NEW_FILE_MODE: u16 = 0o644;

// ---------------------------------------------------------------------------
// Applying a chain of attributes
// ---------------------------------------------------------------------------

/// Edits that are being applied to the file at `path`, one call at a time.
pub struct EditRun {
    pub path: String,
    pub edits: Vec<EaEdit>,
    pub next: usize,
}

impl EditRun {
    /// The edit to make next. `None` where all are made.
    pub fn pending(&self) -> (out: Option<&EaEdit>)
        ensures
            match out {
                Some(e) => self.next < self.edits@.len() && *e == self.edits@[self.next as int],
                None => self.next >= self.edits@.len(),
            },
    {
        if self.next < self.edits.len() {
            Some(&self.edits[self.next])
        } else {
            None
        }
    }

    /// Goes on once the pending edit was made. The first failure ends the run.
    pub fn on_code(&mut self, code: i32, errno: i32) -> (out: Result<(), Failure>)
        requires
            old(self).next < old(self).edits@.len(),
        ensures
            out == code_result(code, errno),
            final(self).path == old(self).path,
            final(self).edits == old(self).edits,
            final(self).next == old(self).next + if code == 0 {
                1int
            } else {
                0
            },
    {
        proof {
            assert(self.edits.len() == self.edits@.len());
        }
        match settle_code(code, errno) {
            Err(f) => Err(f),
            Ok(()) => {
                self.next = self.next + 1;
                Ok(())
            },
        }
    }
}

/// The attributes of a file.
pub type Attributes = Map<Seq<u8>, Seq<u8>>;

/// The attributes after one edit.
pub open spec fn edited(m: Attributes, edit: EaEditView) -> Attributes {
    if asks_removal(edit) {
        m.remove(edit.name)
    } else {
        m.insert(edit.name, edit.value)
    }
}

/// The attributes after a list of edits.
pub open spec fn applied(m: Attributes, edits: Seq<EaEditView>) -> Attributes
    decreases edits.len(),
{
    if edits.len() == 0 {
        m
    } else {
        edited(applied(m, edits.drop_last()), edits.last())
    }
}

/// What a run has done to the attributes of its file, where each edit that was
/// reported as made did what it asks.
pub open spec fn done_by(m: Attributes, run: EditRun) -> Attributes {
    applied(m, edit_views(run.edits@).take(run.next as int))
}

/// A run does what its list of edits asks, one edit at a time: a new run has
/// done nothing, each edit adds its own change to what is done, and a run with
/// nothing pending has applied the whole list.
pub proof fn law_run_applies_its_edits(m: Attributes, run: EditRun, after: EditRun)
    requires
        run.next <= run.edits@.len(),
        after.edits == run.edits,
        after.next == run.next + 1,
    ensures
        run.next == 0 ==> done_by(m, run) == m,
        run.next < run.edits@.len() ==> done_by(m, after) == edited(
            done_by(m, run),
            run.edits@[run.next as int]@,
        ),
        run.next == run.edits@.len() ==> done_by(m, run) == applied(m, edit_views(run.edits@)),
{
    let list = edit_views(run.edits@);
    let n = run.next as int;
    if n < list.len() {
        assert(list.take(n + 1).drop_last() =~= list.take(n));
        assert(list.take(n + 1).last() == run.edits@[n]@);
    } else {
        assert(list.take(n) =~= list);
    }
}

proof fn lemma_present_all(names: Seq<Seq<u8>>, values: Seq<Seq<u8>>, i: int)
    requires
        names.len() == values.len(),
        0 <= i <= names.len(),
    ensures
        present_from(names, values.map_values(|v: Seq<u8>| Some(v)), i) == Seq::new(
            (names.len() - i) as nat,
            |k: int| EaEditView { name: names[i + k], value: values[i + k] },
        ),
    decreases names.len() - i,
{
    let all = values.map_values(|v: Seq<u8>| Some(v));
    if i < names.len() {
        lemma_present_all(names, values, i + 1);
    }
    assert(present_from(names, all, i) =~= Seq::new(
        (names.len() - i) as nat,
        |k: int| EaEditView { name: names[i + k], value: values[i + k] },
    ));
}

proof fn lemma_applied(m: Attributes, edits: Seq<EaEditView>, name: Seq<u8>)
    requires
        forall|i: int, j: int| 0 <= i < j < edits.len() ==> edits[i].name != edits[j].name,
    ensures
        ({
            let after = applied(m, edits);
            &&& forall|k: int|
                0 <= k < edits.len() ==> if asks_removal(#[trigger] edits[k]) {
                    !after.contains_key(edits[k].name)
                } else {
                    after.contains_pair(edits[k].name, edits[k].value)
                }
            &&& (forall|k: int| 0 <= k < edits.len() ==> (#[trigger] edits[k]).name != name) ==> (
            after.contains_key(name) == m.contains_key(name) && (m.contains_key(name)
                ==> after[name] == m[name]))
        }),
    decreases edits.len(),
{
    if edits.len() > 0 {
        let rest = edits.drop_last();
        lemma_applied(m, rest, name);
        let before = applied(m, rest);
        let after = applied(m, edits);
        assert forall|k: int| 0 <= k < edits.len() implies if asks_removal(#[trigger] edits[k]) {
            !after.contains_key(edits[k].name)
        } else {
            after.contains_pair(edits[k].name, edits[k].value)
        } by {
            if k < edits.len() - 1 {
                assert(rest[k] == edits[k]);
                assert(edits[k].name != edits.last().name);
                if !asks_removal(rest[k]) {
                    assert(before.contains_pair(rest[k].name, rest[k].value));
                }
            }
        }
        if forall|k: int| 0 <= k < edits.len() ==> (#[trigger] edits[k]).name != name {
            assert forall|k: int| 0 <= k < rest.len() implies (#[trigger] rest[k]).name
                != name by {
                assert(rest[k] == edits[k]);
            }
            assert(edits.last().name == edits[edits.len() - 1].name);
        }
    }
}

/// What was listed and then set again is all there: the chain that lists the
/// given attributes, applied to any file, gives the file exactly those with
/// their values, and leaves its other attributes alone. An attribute with an
/// empty value is gone afterwards, for that is what an empty value asks for.
pub proof fn law_attributes_round_trip(
    names: Seq<Seq<u8>>,
    values: Seq<Seq<u8>>,
    b: Seq<u8>,
    m: Attributes,
    other: Seq<u8>,
)
    requires
        names.len() == values.len(),
        forall|i: int, j: int| 0 <= i < j < names.len() ==> names[i] != names[j],
        forall|k: int|
            0 <= k < names.len() ==> encodable(#[trigger] names[k], values[k]),
        encode_from(names, values.map_values(|v: Seq<u8>| Some(v)), 0, b, 0).1 is Some,
    ensures
        ({
            let (chain, end) = encode_from(
                names,
                values.map_values(|v: Seq<u8>| Some(v)),
                0,
                b,
                0,
            );
            let after = applied(m, edits_from(chain.take(end->0), 0));
            &&& forall|k: int|
                0 <= k < names.len() ==> if values[k].len() > 0 {
                    after.contains_pair(#[trigger] names[k], values[k])
                } else {
                    !after.contains_key(names[k])
                }
            &&& !names.contains(other) ==> after.contains_key(other) == m.contains_key(other) && (
            m.contains_key(other) ==> after[other] == m[other])
        }),
{
    let all = values.map_values(|v: Seq<u8>| Some(v));
    crate::ea::law_ea_round_trip(names, all, b);
    lemma_present_all(names, values, 0);
    let edits = present_from(names, all, 0);
    assert forall|i: int, j: int| 0 <= i < j < edits.len() implies edits[i].name
        != edits[j].name by {
        assert(names[i] != names[j]);
    }
    lemma_applied(m, edits, other);
    let after = applied(m, edits);
    assert forall|k: int| 0 <= k < names.len() implies if values[k].len() > 0 {
        after.contains_pair(#[trigger] names[k], values[k])
    } else {
        !after.contains_key(names[k])
    } by {
        assert(asks_removal(edits[k]) <==> values[k].len() == 0);
    }
    if !names.contains(other) {
        assert forall|k: int| 0 <= k < edits.len() implies (#[trigger] edits[k]).name != other by {
            assert(names.contains(names[k]));
        }
    }
}

// ---------------------------------------------------------------------------
// Creating
// ---------------------------------------------------------------------------

/// A file or directory that is about to be made.
pub struct CreateCall {
    pub path: String,
    pub mode: u16,
    pub is_dir: bool,
    pub edits: Vec<EaEdit>,
}

/// A file or directory that was made and whose attributes are being set.
pub struct Created {
    pub is_dir: bool,
    pub run: EditRun,
}

/// Whether a directory is asked for.
pub open spec fn wants_dir(create_options: u32) -> bool {
    create_options & FILE_DIRECTORY_FILE != 0
}

/// The mode of a new file or directory.
pub open spec fn new_mode(is_dir: bool, attributes: u32) -> u16 {
    let mode = if is_dir {
        NEW_DIR_MODE
    } else {
        NEW_FILE_MODE
    };
    if attributes & ATTRIBUTE_READONLY != 0 {
        with_readonly(mode, true)
    } else {
        mode
    }
}

/// The path of a new file or directory, or the refusal to make one.
pub open spec fn create_path(writable: bool, name: Seq<u16>) -> Result<Seq<char>, Failure> {
    if !writable {
        Err(write_protected())
    } else {
        match named_path(name) {
            Err(f) => Err(f),
            Ok(path) => if has_nul(path) {
                Err(no_such_name())
            } else {
                Ok(path)
            },
        }
    }
}

/// The edits that come with the request: those of its buffer, unless the
/// buffer holds a reparse point.
pub open spec fn create_edits(extra: Option<Seq<u8>>, is_reparse_point: bool) -> Seq<EaEditView> {
    match extra {
        Some(b) => if is_reparse_point {
            Seq::empty()
        } else {
            edits_from(b, 0)
        },
        None => Seq::empty(),
    }
}

impl Ext4Context {
    /// A request to create a file or directory.
    pub fn create(
        &self,
        name: &[u16],
        create_options: u32,
        attributes: u32,
        extra: Option<&[u8]>,
        is_reparse_point: bool,
    ) -> (out: Result<CreateCall, Failure>)
        ensures
            match create_path(self.mount.writable, name@) {
                Err(f) => out == Err::<CreateCall, Failure>(f),
                Ok(path) => out matches Ok(c) && {
                    &&& c.path@ == path
                    &&& c.is_dir == wants_dir(create_options)
                    &&& c.mode == new_mode(c.is_dir, attributes)
                    &&& edit_views(c.edits@) == create_edits(
                        match extra {
                            Some(b) => Some(b@),
                            None => None,
                        },
                        is_reparse_point,
                    )
                },
            },
    {
        if let Err(f) = self.ensure_writable() {
            return Err(f);
        }
        let path = match winpath_to_unix(name) {
            Some(path) => path,
            None => {
                return Err(Failure::refuse(NtStatus::ObjectNameNotFound));
            },
        };
        if contains_nul(path.as_str()) {
            return Err(Failure::refuse(NtStatus::ObjectNameNotFound));
        }
        let is_dir: bool = create_options & FILE_DIRECTORY_FILE != 0;
        let mut mode: u16 = if is_dir {
            NEW_DIR_MODE
        } else {
            NEW_FILE_MODE
        };
        if attributes & ATTRIBUTE_READONLY != 0 {
            mode = mode & !WRITE_BITS;
        }
        let mut edits: Vec<EaEdit> = Vec::new();
        if let Some(b) = extra {
            if !is_reparse_point {
                edits = ea_edits(b);
            }
        }
        proof {
            assert(edit_views(Seq::<EaEdit>::empty()) =~= Seq::empty());
        }
        Ok(CreateCall { path, mode, is_dir, edits })
    }
}

impl CreateCall {
    /// Goes on once the file was made. Inode zero stands for a failure.
    pub fn on_made(self, inode: u32, errno: i32) -> (out: Result<Created, Failure>)
        ensures
            if inode == 0 {
                out == Err::<Created, Failure>(reported(errno))
            } else {
                out matches Ok(c) && {
                    &&& c.is_dir == self.is_dir
                    &&& c.run.path@ == self.path@
                    &&& c.run.edits == self.edits
                    &&& c.run.next == 0
                }
            },
    {
        if inode == 0 {
            return Err(Failure::report(errno));
        }
        Ok(
            Created {
                is_dir: self.is_dir,
                run: EditRun { path: self.path, edits: self.edits, next: 0 },
            },
        )
    }
}

impl Created {
    /// The answer, once all attributes are set and the file was looked up. The
    /// open file stands at the path that was asked for.
    pub fn on_lookup(self, reply: Result<Found, Failure>) -> (out: Result<
        (Ext4FileContext, FileInfo),
        Failure,
    >)
        requires
            sound(reply),
        ensures
            match reply {
                Err(f) => out == Err::<(Ext4FileContext, FileInfo), Failure>(f),
                Ok(found) => out matches Ok(o) && {
                    &&& o.0@ == (FileView {
                        inode: found.attr.inode,
                        path: self.run.path@,
                        is_dir: self.is_dir,
                        size: found.attr.size,
                        attr: found.attr,
                    })
                    &&& o.1 == info_of(found)
                },
            },
    {
        match reply {
            Err(f) => Err(f),
            Ok(found) => {
                let info = populate_file_info(&found);
                let file = Ext4FileContext {
                    inode: found.attr.inode,
                    unix_path: self.run.path,
                    is_dir: self.is_dir,
                    size: found.attr.size,
                    attr: found.attr,
                };
                Ok((file, info))
            },
        }
    }
}

/// A new file shows the read-only box as it was asked for.
pub proof fn law_new_mode_shows_readonly(is_dir: bool, attributes: u32)
    ensures
        unwritable(new_mode(is_dir, attributes)) <==> attributes & ATTRIBUTE_READONLY != 0,
{
    assert((0o755u16 & !0o222u16) & 0o222u16 == 0) by (bit_vector);
    assert((0o644u16 & !0o222u16) & 0o222u16 == 0) by (bit_vector);
    assert(0o755u16 & 0o222u16 != 0) by (bit_vector);
    assert(0o644u16 & 0o222u16 != 0) by (bit_vector);
}

// ---------------------------------------------------------------------------
// Setting
// ---------------------------------------------------------------------------

impl Ext4Context {
    /// A request to set attributes of an open file.
    pub fn set_extended_attributes(&self, file: &Ext4FileContext, buffer: &[u8]) -> (out: Result<
        EditRun,
        Failure,
    >)
        ensures
            match metadata_refusal(self.mount.writable, file@) {
                Some(f) => out == Err::<EditRun, Failure>(f),
                None => out matches Ok(r) && {
                    &&& r.path@ == file@.path
                    &&& edit_views(r.edits@) == edits_from(buffer@, 0)
                    &&& r.next == 0
                },
            },
    {
        match self.metadata_check(file) {
            Err(f) => Err(f),
            Ok(()) => Ok(
                EditRun { path: file.unix_path.clone(), edits: ea_edits(buffer), next: 0 },
            ),
        }
    }
}

/// The answer to a request to set attributes, once all are set and the file
/// was looked up.
pub fn attributes_set(file: &mut Ext4FileContext, reply: Result<Found, Failure>) -> (out: Result<
    FileInfo,
    Failure,
>)
    requires
        sound(reply),
    ensures
        match reply {
            Err(_) => out == Err::<FileInfo, Failure>(refused(NtStatus::Unsuccessful))
                && final(file)@ == old(file)@,
            Ok(found) => out == Ok::<FileInfo, Failure>(info_of(found)) && final(file)@
                == reattributed(old(file)@, found),
        },
{
    match reply {
        Err(_) => Err(Failure::refuse(NtStatus::Unsuccessful)),
        Ok(found) => {
            file.attr = found.attr;
            Ok(populate_file_info(&found))
        },
    }
}

// ---------------------------------------------------------------------------
// Listing
// ---------------------------------------------------------------------------

impl Ext4Context {
    /// A request for the attributes of an open file: the path whose list of
    /// names is asked for.
    pub fn get_extended_attributes(&self, file: &Ext4FileContext) -> (out: Result<String, Failure>)
        ensures
            if has_nul(file@.path) {
                out == Err::<String, Failure>(no_such_name())
            } else {
                out matches Ok(p) && p@ == file@.path
            },
    {
        if contains_nul(file.unix_path.as_str()) {
            Err(Failure::refuse(NtStatus::ObjectNameNotFound))
        } else {
            Ok(file.unix_path.clone())
        }
    }
}

/// The size of the list of names to read, or `None` where there is nothing to
/// list and the answer is zero bytes.
pub fn list_to_read(size: i64) -> (out: Option<u64>)
    ensures
        out == if size <= 0 {
            None::<u64>
        } else {
            Some(size as u64)
        },
{
    if size <= 0 {
        None
    } else {
        Some(size as u64)
    }
}

/// The names that a list holds in its first `count` bytes; none where the list
/// could not be read.
pub fn listed_names(count: i64, list: &[u8]) -> (out: Vec<Vec<u8>>)
    requires
        count <= list@.len(),
    ensures
        byte_views(out@) == if count <= 0 {
            Seq::empty()
        } else {
            names_from(list@, count as int, 0)
        },
        forall|i: int| 0 <= i < out@.len() ==> !(#[trigger] out@[i])@.contains(0u8),
{
    if count <= 0 {
        let out: Vec<Vec<u8>> = Vec::new();
        proof {
            assert(byte_views(out@) =~= Seq::empty());
        }
        return out;
    }
    proof {
        assert(list.len() == list@.len());
    }
    xattr_names(list, count as usize)
}

/// The size of the value of an attribute to read, or `None` where it cannot be
/// told and the attribute is left out.
pub fn value_to_read(size: i64) -> (out: Option<u64>)
    ensures
        out == if size < 0 {
            None::<u64>
        } else {
            Some(size as u64)
        },
{
    if size < 0 {
        None
    } else {
        Some(size as u64)
    }
}

/// The value that a read gave, or `None` where it failed.
pub fn value_read(count: i64, buf: &[u8]) -> (out: Option<&[u8]>)
    requires
        count <= buf@.len(),
    ensures
        match out {
            None => count < 0,
            Some(v) => 0 <= count && v@ == buf@.take(count as int),
        },
{
    if count < 0 {
        return None;
    }
    proof {
        assert(buf.len() == buf@.len());
    }
    let v = slice_subrange(buf, 0, count as usize);
    proof {
        assert(v@ =~= buf@.take(count as int));
    }
    Some(v)
}

/// The values of a list of byte strings of which some are missing.
pub open spec fn value_views(list: Seq<Option<Vec<u8>>>) -> Seq<Option<Seq<u8>>> {
    list.map_values(
        |v: Option<Vec<u8>>|
            match v {
                Some(b) => Some(b@),
                None => None,
            },
    )
}

/// Adds attribute `i` to the chain in the buffer, where it has a value.
fn put_one(
    names: &[Vec<u8>],
    values: &[Option<Vec<u8>>],
    i: usize,
    buffer: &mut [u8],
    pos: usize,
) -> (out: Option<usize>)
    requires
        i < names@.len(),
        names@.len() == values@.len(),
        pos <= old(buffer)@.len(),
    ensures
        encode_from(byte_views(names@), value_views(values@), i as int, old(buffer)@, pos as int)
            == match out {
            Some(next) => encode_from(
                byte_views(names@),
                value_views(values@),
                i + 1,
                final(buffer)@,
                next as int,
            ),
            None => (final(buffer)@, None::<int>),
        },
        out matches Some(next) ==> next <= final(buffer)@.len(),
{
    let last: bool = i == names.len() - 1;
    let ghost ns = byte_views(names@);
    let ghost vs = value_views(values@);
    proof {
        assert(ns[i as int] == names@[i as int]@);
    }
    let value = match &values[i] {
        None => {
            proof {
                assert(vs[i as int] is None);
            }
            return Some(pos);
        },
        Some(value) => value,
    };
    proof {
        assert(vs[i as int] == Some(value@));
    }
    put_ea(buffer, pos, names[i].as_slice(), value.as_slice(), last)
}

/// The answer to a request for the attributes of a file: writes the chain of
/// those with a value into the buffer, and says where it ends. Where one finds
/// no room, the request fails.
pub fn encode_attributes(names: &[Vec<u8>], values: &[Option<Vec<u8>>], buffer: &mut [u8]) -> (out:
    Result<u32, Failure>)
    requires
        names@.len() == values@.len(),
    ensures
        ({
            let (after, end) = encode_from(
                byte_views(names@),
                value_views(values@),
                0,
                old(buffer)@,
                0,
            );
            &&& final(buffer)@ == after
            &&& out == match end {
                Some(n) => Ok::<u32, Failure>(n as u32),
                None => Err(refused(NtStatus::BufferOverflow)),
            }
        }),
{
    let ghost start = buffer@;
    let mut pos: usize = 0;
    for i in 0..names.len()
        invariant
            names@.len() == values@.len(),
            start == old(buffer)@,
            pos <= buffer@.len(),
            encode_from(
                byte_views(names@),
                value_views(values@),
                i as int,
                buffer@,
                pos as int,
            ) == encode_from(byte_views(names@), value_views(values@), 0, start, 0),
    {
        match put_one(names, values, i, buffer, pos) {
            None => {
                return Err(Failure::refuse(NtStatus::BufferOverflow));
            },
            Some(next) => {
                pos = next;
            },
        }
    }
    Ok(#[verifier::truncate]
    (pos as u32))
}

/// A volume that was opened for reading only answers every request to change
/// it with the same refusal, whatever is asked of which file.
pub proof fn law_read_only_refuses_changes(file: FileView, name: Seq<u16>, new_name: Seq<u16>)
    ensures
        content_refusal(false, file) == Some(write_protected()),
        metadata_refusal(false, file) == Some(write_protected()),
        create_path(false, name) == Err::<Seq<char>, Failure>(write_protected()),
        rename_paths(false, name, new_name) == Err::<(Seq<char>, Seq<char>), Failure>(
            write_protected(),
        ),
{
}

/// A new file may be written by its owner and read by all, a new directory
/// searched too, and where read-only is asked for nobody may write it. Of the
/// options and the attributes one bit each decides.
pub proof fn law_new_files_have_plain_modes(create_options: u32, attributes: u32)
    ensures
        wants_dir(create_options) <==> create_options & 1 == 1,
        attributes & 1 == 0 ==> new_mode(true, attributes) == 0o755 && new_mode(false, attributes)
            == 0o644,
        attributes & 1 == 1 ==> new_mode(true, attributes) == 0o555 && new_mode(false, attributes)
            == 0o444,
{
    assert((create_options & 1 == 0 || create_options & 1 == 1) && (attributes & 1 == 0
        || attributes & 1 == 1) && 0o755u16 & !0o222u16 == 0o555 && 0o644u16 & !0o222u16 == 0o444)
        by (bit_vector);
}

/// A file is made exactly where the volume may be written and its name is a path
/// without a NUL.
pub proof fn law_files_are_made_where_they_may(writable: bool, text: Seq<char>, name: Seq<u16>)
    ensures
        create_path(writable, name) is Ok <==> writable && crate::utf16::valid16(name)
            && !crate::path::unix_form(crate::utf16::decode16(name)).contains('\0'),
        writable && !crate::path::unix_form(text).contains('\0') ==> create_path(
            writable,
            crate::utf16::encode16(text),
        ) == Ok::<Seq<char>, Failure>(crate::path::unix_form(text)),
        !writable ==> create_path(writable, name) == Err::<Seq<char>, Failure>(
            Failure { status: NtStatus::MediaWriteProtected, errno: None },
        ),
        writable && create_path(writable, name) is Err ==> create_path(writable, name) == Err::<
            Seq<char>,
            Failure,
        >(Failure { status: NtStatus::ObjectNameNotFound, errno: None }),
{
    crate::utf16::law_wide_round_trip(text);
}

/// Edits are applied in their order: an empty value takes the attribute away,
/// any other one sets it, and all other attributes stay. A reparse point brings
/// no edits.
pub proof fn law_edits_change_one_attribute_each(
    m: Attributes,
    edits: Seq<EaEditView>,
    edit: EaEditView,
    other: Seq<u8>,
    extra: Seq<u8>,
)
    ensures
        applied(m, Seq::empty()) == m,
        ({
            let before = applied(m, edits);
            let after = applied(m, edits.push(edit));
            &&& edit.value.len() == 0 ==> !after.contains_key(edit.name)
            &&& edit.value.len() > 0 ==> after.contains_key(edit.name) && after[edit.name]
                == edit.value
            &&& other != edit.name ==> {
                &&& after.contains_key(other) <==> before.contains_key(other)
                &&& before.contains_key(other) ==> after[other] == before[other]
            }
        }),
        create_edits(None, false).len() == 0,
        create_edits(Some(extra), true).len() == 0,
        create_edits(Some(extra), false) == edits_from(extra, 0),
{
    assert(edits.push(edit).drop_last() =~= edits);
}

/// The values of attributes are seen one by one, those that are missing too.
pub proof fn law_values_are_seen_as_they_are(list: Seq<Option<Vec<u8>>>, i: int)
    ensures
        value_views(list).len() == list.len(),
        0 <= i < list.len() ==> {
            &&& list[i] is None <==> value_views(list)[i] is None
            &&& list[i] matches Some(b) ==> value_views(list)[i] == Some(b@)
        },
{
}

}
