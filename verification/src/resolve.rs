//! Following symbolic links, one call on the ext4 side at a time.
//!
//! A walk asks for the metadata of a path, and, where the path turns out to be
//! a link, for the link's target; then it goes on from where the target leads.

use vstd::prelude::*;
use vstd::utf8::{decode_utf8, valid_utf8};

use crate::ea::bytes_of;
use crate::attr::{Attr, FileType};
use crate::path::{follow_link, link_leads_to};
use crate::status::{refused, reported, Failure, NtStatus};
use crate::text::{contains_nul, has_nul, strict_str};
use crate::xattr::{find_nul, nul_from};

verus! {

/// How many links a walk follows at most.
pub const MAX_HOPS: u8 = 8;

/// How a walk ended.
pub enum WalkEnd {
    /// At `path`, which is no link.
    Found { path: String, attr: Attr },
    /// At a path that holds a NUL.
    Nul,
    /// The ext4 side refused the metadata of `path`.
    NoStat { path: String, errno: i32 },
    /// The ext4 side refused the target of the link at `path`.
    NoLink { path: String },
    /// Too many links in a row.
    TooDeep,
}

/// A walk that waits for the metadata of `path`. It may still follow `left`
/// links.
pub struct WalkStat {
    pub path: String,
    pub left: u8,
}

/// A walk that waits for the target of the link at `path`. Behind that link it
/// may still follow `left` more.
pub struct WalkLink {
    pub path: String,
    pub left: u8,
}

/// What a walk wants next.
pub enum WalkStep {
    Stat(WalkStat),
    Link(WalkLink),
    End(WalkEnd),
}

/// The end of a walk over mathematical paths.
pub enum WalkEndView {
    Found { path: Seq<char>, attr: Attr },
    Nul,
    NoStat { path: Seq<char>, errno: i32 },
    NoLink { path: Seq<char> },
    TooDeep,
}

/// A step of a walk over mathematical paths.
pub enum WalkView {
    Stat { path: Seq<char>, left: int },
    Link { path: Seq<char>, left: int },
    End(WalkEndView),
}

impl View for WalkEnd {
    type V = WalkEndView;

    open spec fn view(&self) -> WalkEndView {
        match *self {
            WalkEnd::Found { path, attr } => WalkEndView::Found { path: path@, attr },
            WalkEnd::Nul => WalkEndView::Nul,
            WalkEnd::NoStat { path, errno } => WalkEndView::NoStat { path: path@, errno },
            WalkEnd::NoLink { path } => WalkEndView::NoLink { path: path@ },
            WalkEnd::TooDeep => WalkEndView::TooDeep,
        }
    }
}

impl View for WalkStep {
    type V = WalkView;

    open spec fn view(&self) -> WalkView {
        match *self {
            WalkStep::Stat(w) => WalkView::Stat { path: w.path@, left: w.left as int },
            WalkStep::Link(w) => WalkView::Link { path: w.path@, left: w.left as int },
            WalkStep::End(e) => WalkView::End(e@),
        }
    }
}

/// The target of a link from what a read of it gave. A positive count says how
/// many bytes of the buffer are the target; with a count of zero the target
/// ends at the first NUL.
pub open spec fn link_bytes(count: int, buf: Seq<u8>) -> Seq<u8> {
    if count > 0 {
        buf.take(count)
    } else {
        buf.take(nul_from(buf, 0))
    }
}

/// The target of a link as text; one that is not UTF-8 reads as empty.
pub open spec fn link_text(count: int, buf: Seq<u8>) -> Seq<char> {
    let bytes = link_bytes(count, buf);
    if valid_utf8(bytes) {
        decode_utf8(bytes)
    } else {
        ""@
    }
}

/// A walk at `path` that may still follow `left` links.
pub open spec fn walk_at(path: Seq<char>, left: int) -> WalkView {
    if has_nul(path) {
        WalkView::End(WalkEndView::Nul)
    } else {
        WalkView::Stat { path, left }
    }
}

/// The walk after the metadata of `path` came, or an error number in its place.
/// A link is followed where one more may be.
pub open spec fn after_stat(path: Seq<char>, left: int, reply: Result<Attr, i32>) -> WalkView {
    match reply {
        Err(errno) => WalkView::End(WalkEndView::NoStat { path, errno }),
        Ok(attr) => if attr.file_type != FileType::Symlink {
            WalkView::End(WalkEndView::Found { path, attr })
        } else if left <= 0 {
            WalkView::End(WalkEndView::TooDeep)
        } else {
            WalkView::Link { path, left: left - 1 }
        },
    }
}

/// The walk after the target of the link at `path` came. A negative count is a
/// failure.
pub open spec fn after_link(path: Seq<char>, left: int, count: int, buf: Seq<u8>) -> WalkView {
    if count < 0 {
        WalkView::End(WalkEndView::NoLink { path })
    } else {
        walk_at(link_leads_to(path, link_text(count, buf)), left)
    }
}

/// The bytes of a link's target.
pub fn link_target(count: i32, buf: &[u8]) -> (out: Vec<u8>)
    requires
        0 <= count <= buf@.len(),
    ensures
        out@ == link_bytes(count as int, buf@),
{
    let n: usize = if count > 0 {
        count as usize
    } else {
        find_nul(buf, 0)
    };
    bytes_of(buf, 0, n)
}

fn link_str(count: i32, buf: &[u8]) -> (out: String)
    requires
        0 <= count <= buf@.len(),
    ensures
        out@ == link_text(count as int, buf@),
{
    let bytes = link_target(count, buf);
    match strict_str(bytes.as_slice()) {
        Some(s) => s.to_owned(),
        None => "".to_owned(),
    }
}

fn walk_from(path: String, left: u8) -> (step: WalkStep)
    ensures
        step@ == walk_at(path@, left as int),
{
    if contains_nul(path.as_str()) {
        WalkStep::End(WalkEnd::Nul)
    } else {
        WalkStep::Stat(WalkStat { path, left })
    }
}

/// Begins a walk at `path`.
pub fn walk_start(path: &str) -> (step: WalkStep)
    ensures
        step@ == walk_at(path@, MAX_HOPS as int),
{
    walk_from(path.to_owned(), MAX_HOPS)
}

impl WalkStat {
    /// Goes on with the metadata of the path, or the error number in its place.
    pub fn on_stat(self, reply: Result<Attr, i32>) -> (step: WalkStep)
        ensures
            step@ == after_stat(self.path@, self.left as int, reply),
    {
        match reply {
            Err(errno) => WalkStep::End(WalkEnd::NoStat { path: self.path, errno }),
            Ok(attr) => if attr.file_type != FileType::Symlink {
                WalkStep::End(WalkEnd::Found { path: self.path, attr })
            } else if self.left == 0 {
                WalkStep::End(WalkEnd::TooDeep)
            } else {
                WalkStep::Link(WalkLink { path: self.path, left: self.left - 1 })
            },
        }
    }
}

impl WalkLink {
    /// Goes on with what the read of the link's target gave.
    pub fn on_link(self, count: i32, buf: &[u8]) -> (step: WalkStep)
        requires
            count <= buf@.len(),
        ensures
            step@ == after_link(self.path@, self.left as int, count as int, buf@),
    {
        if count < 0 {
            return WalkStep::End(WalkEnd::NoLink { path: self.path });
        }
        let target = link_str(count, buf);
        walk_from(follow_link(self.path.as_str(), target.as_str()), self.left)
    }
}

/// What the driver makes of the end of a walk: the path that the links lead to
/// and its metadata, or the failure that the request is answered with.
pub open spec fn lookup_result(end: WalkEndView) -> Result<(Seq<char>, Attr), Failure> {
    match end {
        WalkEndView::Found { path, attr } => Ok((path, attr)),
        WalkEndView::NoStat { path, errno } => Err(reported(errno)),
        _ => Err(refused(NtStatus::ObjectNameNotFound)),
    }
}

impl WalkEnd {
    /// The path that the links lead to and its metadata, or the failure that
    /// the request is answered with.
    pub fn settle(self) -> (out: Result<(String, Attr), Failure>)
        ensures
            match (out, lookup_result(self@)) {
                (Ok(found), Ok(want)) => found.0@ == want.0 && found.1 == want.1,
                (Err(f), Err(want)) => f == want,
                _ => false,
            },
    {
        match self {
            WalkEnd::Found { path, attr } => Ok((path, attr)),
            WalkEnd::NoStat { path, errno } => Err(Failure::report(errno)),
            _ => Err(Failure::refuse(NtStatus::ObjectNameNotFound)),
        }
    }
}

/// A volume as a walk sees it: the metadata or error number of every path, and
/// the target of every link, or none where it cannot be read.
pub struct LinkedFiles {
    pub stat: spec_fn(Seq<char>) -> Result<Attr, i32>,
    pub target: spec_fn(Seq<char>) -> Option<Seq<u8>>,
}

/// Where a link at `path` with the given target leads; a target that is not
/// UTF-8 reads as empty.
pub open spec fn next_path(path: Seq<char>, target: Seq<u8>) -> Seq<char> {
    link_leads_to(
        path,
        if valid_utf8(target) {
            decode_utf8(target)
        } else {
            ""@
        },
    )
}

/// Where following at most `hops` links from `path` ends. It is too deep where
/// one more link would have to be followed.
pub open spec fn resolved(files: LinkedFiles, path: Seq<char>, hops: nat) -> WalkEndView
    decreases hops,
{
    if has_nul(path) {
        WalkEndView::Nul
    } else {
        match (files.stat)(path) {
            Err(errno) => WalkEndView::NoStat { path, errno },
            Ok(attr) => if attr.file_type != FileType::Symlink {
                WalkEndView::Found { path, attr }
            } else if hops == 0 {
                WalkEndView::TooDeep
            } else {
                match (files.target)(path) {
                    None => WalkEndView::NoLink { path },
                    Some(target) => resolved(
                        files,
                        next_path(path, target),
                        (hops - 1) as nat,
                    ),
                }
            },
        }
    }
}

/// Whether `path` is a link of the volume.
pub open spec fn is_link(files: LinkedFiles, path: Seq<char>) -> bool {
    !has_nul(path) && ((files.stat)(path) matches Ok(attr) && attr.file_type == FileType::Symlink)
}

/// Whether a count and a buffer tell the given target.
pub open spec fn tells(target: Option<Seq<u8>>, count: int, buf: Seq<u8>) -> bool {
    match target {
        None => count < 0,
        Some(bytes) => 0 <= count <= buf.len() && link_bytes(count, buf) == bytes,
    }
}

/// Where a walk from `path` ends that may follow `left` links and is told the
/// metadata that `files` holds. `counts` and `bufs` are the replies to the reads
/// of links, by how many more may be followed behind each.
pub open spec fn walked(
    files: LinkedFiles,
    counts: spec_fn(int) -> int,
    bufs: spec_fn(int) -> Seq<u8>,
    path: Seq<char>,
    left: nat,
) -> WalkEndView
    decreases left,
{
    match walk_at(path, left as int) {
        WalkView::Stat { path, left: l } => match after_stat(path, l, (files.stat)(path)) {
            WalkView::Link { path, left: l } => match after_link(path, l, counts(l), bufs(l)) {
                WalkView::Stat { path, left: l } => if l < left {
                    walked(files, counts, bufs, path, l as nat)
                } else {
                    WalkEndView::TooDeep
                },
                WalkView::Link { .. } => WalkEndView::TooDeep,
                WalkView::End(end) => end,
            },
            WalkView::Stat { .. } => WalkEndView::TooDeep,
            WalkView::End(end) => end,
        },
        WalkView::Link { .. } => WalkEndView::TooDeep,
        WalkView::End(end) => end,
    }
}

/// Whether the replies tell the truth about every link on the way from `path`.
pub open spec fn truthful(
    files: LinkedFiles,
    counts: spec_fn(int) -> int,
    bufs: spec_fn(int) -> Seq<u8>,
    path: Seq<char>,
    left: nat,
) -> bool
    decreases left,
{
    left > 0 && is_link(files, path) ==> {
        &&& tells((files.target)(path), counts(left - 1), bufs(left - 1))
        &&& truthful(
            files,
            counts,
            bufs,
            link_leads_to(path, link_text(counts(left - 1), bufs(left - 1))),
            (left - 1) as nat,
        )
    }
}

/// A walk that is told the truth ends where the links of the volume lead.
pub proof fn law_walk_follows_links(
    files: LinkedFiles,
    counts: spec_fn(int) -> int,
    bufs: spec_fn(int) -> Seq<u8>,
    path: Seq<char>,
    left: nat,
)
    requires
        truthful(files, counts, bufs, path, left),
    ensures
        walked(files, counts, bufs, path, left) == resolved(files, path, left),
    decreases left,
{
    if left > 0 && is_link(files, path) && counts(left - 1) >= 0 {
        let next = link_leads_to(path, link_text(counts(left - 1), bufs(left - 1)));
        law_walk_follows_links(files, counts, bufs, next, (left - 1) as nat);
    }
}

/// A walk that finds something has ended at a path without a NUL that is no
/// link, with the metadata that the volume holds for it.
pub proof fn law_found_is_no_link(files: LinkedFiles, path: Seq<char>, hops: nat)
    ensures
        resolved(files, path, hops) matches WalkEndView::Found { path: end, attr } ==> {
            &&& !has_nul(end)
            &&& (files.stat)(end) == Ok::<Attr, i32>(attr)
            &&& attr.file_type != FileType::Symlink
        },
    decreases hops,
{
    if hops > 0 && is_link(files, path) && (files.target)(path) is Some {
        let next = next_path(path, (files.target)(path)->Some_0);
        law_found_is_no_link(files, next, (hops - 1) as nat);
    }
}

/// A path that is no link is found as it stands.
pub proof fn law_plain_path_is_itself(files: LinkedFiles, path: Seq<char>, attr: Attr)
    requires
        !has_nul(path),
        (files.stat)(path) == Ok::<Attr, i32>(attr),
        attr.file_type != FileType::Symlink,
    ensures
        resolved(files, path, MAX_HOPS as nat) == (WalkEndView::Found { path, attr }),
{
}

/// Whether `n` links in a row, the first of them at `path`, lead to `end`.
pub open spec fn chain_leads_to(
    files: LinkedFiles,
    path: Seq<char>,
    n: nat,
    end: Seq<char>,
) -> bool
    decreases n,
{
    if n == 0 {
        path == end
    } else {
        &&& is_link(files, path)
        &&& (files.target)(path) matches Some(target) && chain_leads_to(
            files,
            next_path(path, target),
            (n - 1) as nat,
            end,
        )
    }
}

proof fn lemma_chain(files: LinkedFiles, path: Seq<char>, n: nat, end: Seq<char>, hops: nat)
    requires
        chain_leads_to(files, path, n, end),
    ensures
        n <= hops ==> resolved(files, path, hops) == resolved(files, end, (hops - n) as nat),
        n > hops ==> resolved(files, path, hops) == WalkEndView::TooDeep,
    decreases n,
{
    if n > 0 && hops > 0 {
        let next = next_path(path, (files.target)(path)->Some_0);
        lemma_chain(files, next, (n - 1) as nat, end, (hops - 1) as nat);
    }
}

/// A chain of up to eight links ends at its file, with the file's metadata. A
/// chain of more links is too deep, wherever it leads.
pub proof fn law_chains_resolve(
    files: LinkedFiles,
    path: Seq<char>,
    n: nat,
    end: Seq<char>,
    attr: Attr,
)
    requires
        chain_leads_to(files, path, n, end),
    ensures
        n <= MAX_HOPS && !has_nul(end) && (files.stat)(end) == Ok::<Attr, i32>(attr)
            && attr.file_type != FileType::Symlink ==> resolved(files, path, MAX_HOPS as nat) == (
        WalkEndView::Found { path: end, attr }),
        n > MAX_HOPS ==> resolved(files, path, MAX_HOPS as nat) == WalkEndView::TooDeep,
{
    lemma_chain(files, path, n, end, MAX_HOPS as nat);
}

/// A link's target is what its buffer holds: as many bytes as were told, and
/// where none were, those before the first NUL, whatever stands behind it.
pub proof fn law_link_buffers_hold_the_target(target: Seq<u8>, behind: Seq<u8>)
    ensures
        target.len() > 0 ==> link_bytes(target.len() as int, target + behind) == target,
        !target.contains(0u8) ==> link_bytes(0, target + seq![0u8] + behind) == target,
        !target.contains(0u8) ==> link_bytes(0, target) == target,
        valid_utf8(target) && target.len() > 0 ==> link_text(
            target.len() as int,
            target + behind,
        ) == decode_utf8(target),
        !valid_utf8(target) && target.len() > 0 ==> link_text(
            target.len() as int,
            target + behind,
        ).len() == 0,
{
    reveal_strlit("");
    assert((target + behind).take(target.len() as int) =~= target);
    if !target.contains(0u8) {
        crate::xattr::lemma_nul_at(target, behind);
        let b = target + seq![0u8] + behind;
        assert(b.take(target.len() as int) =~= target);
        assert(target.take(target.len() as int) =~= target);
    }
}

/// A link is followed from the directory that it stands in: what the walk finds
/// is what it would have found at the target, there or, where it is absolute,
/// from the root, with one link less to go.
pub proof fn law_a_link_stands_for_its_target(
    files: LinkedFiles,
    dir: Seq<char>,
    slashes: nat,
    name: Seq<char>,
    target: Seq<char>,
    attr: Attr,
    hops: nat,
)
    requires
        dir.len() > 0 ==> dir.last() != '/',
        slashes > 0,
        !name.contains('/'),
        hops > 0,
        ({
            let link = dir + Seq::new(slashes, |i: int| '/') + name;
            &&& !link.contains('\0')
            &&& (files.stat)(link) == Ok::<Attr, i32>(attr)
            &&& attr.file_type == FileType::Symlink
            &&& (files.target)(link) == Some(vstd::utf8::encode_utf8(target))
        }),
    ensures
        resolved(files, dir + Seq::new(slashes, |i: int| '/') + name, hops) == resolved(
            files,
            if target.len() > 0 && target[0] == '/' {
                target
            } else {
                dir + seq!['/'] + target
            },
            (hops - 1) as nat,
        ),
{
    vstd::utf8::encode_utf8_valid_utf8(target);
    vstd::utf8::encode_utf8_decode_utf8(target);
    crate::path::law_links_lead_from_their_directory(dir, slashes, name, target);
}

/// A walk that does not find its file says why: a NUL in the path, no metadata,
/// no target, or a link too many. The answer to a request is the file, the error
/// that ext4 gave for its metadata, or that there is no such name.
pub proof fn law_walks_say_why_they_fail(files: LinkedFiles, path: Seq<char>, hops: nat)
    ensures
        path.contains('\0') ==> resolved(files, path, hops) == WalkEndView::Nul,
        !path.contains('\0') ==> match (files.stat)(path) {
            Err(errno) => resolved(files, path, hops) == (WalkEndView::NoStat { path, errno }),
            Ok(attr) => {
                &&& attr.file_type == FileType::Symlink && hops == 0 ==> resolved(
                    files,
                    path,
                    hops,
                ) == WalkEndView::TooDeep
                &&& attr.file_type == FileType::Symlink && hops > 0 && (files.target)(
                    path,
                ) is None ==> resolved(files, path, hops) == (WalkEndView::NoLink { path })
                &&& attr.file_type != FileType::Symlink ==> resolved(files, path, hops) == (
                WalkEndView::Found { path, attr })
            },
        },
        match resolved(files, path, hops) {
            WalkEndView::Found { path: end, attr } => lookup_result(resolved(files, path, hops))
                == Ok::<(Seq<char>, Attr), Failure>((end, attr)),
            WalkEndView::NoStat { path: end, errno } => lookup_result(resolved(files, path, hops))
                == Err::<(Seq<char>, Attr), Failure>(
                Failure { status: crate::status::status_of_errno(errno), errno: Some(errno) },
            ),
            _ => lookup_result(resolved(files, path, hops)) == Err::<(Seq<char>, Attr), Failure>(
                Failure { status: NtStatus::ObjectNameNotFound, errno: None },
            ),
        },
        MAX_HOPS == 8,
{
}

/// A step of a walk is seen as what it holds.
pub proof fn law_walks_are_seen_as_they_are(step: WalkStep)
    ensures
        match step {
            WalkStep::Stat(w) => step@ == (WalkView::Stat { path: w.path@, left: w.left as int }),
            WalkStep::Link(w) => step@ == (WalkView::Link { path: w.path@, left: w.left as int }),
            WalkStep::End(WalkEnd::Found { path, attr }) => step@ == WalkView::End(
                WalkEndView::Found { path: path@, attr },
            ),
            WalkStep::End(WalkEnd::Nul) => step@ == WalkView::End(WalkEndView::Nul),
            WalkStep::End(WalkEnd::NoStat { path, errno }) => step@ == WalkView::End(
                WalkEndView::NoStat { path: path@, errno },
            ),
            WalkStep::End(WalkEnd::NoLink { path }) => step@ == WalkView::End(
                WalkEndView::NoLink { path: path@ },
            ),
            WalkStep::End(WalkEnd::TooDeep) => step@ == WalkView::End(WalkEndView::TooDeep),
        },
{
}

}
