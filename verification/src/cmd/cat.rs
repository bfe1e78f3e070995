//! The `cat` command: the contents of a file, or a part of them.

use vstd::prelude::*;

use crate::cmd::report::{call_failed, call_failure};
use crate::resolve::{WalkEnd, WalkEndView};
use crate::text::{debug_str, debug_text};

verus! {

/// How many bytes one read asks for at most.
pub const CHUNK: u64 = 65536;

/// What the end of a walk means to a command: the path that the links lead
/// to, or why there is none.
pub open spec fn walk_outcome(end: WalkEndView, origin: Seq<char>, reason: Seq<char>) -> Result<
    Seq<char>,
    Seq<char>,
> {
    match end {
        WalkEndView::Found { path, attr } => Ok(path),
        WalkEndView::Nul => Err("path contains NUL byte"@),
        WalkEndView::NoStat { path, errno } => Err(call_failure("stat"@, path, reason)),
        WalkEndView::NoLink { path } => Err(call_failure("readlink"@, path, reason)),
        WalkEndView::TooDeep => Err("symlink loop or depth > 8: "@ + debug_text(origin)),
    }
}

/// The path that the links from `origin` lead to, or why there is none.
pub fn resolve_symlink(end: WalkEnd, origin: &str, reason: &str) -> (out: Result<String, String>)
    ensures
        match (out, walk_outcome(end@, origin@, reason@)) {
            (Ok(s), Ok(t)) => s@ == t,
            (Err(s), Err(t)) => s@ == t,
            _ => false,
        },
{
    match end {
        WalkEnd::Found { path, attr } => Ok(path),
        WalkEnd::Nul => Err("path contains NUL byte".to_owned()),
        WalkEnd::NoStat { path, errno } => Err(call_failed("stat", path.as_str(), reason)),
        WalkEnd::NoLink { path } => Err(call_failed("readlink", path.as_str(), reason)),
        WalkEnd::TooDeep => {
            let mut e = "symlink loop or depth > 8: ".to_owned();
            e.append(debug_str(origin).as_str());
            Err(e)
        },
    }
}

/// Contents that are being printed: the bytes from `pos` up to `end` are left.
pub struct CatRun {
    pub path: String,
    pub pos: u64,
    pub end: u64,
}

/// Where the printed part ends: behind `length` bytes, or where the file ends.
pub open spec fn cat_end(offset: u64, length: Option<u64>, size: u64) -> int {
    match length {
        Some(n) => if offset + n < size {
            offset + n
        } else {
            size as int
        },
        None => size as int,
    }
}

/// How many bytes are asked for next.
pub open spec fn next_read(pos: int, end: int) -> int {
    if pos >= end {
        0
    } else if end - pos < CHUNK {
        end - pos
    } else {
        CHUNK as int
    }
}

/// Begins to print a file, whose size is given where it could be told.
pub fn cat(
    path: &str,
    size: Option<u64>,
    offset: u64,
    length: Option<u64>,
    reason: &str,
) -> (out: Result<CatRun, String>)
    ensures
        match size {
            None => out matches Err(e) && e@ == call_failure("stat"@, path@, reason@),
            Some(size) => out matches Ok(run) && run.path@ == path@ && run.pos == offset && run.end
                == cat_end(offset, length, size),
        },
{
    let size: u64 = match size {
        None => {
            return Err(call_failed("stat", path, reason));
        },
        Some(size) => size,
    };
    let end: u64 = match length {
        Some(n) => match offset.checked_add(n) {
            Some(end) => if end < size {
                end
            } else {
                size
            },
            None => size,
        },
        None => size,
    };
    Ok(CatRun { path: path.to_owned(), pos: offset, end })
}

impl CatRun {
    /// How many bytes to read next, at `pos`. `None` where all are printed.
    pub fn want(&self) -> (out: Option<u64>)
        ensures
            match out {
                Some(n) => n > 0 && n == next_read(self.pos as int, self.end as int),
                None => next_read(self.pos as int, self.end as int) == 0,
            },
    {
        if self.pos >= self.end {
            return None;
        }
        let left: u64 = self.end - self.pos;
        if left < CHUNK {
            Some(left)
        } else {
            Some(CHUNK)
        }
    }

    /// Takes the count of a read: how many bytes to print, or `None` where the
    /// file ends early and printing stops.
    pub fn on_read(&mut self, count: i64, reason: &str) -> (out: Result<Option<usize>, String>)
        requires
            count <= CHUNK,
            old(self).pos + count <= u64::MAX,
        ensures
            final(self).path@ == old(self).path@,
            final(self).end == old(self).end,
            if count < 0 {
                &&& out matches Err(e) && e@ == call_failure("read_file"@, old(self).path@, reason@)
                &&& final(self).pos == old(self).pos
            } else if count == 0 {
                &&& out == Ok::<Option<usize>, String>(None)
                &&& final(self).pos == old(self).pos
            } else {
                &&& out == Ok::<Option<usize>, String>(Some(count as usize))
                &&& final(self).pos == old(self).pos + count
            },
    {
        if count < 0 {
            return Err(call_failed("read_file", self.path.as_str(), reason));
        }
        if count == 0 {
            return Ok(None);
        }
        self.pos = self.pos + count as u64;
        Ok(Some(count as usize))
    }
}

/// What is printed of a file from `pos` on, where the reads give the counts.
pub open spec fn printed(file: Seq<u8>, pos: int, end: int, counts: Seq<int>) -> Seq<u8>
    decreases counts.len(),
{
    if next_read(pos, end) == 0 || counts.len() == 0 || counts[0] <= 0 {
        Seq::empty()
    } else {
        file.subrange(pos, pos + counts[0]) + printed(file, pos + counts[0], end, counts.skip(1))
    }
}

/// Whether every read gives at least one byte and none that was not asked for,
/// until the end is reached.
pub open spec fn reads_progress(pos: int, end: int, counts: Seq<int>) -> bool
    decreases counts.len(),
{
    next_read(pos, end) > 0 ==> {
        &&& counts.len() > 0
        &&& 0 < counts[0] <= next_read(pos, end)
        &&& reads_progress(pos + counts[0], end, counts.skip(1))
    }
}

/// However the reads are cut up, `cat` prints exactly the bytes from the
/// offset up to the end of the wanted part.
pub proof fn law_cat_prints_the_part(file: Seq<u8>, pos: int, end: int, counts: Seq<int>)
    requires
        0 <= pos <= end <= file.len(),
        reads_progress(pos, end, counts),
    ensures
        printed(file, pos, end, counts) == file.subrange(pos, end),
    decreases counts.len(),
{
    if pos < end {
        let next = pos + counts[0];
        law_cat_prints_the_part(file, next, end, counts.skip(1));
        assert(file.subrange(pos, end) =~= file.subrange(pos, next) + file.subrange(next, end));
    } else {
        assert(file.subrange(pos, end) =~= Seq::empty());
    }
}

/// A part of a file ends where its length says, or where the file does. Reads
/// are asked for until then, of no more than a chunk each and never beyond the
/// end, and no read is asked for afterwards.
pub proof fn law_reads_stay_in_the_part(offset: u64, length: Option<u64>, size: u64, pos: int)
    ensures
        length is None ==> cat_end(offset, length, size) == size,
        length matches Some(n) ==> {
            &&& offset + n <= size ==> cat_end(offset, length, size) == offset + n
            &&& offset + n > size ==> cat_end(offset, length, size) == size
        },
        ({
            let end = cat_end(offset, length, size);
            let n = next_read(pos, end);
            &&& 0 <= n <= 65536
            &&& n == 0 <==> pos >= end
            &&& pos < end ==> pos + n <= end
            &&& pos < end ==> n == 65536 || pos + n == end
        }),
{
}

/// The bytes that `cat` prints of a file: those from the offset on, as many as
/// asked for and as the file has; none where the offset is behind the file.
pub proof fn law_cat_prints_what_was_asked_for(
    file: Seq<u8>,
    offset: u64,
    length: Option<u64>,
    counts: Seq<int>,
)
    requires
        file.len() <= u64::MAX,
        reads_progress(offset as int, cat_end(offset, length, file.len() as u64), counts),
    ensures
        ({
            let out = printed(file, offset as int, cat_end(offset, length, file.len() as u64), counts);
            let behind = if offset <= file.len() {
                file.skip(offset as int)
            } else {
                Seq::empty()
            };
            &&& length is None ==> out == behind
            &&& length matches Some(n) ==> out == if n <= behind.len() {
                behind.take(n as int)
            } else {
                behind
            }
        }),
{
    let end = cat_end(offset, length, file.len() as u64);
    if offset <= end {
        law_cat_prints_the_part(file, offset as int, end, counts);
        let behind = file.skip(offset as int);
        assert(file.subrange(offset as int, end) =~= behind.take(end - offset));
        if end == file.len() {
            assert(behind.take(end - offset) =~= behind);
        }
    }
}

/// What a walk to a file leads to: its path, or what went wrong, with the path
/// at which it did.
pub proof fn law_walks_lead_to_a_path_or_a_reason(
    path: Seq<char>,
    attr: crate::attr::Attr,
    errno: i32,
    origin: Seq<char>,
    reason: Seq<char>,
)
    ensures
        walk_outcome(WalkEndView::Found { path, attr }, origin, reason) == Ok::<
            Seq<char>,
            Seq<char>,
        >(path),
        walk_outcome(WalkEndView::Nul, origin, reason) == Err::<Seq<char>, Seq<char>>(
            "path contains NUL byte"@,
        ),
        walk_outcome(WalkEndView::NoStat { path, errno }, origin, reason) == Err::<
            Seq<char>,
            Seq<char>,
        >(call_failure("stat"@, path, reason)),
        walk_outcome(WalkEndView::NoLink { path }, origin, reason) == Err::<Seq<char>, Seq<char>>(
            call_failure("readlink"@, path, reason),
        ),
        walk_outcome(WalkEndView::TooDeep, origin, reason) == Err::<Seq<char>, Seq<char>>(
            "symlink loop or depth > 8: "@ + debug_text(origin),
        ),
{
}

}
