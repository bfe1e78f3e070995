//! Reading from block devices.

use vstd::prelude::*;

verus! {

/// A source of bytes that can be read at any position.
pub trait BlockSource: Send + Sync {
    /// Whether a read of `len` bytes at `offset` can turn out as `outcome`: the
    /// bytes read, or `None` where it fails. A source that says nothing more of
    /// itself leaves every outcome open.
    open spec fn may_read(&self, offset: u64, len: nat, outcome: Option<Seq<u8>>) -> bool {
        true
    }

    /// Fills `buf` with the bytes from `offset` on, and says whether it did.
    fn read_at(&self, offset: u64, buf: &mut [u8]) -> (ok: bool)
        ensures
            self.may_read(
                offset,
                old(buf)@.len(),
                if ok {
                    Some(final(buf)@)
                } else {
                    None
                },
            ),
    ;

    /// How many bytes the source has.
    fn size(&self) -> u64;
}

/// A buffer that is being filled by reads that may each give a part.
#[derive(Clone, Copy, Debug)]
pub struct FillRun {
    pub offset: u64,
    pub len: usize,
    pub filled: usize,
}

/// A read that gave no byte before the buffer was full.
#[derive(Clone, Copy, Debug, PartialEq, Eq, Structural)]
pub struct ShortRead;

impl FillRun {
    /// Whether the run is at a place in its buffer.
    pub open spec fn wf(&self) -> bool {
        self.filled <= self.len
    }

    /// Begins to fill a buffer of `len` bytes from `offset` on.
    pub fn new(offset: u64, len: usize) -> (run: FillRun)
        ensures
            run.wf(),
            run.offset == offset,
            run.len == len,
            run.filled == 0,
    {
        FillRun { offset, len, filled: 0 }
    }

    /// Where to read next, and where in the buffer it goes. `None` where the
    /// buffer is full.
    pub fn next(&self) -> (out: Option<(u64, usize)>)
        requires
            self.wf(),
            self.filled < self.len ==> self.offset + self.filled <= u64::MAX,
        ensures
            match out {
                Some(p) => self.filled < self.len && p.0 == self.offset + self.filled && p.1
                    == self.filled,
                None => self.filled == self.len,
            },
    {
        if self.filled < self.len {
            Some((self.offset + self.filled as u64, self.filled))
        } else {
            None
        }
    }

    /// Takes the count of a read. A read of nothing ends the run.
    pub fn on_count(&mut self, count: usize) -> (out: Result<(), ShortRead>)
        requires
            old(self).wf(),
            count <= old(self).len - old(self).filled,
        ensures
            final(self).wf(),
            final(self).offset == old(self).offset,
            final(self).len == old(self).len,
            final(self).filled == old(self).filled + count,
            out is Err <==> count == 0,
    {
        if count == 0 {
            return Err(ShortRead);
        }
        self.filled = self.filled + count;
        Ok(())
    }
}

/// Reads that give the parts `parts` of a device one behind the other, the
/// first at `at`, fill the buffer with what the device holds there.
pub open spec fn parts_of(device: Seq<u8>, at: int, parts: Seq<Seq<u8>>) -> bool
    decreases parts.len(),
{
    parts.len() > 0 ==> {
        &&& at + parts[0].len() <= device.len()
        &&& parts[0] == device.subrange(at, at + parts[0].len())
        &&& parts_of(device, at + parts[0].len(), parts.skip(1))
    }
}

/// The parts in one piece.
pub open spec fn in_one(parts: Seq<Seq<u8>>) -> Seq<u8>
    decreases parts.len(),
{
    if parts.len() == 0 {
        Seq::empty()
    } else {
        parts[0] + in_one(parts.skip(1))
    }
}

/// However a device cuts up the reads, the buffer ends up with the bytes that
/// the device holds from the offset on.
pub proof fn law_parts_fill_the_buffer(device: Seq<u8>, at: int, parts: Seq<Seq<u8>>)
    requires
        0 <= at <= device.len(),
        parts_of(device, at, parts),
    ensures
        at + in_one(parts).len() <= device.len(),
        in_one(parts) == device.subrange(at, at + in_one(parts).len()),
    decreases parts.len(),
{
    if parts.len() > 0 {
        let next = at + parts[0].len();
        law_parts_fill_the_buffer(device, next, parts.skip(1));
        let end = next + in_one(parts.skip(1)).len();
        assert(device.subrange(at, end) =~= device.subrange(at, next) + device.subrange(
            next,
            end,
        ));
    } else {
        assert(in_one(parts) =~= device.subrange(at, at));
    }
}

/// The size that the metadata of a file tells, where it tells one. That of a
/// raw device reads zero, and the device itself has to be asked.
pub fn known_size(metadata_len: Option<u64>) -> (out: Option<u64>)
    ensures
        out == match metadata_len {
            Some(n) => if n > 0 {
                Some(n)
            } else {
                None
            },
            None => None::<u64>,
        },
{
    match metadata_len {
        Some(n) => if n > 0 {
            Some(n)
        } else {
            None
        },
        None => None,
    }
}

}
