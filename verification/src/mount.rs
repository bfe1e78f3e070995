//! Opening a volume: which way, with which checks, and what is said where it
//! fails.

use vstd::prelude::*;

use crate::device::BlockSource;
use crate::text::{contains_nul, dec, dec_text, has_nul};

verus! {

/// A partition as the partition table lists it. Sectors have 512 bytes.
pub struct Partition {
    pub start_lba: u64,
    pub num_sectors: u64,
    pub kind: String,
    pub name: Option<String>,
}

/// A range of bytes of a device. Every position in it fits a `u64`.
#[derive(Clone, Copy, Debug)]
pub struct Window {
    base: u64,
    len: u64,
}

impl Window {
    #[verifier::type_invariant]
    closed spec fn fits(self) -> bool {
        self.base + self.len <= u64::MAX
    }

    /// Where the range starts on the device.
    pub closed spec fn spec_base(self) -> int {
        self.base as int
    }

    /// How many bytes it spans.
    pub closed spec fn spec_len(self) -> int {
        self.len as int
    }

    /// Where the range starts on the device.
    pub fn base(&self) -> (n: u64)
        ensures
            n == self.spec_base(),
    {
        self.base
    }

    /// How many bytes it spans.
    pub fn len(&self) -> (n: u64)
        ensures
            n == self.spec_len(),
            self.spec_base() + n <= u64::MAX,
    {
        proof {
            use_type_invariant(self);
        }
        self.len
    }

    /// The range of `len` bytes from `base` on, where its end fits a `u64`.
    pub fn new(base: u64, len: u64) -> (out: Option<Window>)
        ensures
            out is Some <==> base + len <= u64::MAX,
            out matches Some(w) ==> w.spec_base() == base && w.spec_len() == len,
    {
        if len > u64::MAX - base {
            None
        } else {
            Some(Window { base, len })
        }
    }

    /// Where on the device an access to `length` bytes at `offset` of the
    /// range goes. `None` where it would leave the range.
    pub fn place(&self, offset: u64, length: u64) -> (at: Option<u64>)
        ensures
            at is Some <==> offset + length <= self.spec_len(),
            at matches Some(n) ==> n == self.spec_base() + offset,
    {
        proof {
            use_type_invariant(self);
        }
        if length > u64::MAX - offset || offset + length > self.len {
            None
        } else {
            Some(self.base + offset)
        }
    }
}

/// A source seen through a window: positions count from the start of the
/// window, and nothing outside of it can be read.
pub struct SliceCtx<S: BlockSource> {
    pub src: S,
    pub window: Window,
}

impl<S: BlockSource> BlockSource for SliceCtx<S> {
    /// A read that leaves the window fails; any other one turns out as that of
    /// the source at its place there.
    open spec fn may_read(&self, offset: u64, len: nat, outcome: Option<Seq<u8>>) -> bool {
        if offset + len <= self.window.spec_len() {
            self.src.may_read((self.window.spec_base() + offset) as u64, len, outcome)
        } else {
            outcome is None
        }
    }

    /// A read that leaves the window does not touch the buffer.
    fn read_at(&self, offset: u64, buf: &mut [u8]) -> (ok: bool)
        ensures
            offset + old(buf)@.len() > self.window.spec_len() ==> !ok && final(buf)@ == old(buf)@,
    {
        match self.window.place(offset, buf.len() as u64) {
            Some(at) => self.src.read_at(at, buf),
            None => false,
        }
    }

    fn size(&self) -> (n: u64)
        ensures
            n == self.window.spec_len(),
    {
        self.window.len()
    }
}

/// What a block-device callback hands back: zero where the access was made and
/// succeeded, else minus one.
pub fn callback_code(succeeded: bool) -> (code: i32)
    ensures
        code == if succeeded {
            0i32
        } else {
            -1i32
        },
{
    if succeeded {
        0
    } else {
        -1
    }
}

/// An open volume: the part of the device that it is confined to, where it
/// lies in a partition, and whether it may be written.
#[derive(Clone, Copy, Debug)]
pub struct Mount {
    pub window: Option<Window>,
    pub writable: bool,
}

/// Which way a volume is opened.
#[derive(Clone, Copy, Debug, PartialEq, Eq, Structural)]
pub enum Opening {
    /// The whole file or device holds the volume.
    Direct { writable: bool },
    /// Partition `n`, counted from one, holds it.
    Partition { n: usize, writable: bool },
}

/// Partition zero means the whole device, as if no partition had been named.
pub open spec fn opening_for(part: Option<usize>, writable: bool) -> Opening {
    match part {
        None => Opening::Direct { writable },
        Some(n) => if n == 0 {
            Opening::Direct { writable }
        } else {
            Opening::Partition { n, writable }
        },
    }
}

/// A volume that is about to be opened on a whole file or device.
pub struct DirectOpen {
    pub path: String,
    pub shown: String,
    pub writable: bool,
}

/// A volume that is about to be opened in a partition.
pub struct PartitionOpen {
    pub n: usize,
    pub kind: String,
    pub window: Window,
    pub writable: bool,
}

/// The line of the hint for one partition.
pub open spec fn hint_line(number: nat, p: Partition) -> Seq<char> {
    "  "@ + dec(number) + ": "@ + dec(p.num_sectors as nat) + " sectors @ LBA "@ + dec(
        p.start_lba as nat,
    ) + " ("@ + p.kind@ + ")\n"@
}

/// The lines of the hint for the first `count` partitions.
pub open spec fn hint_lines(parts: Seq<Partition>, count: nat) -> Seq<char>
    decreases count,
{
    if count == 0 {
        Seq::empty()
    } else {
        hint_lines(parts, (count - 1) as nat) + hint_line(count, parts[count - 1])
    }
}

/// What is added to the failure to open a device as one volume, where the
/// device turns out to have partitions.
pub open spec fn hint_text(parts: Option<Seq<Partition>>) -> Seq<char> {
    match parts {
        Some(list) => if list.len() > 0 {
            "\nhint: this looks like a partitioned device. Try --part N:\n"@ + hint_lines(
                list,
                list.len(),
            )
        } else {
            Seq::empty()
        },
        None => Seq::empty(),
    }
}

/// The failure to open a whole file or device.
pub open spec fn direct_failure(
    shown: Seq<char>,
    writable: bool,
    parts: Option<Seq<Partition>>,
    reason: Seq<char>,
) -> Seq<char> {
    if writable {
        "mount_rw "@ + shown + " failed: "@ + reason
    } else {
        "mount "@ + shown + " failed: "@ + reason + hint_text(parts)
    }
}

/// Whether the bounds of a partition can be told in bytes.
pub open spec fn countable(p: Partition) -> bool {
    p.start_lba * 512 <= u64::MAX && p.num_sectors * 512 <= u64::MAX
}

/// Why partition `n` cannot be opened, or `None` where it can.
pub open spec fn partition_refusal(
    shown: Seq<char>,
    n: usize,
    parts: Seq<Partition>,
    device_size: u64,
) -> Option<Seq<char>> {
    if parts.len() == 0 {
        Some("no partitions found in "@ + shown)
    } else if n == 0 || n > parts.len() {
        Some("--part "@ + dec(n as nat) + " out of range (1..="@ + dec(parts.len()) + ")"@)
    } else {
        let end = parts[n - 1].start_lba * 512 + parts[n - 1].num_sectors * 512;
        if end > u64::MAX {
            Some("partition geometry overflows u64"@)
        } else if end > device_size {
            Some(
                "partition "@ + dec(n as nat) + " extends past device end: "@ + dec(end as nat)
                    + " > "@ + dec(device_size as nat) + " bytes"@,
            )
        } else {
            None
        }
    }
}

/// The failure to open a partition that passed the checks.
pub open spec fn partition_failure(
    n: usize,
    kind: Seq<char>,
    writable: bool,
    reason: Seq<char>,
) -> Seq<char> {
    (if writable {
        "mount_rw partition "@
    } else {
        "mount partition "@
    }) + dec(n as nat) + " ("@ + kind + ") failed: "@ + reason
}

fn hint(parts: Option<&[Partition]>) -> (out: String)
    ensures
        out@ == hint_text(
            match parts {
                Some(list) => Some(list@),
                None => None,
            },
        ),
{
    let list = match parts {
        Some(list) => list,
        None => {
            return String::new();
        },
    };
    if list.len() == 0 {
        return String::new();
    }
    let mut lines = String::new();
    for i in 0..list.len()
        invariant
            lines@ == hint_lines(list@, i as nat),
    {
        let p = &list[i];
        let mut line = "  ".to_owned();
        line.append(dec_text(i as u64 + 1).as_str());
        line.append(": ");
        line.append(dec_text(p.num_sectors).as_str());
        line.append(" sectors @ LBA ");
        line.append(dec_text(p.start_lba).as_str());
        line.append(" (");
        line.append(p.kind.as_str());
        line.append(")\n");
        lines.append(line.as_str());
    }
    let mut out = "\nhint: this looks like a partitioned device. Try --part N:\n".to_owned();
    out.append(lines.as_str());
    out
}

fn direct(image: Option<&str>, shown: &str, writable: bool) -> (out: Result<DirectOpen, String>)
    ensures
        match image {
            None => out matches Err(e) && e@ == "image path is not valid UTF-8: "@ + shown@,
            Some(path) => if has_nul(path@) {
                out matches Err(e) && e@ == "image path contains NUL byte"@
            } else {
                out matches Ok(d) && d.path@ == path@ && d.shown@ == shown@ && d.writable
                    == writable
            },
        },
{
    match image {
        None => {
            let mut e = "image path is not valid UTF-8: ".to_owned();
            e.append(shown);
            Err(e)
        },
        Some(path) => if contains_nul(path) {
            Err("image path contains NUL byte".to_owned())
        } else {
            Ok(DirectOpen { path: path.to_owned(), shown: shown.to_owned(), writable })
        },
    }
}

fn partition(
    shown: &str,
    n: usize,
    parts: &[Partition],
    device_size: u64,
    writable: bool,
) -> (out: Result<PartitionOpen, String>)
    requires
        1 <= n <= parts@.len() ==> countable(parts@[n - 1]),
    ensures
        match partition_refusal(shown@, n, parts@, device_size) {
            Some(why) => out matches Err(e) && e@ == why,
            None => out matches Ok(p) && {
                &&& p.n == n
                &&& p.kind@ == parts@[n - 1].kind@
                &&& p.window.spec_base() == parts@[n - 1].start_lba * 512
                &&& p.window.spec_len() == parts@[n - 1].num_sectors * 512
                &&& p.window.spec_base() + p.window.spec_len() <= device_size
                &&& p.writable == writable
            },
        },
{
    if parts.len() == 0 {
        let mut e = "no partitions found in ".to_owned();
        e.append(shown);
        return Err(e);
    }
    if n == 0 || n > parts.len() {
        let mut e = "--part ".to_owned();
        e.append(dec_text(n as u64).as_str());
        e.append(" out of range (1..=");
        e.append(dec_text(parts.len() as u64).as_str());
        e.append(")");
        return Err(e);
    }
    let p = &parts[n - 1];
    let base: u64 = p.start_lba * 512;
    let len: u64 = p.num_sectors * 512;
    let window = match Window::new(base, len) {
        Some(window) => window,
        None => {
            return Err("partition geometry overflows u64".to_owned());
        },
    };
    let end: u64 = base + len;
    if end > device_size {
        let mut e = "partition ".to_owned();
        e.append(dec_text(n as u64).as_str());
        e.append(" extends past device end: ");
        e.append(dec_text(end).as_str());
        e.append(" > ");
        e.append(dec_text(device_size).as_str());
        e.append(" bytes");
        return Err(e);
    }
    Ok(PartitionOpen { n, kind: p.kind.clone(), window, writable })
}

impl Mount {
    /// The way to open a volume for reading.
    pub fn open(part: Option<usize>) -> (way: Opening)
        ensures
            way == opening_for(part, false),
    {
        match part {
            None => Opening::Direct { writable: false },
            Some(n) => if n == 0 {
                Opening::Direct { writable: false }
            } else {
                Opening::Partition { n, writable: false }
            },
        }
    }

    /// The way to open a volume for writing. Where the build cannot write, the
    /// volume is opened for reading.
    pub fn open_rw(part: Option<usize>, can_write: bool) -> (way: Opening)
        ensures
            way == opening_for(part, can_write),
    {
        match part {
            None => Opening::Direct { writable: can_write },
            Some(n) => if n == 0 {
                Opening::Direct { writable: can_write }
            } else {
                Opening::Partition { n, writable: can_write }
            },
        }
    }

    /// Checks the path of a whole file or device that is to be opened for
    /// reading. `image` is the path as text, where it is text; `shown` is how
    /// messages show it.
    pub fn open_direct(image: Option<&str>, shown: &str) -> (out: Result<DirectOpen, String>)
        ensures
            match image {
                None => out matches Err(e) && e@ == "image path is not valid UTF-8: "@ + shown@,
                Some(path) => if has_nul(path@) {
                    out matches Err(e) && e@ == "image path contains NUL byte"@
                } else {
                    out matches Ok(d) && d.path@ == path@ && d.shown@ == shown@ && !d.writable
                },
            },
    {
        direct(image, shown, false)
    }

    /// Checks the path of a whole file or device that is to be opened for
    /// writing.
    pub fn open_direct_rw(image: Option<&str>, shown: &str) -> (out: Result<DirectOpen, String>)
        ensures
            match image {
                None => out matches Err(e) && e@ == "image path is not valid UTF-8: "@ + shown@,
                Some(path) => if has_nul(path@) {
                    out matches Err(e) && e@ == "image path contains NUL byte"@
                } else {
                    out matches Ok(d) && d.path@ == path@ && d.shown@ == shown@ && d.writable
                },
            },
    {
        direct(image, shown, true)
    }

    /// Picks partition `n` of a device, to be opened for reading.
    pub fn open_partition(shown: &str, n: usize, parts: &[Partition], device_size: u64) -> (out:
        Result<PartitionOpen, String>)
        requires
            1 <= n <= parts@.len() ==> countable(parts@[n - 1]),
        ensures
            match partition_refusal(shown@, n, parts@, device_size) {
                Some(why) => out matches Err(e) && e@ == why,
                None => out matches Ok(p) && {
                    &&& p.n == n
                    &&& p.kind@ == parts@[n - 1].kind@
                    &&& p.window.spec_base() == parts@[n - 1].start_lba * 512
                    &&& p.window.spec_len() == parts@[n - 1].num_sectors * 512
                    &&& p.window.spec_base() + p.window.spec_len() <= device_size
                    &&& !p.writable
                },
            },
    {
        partition(shown, n, parts, device_size, false)
    }

    /// Picks partition `n` of a device, to be opened for writing.
    pub fn open_partition_rw(shown: &str, n: usize, parts: &[Partition], device_size: u64) -> (out:
        Result<PartitionOpen, String>)
        requires
            1 <= n <= parts@.len() ==> countable(parts@[n - 1]),
        ensures
            match partition_refusal(shown@, n, parts@, device_size) {
                Some(why) => out matches Err(e) && e@ == why,
                None => out matches Ok(p) && {
                    &&& p.n == n
                    &&& p.kind@ == parts@[n - 1].kind@
                    &&& p.window.spec_base() == parts@[n - 1].start_lba * 512
                    &&& p.window.spec_len() == parts@[n - 1].num_sectors * 512
                    &&& p.window.spec_base() + p.window.spec_len() <= device_size
                    &&& p.writable
                },
            },
    {
        partition(shown, n, parts, device_size, true)
    }
}

impl DirectOpen {
    /// Settles the opening of a whole file or device. `parts` are the
    /// partitions found on it, where they could be listed, and `reason` is
    /// what the ext4 side says of the failure.
    pub fn on_mounted(self, mounted: bool, parts: Option<&[Partition]>, reason: &str) -> (out:
        Result<Mount, String>)
        ensures
            if mounted {
                out matches Ok(m) && m.window is None && m.writable == self.writable
            } else {
                out matches Err(e) && e@ == direct_failure(
                    self.shown@,
                    self.writable,
                    match parts {
                        Some(list) => Some(list@),
                        None => None,
                    },
                    reason@,
                )
            },
    {
        if mounted {
            return Ok(Mount { window: None, writable: self.writable });
        }
        let mut e = if self.writable {
            "mount_rw ".to_owned()
        } else {
            "mount ".to_owned()
        };
        e.append(self.shown.as_str());
        e.append(" failed: ");
        e.append(reason);
        if !self.writable {
            e.append(hint(parts).as_str());
        }
        Err(e)
    }
}

impl PartitionOpen {
    /// Settles the opening of a partition.
    pub fn on_mounted(self, mounted: bool, reason: &str) -> (out: Result<Mount, String>)
        ensures
            if mounted {
                out matches Ok(m) && m.window == Some(self.window) && m.writable == self.writable
            } else {
                out matches Err(e) && e@ == partition_failure(
                    self.n,
                    self.kind@,
                    self.writable,
                    reason@,
                )
            },
    {
        if mounted {
            return Ok(Mount { window: Some(self.window), writable: self.writable });
        }
        let mut e = if self.writable {
            "mount_rw partition ".to_owned()
        } else {
            "mount partition ".to_owned()
        };
        e.append(dec_text(self.n as u64).as_str());
        e.append(" (");
        e.append(self.kind.as_str());
        e.append(") failed: ");
        e.append(reason);
        Err(e)
    }
}

/// The positions on the device that an access to `length` bytes at `offset` of
/// a window touches, where the window lets it through.
pub open spec fn touches(w: Window, offset: u64, length: u64, position: int) -> bool {
    &&& offset + length <= w.spec_len()
    &&& w.spec_base() + offset <= position < w.spec_base() + offset + length
}

/// No access through a window touches anything outside of it. So accesses
/// through windows that do not overlap never touch the same byte.
pub proof fn law_windows_confine(
    a: Window,
    b: Window,
    offset_a: u64,
    length_a: u64,
    offset_b: u64,
    length_b: u64,
    position: int,
)
    ensures
        touches(a, offset_a, length_a, position) ==> a.spec_base() <= position < a.spec_base()
            + a.spec_len(),
        a.spec_base() + a.spec_len() <= b.spec_base() ==> !(touches(
            a,
            offset_a,
            length_a,
            position,
        ) && touches(b, offset_b, length_b, position)),
{
}

/// A mount opens the whole device, or the partition with the given number; the
/// number zero means the whole device too.
pub proof fn law_openings(part: Option<usize>, writable: bool)
    ensures
        part is None || part == Some(0usize) ==> opening_for(part, writable) == (Opening::Direct {
            writable,
        }),
        part is Some && part->0 > 0 ==> opening_for(part, writable) == (Opening::Partition {
            n: part->0,
            writable,
        }),
{
}

/// A partition is opened exactly where the table has one with this number and
/// the device holds all its sectors; a sector has 512 bytes. Otherwise the
/// message says what is wrong, with the numbers.
#[verifier::rlimit(40)]
pub proof fn law_partitions_inside_the_device_are_opened(
    shown: Seq<char>,
    n: usize,
    parts: Seq<Partition>,
    device_size: u64,
)
    ensures
        partition_refusal(shown, n, parts, device_size) is None <==> 1 <= n <= parts.len() && 512 * (
        parts[n - 1].start_lba + parts[n - 1].num_sectors) <= device_size,
        parts.len() == 0 ==> partition_refusal(shown, n, parts, device_size) == Some(
            "no partitions found in "@ + shown,
        ),
        parts.len() > 0 && !(1 <= n <= parts.len()) ==> partition_refusal(
            shown,
            n,
            parts,
            device_size,
        ) == Some("--part "@ + dec(n as nat) + " out of range (1..="@ + dec(parts.len()) + ")"@),
        1 <= n <= parts.len() ==> {
            let end = 512 * (parts[n - 1].start_lba + parts[n - 1].num_sectors);
            &&& end > u64::MAX ==> partition_refusal(shown, n, parts, device_size) == Some(
                "partition geometry overflows u64"@,
            )
            &&& device_size < end <= u64::MAX ==> partition_refusal(shown, n, parts, device_size)
                == Some(
                "partition "@ + dec(n as nat) + " extends past device end: "@ + dec(end as nat)
                    + " > "@ + dec(device_size as nat) + " bytes"@,
            )
        },
{
}

/// The hint lists each partition of the table once, in its order, with its
/// number from one on, its sectors, its start and its kind. Without a table, or
/// with an empty one, there is no hint, nor where writing was asked for.
#[verifier::rlimit(40)]
pub proof fn law_hints_list_the_partitions(
    parts: Seq<Partition>,
    p: Partition,
    shown: Seq<char>,
    reason: Seq<char>,
)
    ensures
        hint_text(None) == Seq::<char>::empty(),
        hint_text(Some(Seq::empty())) == Seq::<char>::empty(),
        hint_text(Some(parts.push(p))) == (if parts.len() == 0 {
            "\nhint: this looks like a partitioned device. Try --part N:\n"@
        } else {
            hint_text(Some(parts))
        }) + ("  "@ + dec(parts.len() + 1) + ": "@ + dec(p.num_sectors as nat) + " sectors @ LBA "@
            + dec(p.start_lba as nat) + " ("@ + p.kind@ + ")\n"@),
        direct_failure(shown, false, Some(parts), reason) == "mount "@ + shown + " failed: "@
            + reason + hint_text(Some(parts)),
        direct_failure(shown, true, Some(parts), reason) == "mount_rw "@ + shown + " failed: "@
            + reason,
{
    let more = parts.push(p);
    assert(more.take(parts.len() as int) =~= parts);
    lemma_hint_lines_of_prefix(parts, more, parts.len());
    assert(more[parts.len() as int] == p);
    let head = "\nhint: this looks like a partitioned device. Try --part N:\n"@;
    let lines = hint_lines(parts, parts.len());
    let line = hint_line(parts.len() + 1, p);
    assert(hint_lines(more, more.len()) == lines + line);
    assert(head + (lines + line) =~= (head + lines) + line);
    if parts.len() == 0 {
        assert(head + lines =~= head);
    }
}

proof fn lemma_hint_lines_of_prefix(parts: Seq<Partition>, more: Seq<Partition>, count: nat)
    requires
        count <= parts.len() <= more.len(),
        more.take(parts.len() as int) == parts,
    ensures
        hint_lines(more, count) == hint_lines(parts, count),
    decreases count,
{
    if count > 0 {
        lemma_hint_lines_of_prefix(parts, more, (count - 1) as nat);
        assert(more[count - 1] == more.take(parts.len() as int)[count - 1]);
    }
}

/// A partition that could not be mounted is named by its number and its kind.
pub proof fn law_failed_mounts_name_the_partition(n: usize, kind: Seq<char>, reason: Seq<char>)
    ensures
        partition_failure(n, kind, false, reason) == "mount partition "@ + dec(n as nat) + " ("@
            + kind + ") failed: "@ + reason,
        partition_failure(n, kind, true, reason) == "mount_rw partition "@ + dec(n as nat) + " ("@
            + kind + ") failed: "@ + reason,
{
}

/// A read through a window is the read of the device as far behind the start of
/// the window, where it ends inside the window, and fails otherwise.
pub proof fn law_reads_through_a_window_are_moved<S: BlockSource>(
    c: SliceCtx<S>,
    offset: u64,
    len: nat,
    outcome: Option<Seq<u8>>,
)
    ensures
        offset + len > c.window.spec_len() ==> (c.may_read(offset, len, outcome) <==> outcome
            is None),
        offset + len <= c.window.spec_len() ==> (c.may_read(offset, len, outcome) <==> c.src.may_read(
            (offset + c.window.spec_base()) as u64,
            len,
            outcome,
        )),
{
}

}
