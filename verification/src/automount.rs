//! What the watcher and the service have in common: which mounts they keep,
//! and what they do with a disk that arrives.

use vstd::prelude::*;

use crate::mount::Partition;
use crate::text::{chars_of, dec, dec_text, same_str};

verus! {

// ---------------------------------------------------------------------------
// The mounts that are kept
// ---------------------------------------------------------------------------

/// A mount that is kept: of a partition of a disk, with what belongs to it.
pub struct Kept<T> {
    pub disk: String,
    pub part: usize,
    pub value: T,
}

/// What a mount is found by: the disk's device path and the partition.
pub open spec fn key_of<T>(k: Kept<T>) -> (Seq<char>, usize) {
    (k.disk@, k.part)
}

/// The mounts that are kept, at most one for each partition of a disk.
pub struct MountTable<T> {
    kept: Vec<Kept<T>>,
    shutting_down: bool,
}

/// Whether no two mounts have the same key.
pub open spec fn distinct_keys<T>(kept: Seq<Kept<T>>) -> bool {
    forall|i: int, j: int|
        0 <= i < j < kept.len() ==> key_of(#[trigger] kept[i]) != key_of(#[trigger] kept[j])
}

/// Whether a list holds a mount with the given key.
pub open spec fn holds_key<T>(kept: Seq<Kept<T>>, key: (Seq<char>, usize)) -> bool {
    exists|i: int| 0 <= i < kept.len() && key_of(#[trigger] kept[i]) == key
}

/// The mounts of a list by their keys.
pub open spec fn by_key<T>(kept: Seq<Kept<T>>) -> Map<(Seq<char>, usize), T> {
    Map::new(
        |key: (Seq<char>, usize)| holds_key(kept, key),
        |key: (Seq<char>, usize)|
            {
                let i = choose|i: int| 0 <= i < kept.len() && key_of(#[trigger] kept[i]) == key;
                kept[i].value
            },
    )
}

proof fn lemma_by_key<T>(kept: Seq<Kept<T>>, i: int)
    requires
        distinct_keys(kept),
        0 <= i < kept.len(),
    ensures
        by_key(kept).contains_key(key_of(kept[i])),
        by_key(kept)[key_of(kept[i])] == kept[i].value,
{
    let key = key_of(kept[i]);
    assert(holds_key(kept, key));
    let j = choose|j: int| 0 <= j < kept.len() && key_of(#[trigger] kept[j]) == key;
    if j < i {
        assert(key_of(kept[j]) != key_of(kept[i]));
    } else if i < j {
        assert(key_of(kept[i]) != key_of(kept[j]));
    }
}

impl<T> MountTable<T> {
    /// No partition of a disk is kept twice.
    pub closed spec fn wf(&self) -> bool {
        distinct_keys(self.kept@)
    }

    /// The mounts by disk and partition.
    pub closed spec fn mounts(&self) -> Map<(Seq<char>, usize), T> {
        by_key(self.kept@)
    }

    /// Whether no more mounts are to be made.
    pub closed spec fn closing(&self) -> bool {
        self.shutting_down
    }

    /// No mounts yet.
    pub fn new() -> (table: MountTable<T>)
        ensures
            table.wf(),
            table.mounts() == Map::<(Seq<char>, usize), T>::empty(),
            !table.closing(),
    {
        let table = MountTable { kept: Vec::new(), shutting_down: false };
        proof {
            assert(table.mounts() =~= Map::empty());
        }
        table
    }

    /// Whether no more mounts are to be made.
    pub fn is_shutting_down(&self) -> (yes: bool)
        ensures
            yes == self.closing(),
    {
        self.shutting_down
    }

    /// Lets no more mounts be made.
    pub fn begin_shutdown(&mut self)
        requires
            old(self).wf(),
        ensures
            final(self).wf(),
            final(self).closing(),
            final(self).mounts() == old(self).mounts(),
    {
        self.shutting_down = true;
    }

    fn find(&self, disk: &str, part: usize) -> (at: Option<usize>)
        ensures
            match at {
                Some(i) => i < self.kept@.len() && key_of(self.kept@[i as int]) == (disk@, part),
                None => !holds_key(self.kept@, (disk@, part)),
            },
    {
        for i in 0..self.kept.len()
            invariant
                forall|k: int| 0 <= k < i ==> key_of(#[trigger] self.kept@[k]) != (disk@, part),
        {
            if self.kept[i].part == part && same_str(self.kept[i].disk.as_str(), disk) {
                return Some(i);
            }
        }
        None
    }

    /// Keeps a mount, and hands back the one that it replaces, if any.
    pub fn insert(&mut self, disk: &str, part: usize, value: T) -> (replaced: Option<T>)
        requires
            old(self).wf(),
        ensures
            final(self).wf(),
            final(self).closing() == old(self).closing(),
            final(self).mounts() == old(self).mounts().insert((disk@, part), value),
            replaced == if old(self).mounts().contains_key((disk@, part)) {
                Some(old(self).mounts()[(disk@, part)])
            } else {
                None
            },
    {
        let ghost before = self.kept@;
        let added = Kept { disk: disk.to_owned(), part, value };
        match self.find(disk, part) {
            Some(i) => {
                let out = self.kept.swap_remove(i);
                let ghost middle = self.kept@;
                self.kept.push(added);
                proof {
                    lemma_by_key(before, i as int);
                    lemma_replaced(before, i as int, middle, self.kept@, added);
                }
                Some(out.value)
            },
            None => {
                self.kept.push(added);
                proof {
                    lemma_added(before, self.kept@, added);
                }
                None
            },
        }
    }
}

proof fn lemma_added<T>(before: Seq<Kept<T>>, after: Seq<Kept<T>>, added: Kept<T>)
    requires
        distinct_keys(before),
        !holds_key(before, key_of(added)),
        after == before.push(added),
    ensures
        distinct_keys(after),
        by_key(after) == by_key(before).insert(key_of(added), added.value),
{
    let key = key_of(added);
    assert forall|i: int, j: int| 0 <= i < j < after.len() implies key_of(#[trigger] after[i])
        != key_of(#[trigger] after[j]) by {
        if j == before.len() {
            assert(key_of(before[i]) != key);
        }
    }
    assert forall|k: (Seq<char>, usize)| #[trigger]
        by_key(after).contains_key(k) <==> by_key(before).contains_key(k) || k == key by {
        if holds_key(after, k) {
            let i = choose|i: int| 0 <= i < after.len() && key_of(#[trigger] after[i]) == k;
            if i < before.len() {
                assert(key_of(before[i]) == k);
            }
        }
        if holds_key(before, k) {
            let i = choose|i: int| 0 <= i < before.len() && key_of(#[trigger] before[i]) == k;
            assert(key_of(after[i]) == k);
        }
        assert(key_of(after[before.len() as int]) == key);
    }
    assert forall|k: (Seq<char>, usize)| by_key(after).contains_key(k) implies #[trigger] by_key(
        after,
    )[k] == by_key(before).insert(key, added.value)[k] by {
        let i = choose|i: int| 0 <= i < after.len() && key_of(#[trigger] after[i]) == k;
        lemma_by_key(after, i);
        if i < before.len() {
            lemma_by_key(before, i);
            assert(key_of(before[i]) == k);
        }
    }
    assert(by_key(after) =~= by_key(before).insert(key, added.value));
}

proof fn lemma_replaced<T>(
    before: Seq<Kept<T>>,
    at: int,
    middle: Seq<Kept<T>>,
    after: Seq<Kept<T>>,
    added: Kept<T>,
)
    requires
        distinct_keys(before),
        0 <= at < before.len(),
        key_of(before[at]) == key_of(added),
        middle == before.update(at, before.last()).drop_last(),
        after == middle.push(added),
    ensures
        distinct_keys(after),
        by_key(after) == by_key(before).insert(key_of(added), added.value),
{
    let key = key_of(added);
    let n = before.len() - 1;
    assert forall|i: int, j: int| 0 <= i < j < middle.len() implies key_of(#[trigger] middle[i])
        != key_of(#[trigger] middle[j]) by {
        let a = if i == at {
            n
        } else {
            i
        };
        let b = if j == at {
            n
        } else {
            j
        };
        assert(middle[i] == before[a] && middle[j] == before[b]);
        if a < b {
            assert(key_of(before[a]) != key_of(before[b]));
        } else {
            assert(key_of(before[b]) != key_of(before[a]));
        }
    }
    assert forall|i: int| 0 <= i < middle.len() implies key_of(#[trigger] middle[i]) != key by {
        let a = if i == at {
            n
        } else {
            i
        };
        assert(middle[i] == before[a]);
        if a < at {
            assert(key_of(before[a]) != key_of(before[at]));
        } else {
            assert(key_of(before[at]) != key_of(before[a]));
        }
    }
    lemma_added(middle, after, added);
    assert forall|k: (Seq<char>, usize)| k != key implies (#[trigger] by_key(middle).contains_key(k)
        <==> by_key(before).contains_key(k)) && (by_key(middle).contains_key(k) ==> by_key(
        middle,
    )[k] == by_key(before)[k]) by {
        if holds_key(middle, k) {
            let i = choose|i: int| 0 <= i < middle.len() && key_of(#[trigger] middle[i]) == k;
            let a = if i == at {
                n
            } else {
                i
            };
            assert(middle[i] == before[a]);
            assert(key_of(before[a]) == k);
            lemma_by_key(middle, i);
            lemma_by_key(before, a);
        }
        if holds_key(before, k) {
            let a = choose|a: int| 0 <= a < before.len() && key_of(#[trigger] before[a]) == k;
            let i = if a == n {
                at
            } else {
                a
            };
            assert(a != at);
            assert(i < middle.len());
            assert(middle[i] == before[a]);
            assert(key_of(middle[i]) == k);
        }
    }
    assert(by_key(after) =~= by_key(before).insert(key, added.value));
}

proof fn lemma_popped<T>(kept: Seq<Kept<T>>)
    requires
        distinct_keys(kept),
        kept.len() > 0,
    ensures
        distinct_keys(kept.drop_last()),
        !holds_key(kept.drop_last(), key_of(kept.last())),
        by_key(kept) == by_key(kept.drop_last()).insert(key_of(kept.last()), kept.last().value),
{
    let rest = kept.drop_last();
    let key = key_of(kept.last());
    assert forall|i: int, j: int| 0 <= i < j < rest.len() implies key_of(#[trigger] rest[i])
        != key_of(#[trigger] rest[j]) by {
        assert(key_of(kept[i]) != key_of(kept[j]));
    }
    assert forall|i: int| 0 <= i < rest.len() implies key_of(#[trigger] rest[i]) != key by {
        assert(key_of(kept[i]) != key_of(kept[kept.len() - 1]));
    }
    assert(rest.push(kept.last()) =~= kept);
    lemma_added(rest, kept, kept.last());
}

/// The keys of a disk's partitions.
pub open spec fn on_disk(disk: Seq<char>) -> Set<(Seq<char>, usize)> {
    Set::new(|key: (Seq<char>, usize)| key.0 == disk)
}

impl<T> MountTable<T> {
    /// Takes out all mounts of a disk, in no particular order.
    pub fn remove_disk(&mut self, disk: &str) -> (gone: Vec<Kept<T>>)
        requires
            old(self).wf(),
        ensures
            final(self).wf(),
            final(self).closing() == old(self).closing(),
            final(self).mounts() == old(self).mounts().remove_keys(on_disk(disk@)),
            distinct_keys(gone@),
            by_key(gone@) == old(self).mounts().restrict(on_disk(disk@)),
    {
        let ghost all = by_key(self.kept@);
        let mut gone: Vec<Kept<T>> = Vec::new();
        let mut rest: Vec<Kept<T>> = Vec::new();
        let mut left: Vec<Kept<T>> = Vec::new();
        std::mem::swap(&mut left, &mut self.kept);
        proof {
            assert(by_key(gone@) =~= Map::empty());
            assert(by_key(rest@) =~= Map::empty());
        }
        while left.len() > 0
            invariant
                distinct_keys(left@),
                distinct_keys(gone@),
                distinct_keys(rest@),
                forall|k: (Seq<char>, usize)| #[trigger]
                    by_key(left@).contains_key(k) ==> all.contains_pair(k, by_key(left@)[k]),
                forall|k: (Seq<char>, usize)| #[trigger]
                    by_key(gone@).contains_key(k) <==> all.contains_key(k) && k.0 == disk@
                        && !by_key(left@).contains_key(k),
                forall|k: (Seq<char>, usize)|
                    by_key(gone@).contains_key(k) ==> #[trigger] by_key(gone@)[k] == all[k],
                forall|k: (Seq<char>, usize)| #[trigger]
                    by_key(rest@).contains_key(k) <==> all.contains_key(k) && k.0 != disk@
                        && !by_key(left@).contains_key(k),
                forall|k: (Seq<char>, usize)|
                    by_key(rest@).contains_key(k) ==> #[trigger] by_key(rest@)[k] == all[k],
            decreases left@.len(),
        {
            let ghost before = left@;
            let ghost gone_before = gone@;
            let ghost rest_before = rest@;
            proof {
                lemma_popped(before);
            }
            if let Some(k) = left.pop() {
                let ghost key = key_of(k);
                proof {
                    assert(by_key(before).contains_key(key));
                    assert(all.contains_pair(key, k.value));
                    assert forall|x: (Seq<char>, usize)| #[trigger]
                        by_key(left@).contains_key(x) implies all.contains_pair(
                        x,
                        by_key(left@)[x],
                    ) by {
                        assert(x != key);
                        assert(by_key(before).contains_key(x));
                        assert(by_key(before)[x] == by_key(left@)[x]);
                    }
                }
                if same_str(k.disk.as_str(), disk) {
                    gone.push(k);
                    proof {
                        assert(!by_key(gone_before).contains_key(key));
                        lemma_added(gone_before, gone@, k);
                    }
                } else {
                    rest.push(k);
                    proof {
                        assert(!by_key(rest_before).contains_key(key));
                        lemma_added(rest_before, rest@, k);
                    }
                }
            }
        }
        proof {
            assert(by_key(left@) =~= Map::empty());
            assert(by_key(gone@) =~= all.restrict(on_disk(disk@)));
            assert(by_key(rest@) =~= all.remove_keys(on_disk(disk@)));
        }
        self.kept = rest;
        gone
    }

    /// Takes out all mounts, in no particular order, and lets no more be made.
    pub fn drain(&mut self) -> (gone: Vec<Kept<T>>)
        requires
            old(self).wf(),
        ensures
            final(self).wf(),
            final(self).closing(),
            final(self).mounts() == Map::<(Seq<char>, usize), T>::empty(),
            distinct_keys(gone@),
            by_key(gone@) == old(self).mounts(),
    {
        let mut gone: Vec<Kept<T>> = Vec::new();
        std::mem::swap(&mut gone, &mut self.kept);
        self.shutting_down = true;
        proof {
            assert(by_key(self.kept@) =~= Map::empty());
        }
        gone
    }
}

/// Removing a disk leaves nothing of it, keeps every other disk's mounts, and
/// hands out each mount of the disk exactly once.
pub proof fn law_removal_splits_the_mounts<T>(
    mounts: Map<(Seq<char>, usize), T>,
    disk: Seq<char>,
    key: (Seq<char>, usize),
)
    ensures
        ({
            let left = mounts.remove_keys(on_disk(disk));
            let gone = mounts.restrict(on_disk(disk));
            &&& mounts.contains_key(key) <==> left.contains_key(key) != gone.contains_key(key)
            &&& !(left.contains_key(key) && gone.contains_key(key))
            &&& left.contains_key(key) ==> key.0 != disk && left[key] == mounts[key]
            &&& gone.contains_key(key) ==> key.0 == disk && gone[key] == mounts[key]
        }),
{
}

// ---------------------------------------------------------------------------
// A disk that arrives
// ---------------------------------------------------------------------------

/// What is done with a disk that arrived.
pub enum ArrivalPlan {
    /// The disk has no partition table: it is mounted as one volume.
    WholeDisk,
    /// Each of these partitions is probed, and mounted where it is ext4.
    Probe(Vec<ProbeTarget>),
    /// Nothing but a message.
    Report(String),
}

/// A partition to probe: its number, counted from one, and where it starts.
#[derive(Clone, Copy, Debug, PartialEq, Eq, Structural)]
pub struct ProbeTarget {
    pub n: usize,
    pub offset: u64,
}

/// Whether `s` contains `needle`.
pub open spec fn contains_text(s: Seq<char>, needle: Seq<char>) -> bool {
    exists|i: int|
        0 <= i && i + needle.len() <= s.len() && #[trigger] s.subrange(i, i + needle.len())
            == needle
}

fn text_at(s: &Vec<char>, needle: &Vec<char>, at: usize) -> (yes: bool)
    requires
        at + needle@.len() <= s@.len(),
    ensures
        yes == (s@.subrange(at as int, at + needle@.len()) == needle@),
{
    for j in 0..needle.len()
        invariant
            at + needle@.len() <= s@.len(),
            s@.len() == s.len(),
            forall|k: int| 0 <= k < j ==> s@[at + k] == needle@[k],
    {
        if s[at + j] != needle[j] {
            proof {
                assert(s@.subrange(at as int, at + needle@.len())[j as int] == s@[at + j]);
            }
            return false;
        }
    }
    proof {
        assert(s@.subrange(at as int, at + needle@.len()) =~= needle@);
    }
    true
}

fn has_text(s: &str, needle: &str) -> (yes: bool)
    ensures
        yes == contains_text(s@, needle@),
{
    let x = chars_of(s);
    let y = chars_of(needle);
    if y.len() > x.len() {
        return false;
    }
    let last: usize = x.len() - y.len();
    let mut i: usize = 0;
    while i <= last
        invariant
            x@ == s@,
            y@ == needle@,
            last == x@.len() - y@.len(),
            i <= last + 1,
            forall|k: int|
                0 <= k < i && k + y@.len() <= x@.len() ==> #[trigger] x@.subrange(
                    k,
                    k + y@.len(),
                ) != y@,
        decreases last + 1 - i,
    {
        if text_at(&x, &y, i) {
            return true;
        }
        if i == last {
            return false;
        }
        i = i + 1;
    }
    false
}

/// Whether the reason for which partitions could not be listed is that the
/// disk has no partition table.
pub open spec fn unpartitioned(reason: Seq<char>) -> bool {
    contains_text(reason, "no MBR signature"@)
}

/// The partitions to probe.
pub open spec fn probe_targets(parts: Seq<Partition>) -> Seq<ProbeTarget> {
    Seq::new(
        parts.len(),
        |i: int|
            ProbeTarget { n: (i + 1) as usize, offset: (parts[i].start_lba * 512) as u64 },
    )
}

/// What is done with a disk that arrived, whose partitions are given, or why
/// they could not be listed. `tag` stands in front of messages.
pub fn arrival_plan(tag: &str, disk: &str, listed: Result<&[Partition], &str>) -> (plan:
    ArrivalPlan)
    requires
        listed matches Ok(parts) ==> forall|i: int|
            0 <= i < parts@.len() ==> (#[trigger] parts@[i]).start_lba * 512 <= u64::MAX,
    ensures
        match listed {
            Ok(parts) => plan matches ArrivalPlan::Probe(targets) && targets@ == probe_targets(
                parts@,
            ),
            Err(reason) => if unpartitioned(reason@) {
                plan is WholeDisk
            } else {
                plan matches ArrivalPlan::Report(m) && m@ == tag@ + " partition::list("@ + disk@
                    + ") failed: "@ + reason@
            },
        },
{
    match listed {
        Ok(parts) => {
            let mut targets: Vec<ProbeTarget> = Vec::new();
            for i in 0..parts.len()
                invariant
                    forall|k: int|
                        0 <= k < parts@.len() ==> (#[trigger] parts@[k]).start_lba * 512
                            <= u64::MAX,
                    targets@ == probe_targets(parts@).take(i as int),
            {
                targets.push(ProbeTarget { n: i + 1, offset: parts[i].start_lba * 512 });
                proof {
                    assert(targets@ =~= probe_targets(parts@).take(i + 1));
                }
            }
            proof {
                assert(targets@ =~= probe_targets(parts@));
            }
            ArrivalPlan::Probe(targets)
        },
        Err(reason) => if has_text(reason, "no MBR signature") {
            ArrivalPlan::WholeDisk
        } else {
            let mut m = tag.to_owned();
            m.append(" partition::list(");
            m.append(disk);
            m.append(") failed: ");
            m.append(reason);
            ArrivalPlan::Report(m)
        },
    }
}

/// Whether the start of every partition can be told in bytes.
pub fn starts_fit(parts: &[Partition]) -> (ok: bool)
    ensures
        ok == (forall|i: int|
            0 <= i < parts@.len() ==> (#[trigger] parts@[i]).start_lba * 512 <= u64::MAX),
{
    for i in 0..parts.len()
        invariant
            forall|k: int| 0 <= k < i ==> (#[trigger] parts@[k]).start_lba * 512 <= u64::MAX,
    {
        if parts[i].start_lba.checked_mul(512).is_none() {
            return false;
        }
    }
    true
}

/// The name of a partition in messages.
pub open spec fn part_name(disk: Seq<char>, n: usize) -> Seq<char> {
    disk + "#part"@ + dec(n as nat)
}

pub(crate) fn part_str(disk: &str, n: usize) -> (out: String)
    ensures
        out@ == part_name(disk@, n),
{
    let mut out = disk.to_owned();
    out.append("#part");
    out.append(dec_text(n as u64).as_str());
    out
}

/// The message about a probe that failed.
pub fn probe_failed(tag: &str, disk: &str, n: usize, reason: &str) -> (m: String)
    ensures
        m@ == tag@ + " probe "@ + disk@ + " part "@ + dec(n as nat) + ": "@ + reason@,
{
    let mut m = tag.to_owned();
    m.append(" probe ");
    m.append(disk);
    m.append(" part ");
    m.append(dec_text(n as u64).as_str());
    m.append(": ");
    m.append(reason);
    m
}

/// The message about an ext4 volume that found no free drive letter.
pub fn no_letter(tag: &str, disk: &str, n: usize) -> (m: String)
    ensures
        m@ == tag@ + " "@ + part_name(disk@, n) + ": ext4 detected but no free drive letter"@,
{
    let mut m = tag.to_owned();
    m.append(" ");
    m.append(part_str(disk, n).as_str());
    m.append(": ext4 detected but no free drive letter");
    m
}

/// A drive letter as text.
pub open spec fn letter_text(letter: char) -> Seq<char> {
    seq![letter]
}

pub(crate) fn letter_str(letter: char) -> (out: String)
    ensures
        out@ == letter_text(letter),
{
    let mut out = String::new();
    out.push(letter);
    proof {
        assert(out@ =~= letter_text(letter));
    }
    out
}

/// A drive: its letter and a colon.
pub open spec fn drive_text(letter: char) -> Seq<char> {
    letter_text(letter) + ":"@
}

pub(crate) fn drive_str(letter: char) -> (out: String)
    ensures
        out@ == drive_text(letter),
{
    let mut out = letter_str(letter);
    out.append(":");
    out
}

// ---------------------------------------------------------------------------
// Window messages
// ---------------------------------------------------------------------------

/// The number of the message about devices.
pub const WM_DEVICECHANGE: u32 = 537;

/// The event of a device that arrived.
pub const DBT_DEVICEARRIVAL: u32 = 0x8000;

/// The event of a device that is gone.
pub const DBT_DEVICEREMOVECOMPLETE: u32 = 0x8004;

/// The error of a window class that is already registered.
pub const ERROR_CLASS_ALREADY_EXISTS: i32 = 1410;

/// What a window message says of devices.
#[derive(Clone, Copy, Debug, PartialEq, Eq, Structural)]
pub enum DeviceMessage {
    Arrival,
    Removal,
    /// Something else about devices, which is granted.
    OtherChange,
    /// Nothing; Windows handles it.
    Foreign,
}

/// Sorts a window message. The event is the low half of its first parameter.
pub fn device_message(message: u32, wparam: u64) -> (kind: DeviceMessage)
    ensures
        kind == if message != WM_DEVICECHANGE {
            DeviceMessage::Foreign
        } else if (wparam as u32) == DBT_DEVICEARRIVAL {
            DeviceMessage::Arrival
        } else if (wparam as u32) == DBT_DEVICEREMOVECOMPLETE {
            DeviceMessage::Removal
        } else {
            DeviceMessage::OtherChange
        },
{
    if message != WM_DEVICECHANGE {
        return DeviceMessage::Foreign;
    }
    let event: u32 = #[verifier::truncate]
    (wparam as u32);
    if event == DBT_DEVICEARRIVAL {
        DeviceMessage::Arrival
    } else if event == DBT_DEVICEREMOVECOMPLETE {
        DeviceMessage::Removal
    } else {
        DeviceMessage::OtherChange
    }
}

/// What the message pump does next.
#[derive(Clone, Copy, Debug, PartialEq, Eq, Structural)]
pub enum PumpStep {
    /// It was asked to end.
    Quit,
    /// It fails, and ends.
    Fail,
    /// It hands on the message that it got.
    Dispatch,
}

/// What the result of waiting for a message means.
pub fn pump_step(result: i32) -> (step: PumpStep)
    ensures
        step == if result == 0 {
            PumpStep::Quit
        } else if result == -1 {
            PumpStep::Fail
        } else {
            PumpStep::Dispatch
        },
{
    if result == 0 {
        PumpStep::Quit
    } else if result == -1 {
        PumpStep::Fail
    } else {
        PumpStep::Dispatch
    }
}

/// Whether the window class can be used: it was registered just now, or it was
/// already.
pub fn class_usable(atom: u16, os_error: Option<i32>) -> (ok: bool)
    ensures
        ok == (atom != 0 || os_error == Some(ERROR_CLASS_ALREADY_EXISTS)),
{
    if atom != 0 {
        return true;
    }
    match os_error {
        Some(code) => code == ERROR_CLASS_ALREADY_EXISTS,
        None => false,
    }
}

/// How the setup of the window that hears of disks goes on.
pub enum SetupStep {
    /// The window is made.
    CreateWindow,
    /// The window is told of disks from now on.
    Subscribe,
    /// All is set up.
    Ready,
    /// The setup fails. A window that was made is destroyed first.
    Fail { destroy_window: bool, message: String },
}

/// The failure of a call of the setup.
pub open spec fn setup_failure(step: SetupStep, destroy: bool, message: Seq<char>) -> bool {
    step matches SetupStep::Fail { destroy_window, message: m } && destroy_window == destroy && m@
        == message
}

fn setup_fails(destroy_window: bool, call: &str, error: &str) -> (step: SetupStep)
    ensures
        setup_failure(step, destroy_window, call@ + " failed: "@ + error@),
{
    let mut message = call.to_owned();
    message.append(" failed: ");
    message.append(error);
    SetupStep::Fail { destroy_window, message }
}

/// Goes on once the window class was registered. `error` is what Windows says
/// of a failure, `os_error` its number.
pub fn on_class(atom: u16, os_error: Option<i32>, error: &str) -> (step: SetupStep)
    ensures
        if atom != 0 || os_error == Some(ERROR_CLASS_ALREADY_EXISTS) {
            step is CreateWindow
        } else {
            setup_failure(step, false, "RegisterClassW"@ + " failed: "@ + error@)
        },
{
    if class_usable(atom, os_error) {
        SetupStep::CreateWindow
    } else {
        setup_fails(false, "RegisterClassW", error)
    }
}

/// Goes on once the window was made.
pub fn on_window(made: bool, error: &str) -> (step: SetupStep)
    ensures
        if made {
            step is Subscribe
        } else {
            setup_failure(step, false, "CreateWindowExW(HWND_MESSAGE)"@ + " failed: "@ + error@)
        },
{
    if made {
        SetupStep::Subscribe
    } else {
        setup_fails(false, "CreateWindowExW(HWND_MESSAGE)", error)
    }
}

/// Goes on once the window was subscribed.
pub fn on_subscription(made: bool, error: &str) -> (step: SetupStep)
    ensures
        if made {
            step is Ready
        } else {
            setup_failure(step, true, "RegisterDeviceNotificationW"@ + " failed: "@ + error@)
        },
{
    if made {
        SetupStep::Ready
    } else {
        setup_fails(true, "RegisterDeviceNotificationW", error)
    }
}

/// Every partition of an arriving disk is probed, in the order of the table,
/// under its number from one on and at its first byte; a sector has 512 bytes.
pub proof fn law_all_partitions_are_probed(parts: Seq<Partition>, i: int)
    requires
        parts.len() < usize::MAX,
    ensures
        probe_targets(parts).len() == parts.len(),
        0 <= i < parts.len() && 512 * parts[i].start_lba <= u64::MAX ==> {
            &&& probe_targets(parts)[i].n == i + 1
            &&& probe_targets(parts)[i].offset == 512 * parts[i].start_lba
        },
{
}

/// A disk counts as unpartitioned wherever in the reason the missing signature
/// stands, and where it does not stand in it, it does not.
pub proof fn law_unpartitioned_disks_are_told(
    before: Seq<char>,
    behind: Seq<char>,
    reason: Seq<char>,
)
    ensures
        unpartitioned(before + "no MBR signature"@ + behind),
        unpartitioned(reason) ==> exists|a: Seq<char>, b: Seq<char>|
            reason == #[trigger] (a + "no MBR signature"@ + b),
        contains_text(before + reason + behind, reason),
{
    let needle = "no MBR signature"@;
    lemma_text_is_contained(before, needle, behind);
    lemma_text_is_contained(before, reason, behind);
    if unpartitioned(reason) {
        let i = choose|i: int|
            0 <= i && i + needle.len() <= reason.len() && #[trigger] reason.subrange(
                i,
                i + needle.len(),
            ) == needle;
        let a = reason.take(i);
        let b = reason.skip(i + needle.len());
        assert(a + needle + b =~= reason) by {
            assert(reason.subrange(i, i + needle.len()) == needle);
            assert(reason =~= a + reason.subrange(i, i + needle.len()) + b);
        }
    }
}

proof fn lemma_text_is_contained(before: Seq<char>, needle: Seq<char>, behind: Seq<char>)
    ensures
        contains_text(before + needle + behind, needle),
{
    let s = before + needle + behind;
    let i = before.len() as int;
    assert(s.subrange(i, i + needle.len()) =~= needle);
}

/// What is on a disk are exactly the mounts of its partitions, and a partition
/// is named by its disk and its number.
pub proof fn law_partitions_belong_to_their_disk(
    disk: Seq<char>,
    other: Seq<char>,
    n: usize,
    letter: char,
)
    ensures
        on_disk(disk).contains((other, n)) <==> other == disk,
        part_name(disk, n) == disk + seq!['#', 'p', 'a', 'r', 't'] + dec(n as nat),
        letter_text(letter) == seq![letter],
        drive_text(letter) == seq![letter, ':'],
{
    reveal_strlit("#part");
    reveal_strlit(":");
    assert("#part"@ =~= seq!['#', 'p', 'a', 'r', 't']);
    assert(drive_text(letter) =~= seq![letter, ':']);
}

/// A table of mounts holds, for each disk and partition, the value that was kept
/// for the two together, and nothing else.
pub proof fn law_mounts_are_found_by_disk_and_partition<T>(
    kept: Seq<Kept<T>>,
    i: int,
    disk: Seq<char>,
    part: usize,
)
    requires
        forall|a: int, b: int|
            0 <= a < b < kept.len() ==> (#[trigger] kept[a]).disk@ != (#[trigger] kept[b]).disk@
                || kept[a].part != kept[b].part,
    ensures
        distinct_keys(kept),
        0 <= i < kept.len() ==> by_key(kept).contains_key((kept[i].disk@, kept[i].part))
            && by_key(kept)[(kept[i].disk@, kept[i].part)] == kept[i].value,
        by_key(kept).contains_key((disk, part)) <==> exists|k: int|
            0 <= k < kept.len() && (#[trigger] kept[k]).disk@ == disk && kept[k].part == part,
{
    assert(distinct_keys(kept));
    if 0 <= i < kept.len() {
        lemma_by_key(kept, i);
    }
    if by_key(kept).contains_key((disk, part)) {
        let k = choose|k: int| 0 <= k < kept.len() && key_of(#[trigger] kept[k]) == (disk, part);
        assert(kept[k].disk@ == disk && kept[k].part == part);
    }
    if exists|k: int|
        0 <= k < kept.len() && (#[trigger] kept[k]).disk@ == disk && kept[k].part == part {
        let k = choose|k: int|
            0 <= k < kept.len() && (#[trigger] kept[k]).disk@ == disk && kept[k].part == part;
        assert(key_of(kept[k]) == (disk, part));
    }
}

/// The numbers in which Windows speaks of devices.
pub proof fn law_numbers_of_devices()
    ensures
        WM_DEVICECHANGE == 0x219,
        DBT_DEVICEARRIVAL == 0x8000,
        DBT_DEVICEREMOVECOMPLETE == 0x8004,
        ERROR_CLASS_ALREADY_EXISTS == 1410,
{
}

}
