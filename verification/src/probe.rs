//! Is it ext4? And small questions around a disk that arrives.

use vstd::prelude::*;
use vstd::slice::slice_subrange;

use crate::device::BlockSource;
use crate::utf16::{decode16, utf16_str, valid16};

verus! {

/// How many bytes a probe reads from the start of a volume.
pub const SB_PROBE_LEN: usize = 1100;

/// How many bytes a probe of a raw disk reads. Such reads have to be whole
/// sectors, and some disks have sectors of this size.
pub const DISK_PROBE_LEN: usize = 4096;

/// Where the magic number of ext4 stands: the superblock starts at 1024, and
/// the number at 0x38 in it.
pub const EXT4_MAGIC_OFFSET: usize = 1080;

/// Whether the bytes carry the magic number 0xEF53, least significant byte
/// first, where ext4 has it.
pub open spec fn has_magic(bytes: Seq<u8>) -> bool {
    &&& bytes.len() >= EXT4_MAGIC_OFFSET + 2
    &&& bytes[EXT4_MAGIC_OFFSET as int] == 0x53
    &&& bytes[EXT4_MAGIC_OFFSET + 1] == 0xEF
}

/// Whether the bytes from the start of a volume are those of ext4.
pub fn is_ext4(bytes: &[u8]) -> (yes: bool)
    ensures
        yes == has_magic(bytes@),
{
    if bytes.len() < EXT4_MAGIC_OFFSET + 2 {
        return false;
    }
    bytes[EXT4_MAGIC_OFFSET] == 0x53 && bytes[EXT4_MAGIC_OFFSET + 1] == 0xEF
}

/// What a probe makes of what it read. A volume that cannot be read is not
/// ext4: card readers without a card, for one, are none of our business.
pub fn probe_read(outcome: Option<&[u8]>) -> (yes: bool)
    ensures
        yes == (outcome matches Some(bytes) && has_magic(bytes@)),
{
    match outcome {
        Some(bytes) => is_ext4(bytes),
        None => false,
    }
}

/// What a read that turned out as `outcome` says of a volume.
pub open spec fn read_says(outcome: Option<Seq<u8>>) -> bool {
    outcome matches Some(bytes) && has_magic(bytes)
}

fn probe<S: BlockSource>(source: &S, offset: u64, len: usize) -> (yes: bool)
    ensures
        exists|outcome: Option<Seq<u8>>| #[trigger]
            source.may_read(offset, len as nat, outcome) && yes == read_says(outcome),
{
    let mut buf: Vec<u8> = vec![0u8; len];
    let ok: bool = source.read_at(offset, buf.as_mut_slice());
    if ok {
        proof {
            assert(source.may_read(offset, len as nat, Some(buf@)));
            assert(read_says(Some(buf@)) == has_magic(buf@));
        }
        probe_read(Some(buf.as_slice()))
    } else {
        proof {
            assert(source.may_read(offset, len as nat, None));
            assert(!read_says(None));
        }
        probe_read(None)
    }
}

/// Whether the source holds an ext4 volume from its start.
pub fn probe_path<S: BlockSource>(source: &S) -> (yes: bool)
    ensures
        exists|outcome: Option<Seq<u8>>| #[trigger]
            source.may_read(0, SB_PROBE_LEN as nat, outcome) && yes == read_says(outcome),
{
    probe(source, 0, SB_PROBE_LEN)
}

/// Whether the disk holds an ext4 volume from `offset` on.
pub fn probe_at_offset<S: BlockSource>(source: &S, offset: u64) -> (yes: bool)
    ensures
        exists|outcome: Option<Seq<u8>>| #[trigger]
            source.may_read(offset, DISK_PROBE_LEN as nat, outcome) && yes == read_says(outcome),
{
    probe(source, offset, DISK_PROBE_LEN)
}

/// Whether the drive with the given number, counted from zero for `A:`, is in
/// use according to the bits that Windows hands out.
pub open spec fn taken(in_use: u32, drive: u32) -> bool {
    (in_use >> drive) & 1 != 0
}

/// The lowest free drive letter from `E` on. The letters before it are left
/// alone, for users expect floppies, the system and CD-ROMs there.
pub fn pick_drive_letter(in_use: u32) -> (out: Option<char>)
    ensures
        match out {
            Some(c) => {
                let drive = (c as u32 - 'A' as u32) as u32;
                &&& 'E' <= c <= 'Z'
                &&& !taken(in_use, drive)
                &&& forall|d: u32| 4 <= d < drive ==> taken(in_use, d)
            },
            None => forall|d: u32| 4 <= d < 26 ==> taken(in_use, d),
        },
{
    let mut i: u32 = 4;
    while i < 26
        invariant
            4 <= i <= 26,
            forall|d: u32| 4 <= d < i ==> taken(in_use, d),
        decreases 26 - i,
    {
        if (in_use >> i) & 1 == 0 {
            return Some((65u8 + i as u8) as char);
        }
        i = i + 1;
    }
    None
}

/// Where the name starts in the payload of a device notification: behind
/// three numbers of four bytes and a GUID of sixteen.
pub const DBCC_NAME_OFFSET: usize = 28;

/// The units of the name in the payload of a device notification; a last odd
/// byte is left out.
pub open spec fn name_units(payload: Seq<u8>) -> Seq<u16> {
    Seq::new(
        if payload.len() > DBCC_NAME_OFFSET {
            ((payload.len() - DBCC_NAME_OFFSET) / 2) as nat
        } else {
            0
        },
        |i: int|
            (payload[DBCC_NAME_OFFSET + 2 * i] + 0x100 * payload[DBCC_NAME_OFFSET + 2 * i
                + 1]) as u16,
    )
}

/// The units before the first NUL.
pub open spec fn before_nul(units: Seq<u16>) -> Seq<u16>
    decreases units.len(),
{
    if units.len() == 0 || units[0] == 0 {
        Seq::empty()
    } else {
        seq![units[0]] + before_nul(units.skip(1))
    }
}

proof fn lemma_before_nul(units: Seq<u16>, n: int)
    requires
        0 <= n <= units.len(),
        forall|i: int| 0 <= i < n ==> units[i] != 0,
        n < units.len() ==> units[n] == 0,
    ensures
        before_nul(units) == units.take(n),
    decreases n,
{
    if n > 0 {
        lemma_before_nul(units.skip(1), n - 1);
        assert(units.take(n) =~= seq![units[0]] + units.skip(1).take(n - 1));
    } else {
        assert(units.take(0) =~= Seq::empty());
    }
}

/// How many units stand before the first NUL.
pub(crate) fn len_before_nul(units: &[u16]) -> (n: usize)
    ensures
        n <= units@.len(),
        before_nul(units@) == units@.take(n as int),
{
    let mut n: usize = 0;
    while n < units.len() && units[n] != 0
        invariant
            n <= units@.len(),
            forall|i: int| 0 <= i < n ==> units@[i] != 0,
        decreases units@.len() - n,
    {
        n = n + 1;
    }
    proof {
        lemma_before_nul(units@, n as int);
    }
    n
}

/// The device path in the payload of a device notification. `None` where there
/// is no payload, where it holds no name, or where the name is not UTF-16.
pub fn device_interface_name(payload: Option<&[u8]>) -> (out: Option<String>)
    ensures
        match payload {
            None => out is None,
            Some(b) => {
                let units = before_nul(name_units(b@));
                if b@.len() > DBCC_NAME_OFFSET && valid16(units) {
                    out matches Some(s) && s@ == decode16(units)
                } else {
                    out is None
                }
            },
        },
{
    let b = match payload {
        Some(b) => b,
        None => {
            return None;
        },
    };
    if b.len() <= DBCC_NAME_OFFSET {
        return None;
    }
    let count: usize = (b.len() - DBCC_NAME_OFFSET) / 2;
    let mut units: Vec<u16> = Vec::new();
    for i in 0..count
        invariant
            count == (b@.len() - DBCC_NAME_OFFSET) / 2,
            b@.len() > DBCC_NAME_OFFSET,
            b@.len() <= usize::MAX,
            units@ == name_units(b@).take(i as int),
    {
        let low: u16 = b[DBCC_NAME_OFFSET + 2 * i] as u16;
        let high: u16 = b[DBCC_NAME_OFFSET + 2 * i + 1] as u16;
        units.push(low + 0x100 * high);
        proof {
            assert(units@ =~= name_units(b@).take(i + 1));
        }
    }
    proof {
        assert(units@ =~= name_units(b@));
    }
    let n: usize = len_before_nul(units.as_slice());
    let part = slice_subrange(units.as_slice(), 0, n);
    proof {
        assert(part@ =~= units@.take(n as int));
    }
    utf16_str(part)
}

/// A volume is ext4 exactly where the two bytes of the magic number stand at
/// their place, whatever stands before and behind them.
pub proof fn law_the_magic_number_decides(before: Seq<u8>, a: u8, b: u8, behind: Seq<u8>)
    requires
        before.len() == 1080,
    ensures
        has_magic(before + seq![a, b] + behind) <==> a == 0x53 && b == 0xEF,
        !has_magic(before),
        !has_magic(before + seq![a]),
        read_says(Some(before + seq![a, b] + behind)) <==> a == 0x53 && b == 0xEF,
        !read_says(None),
{
    let all = before + seq![a, b] + behind;
    assert(all[1080] == a && all[1081] == b);
}

/// Each drive has a bit of its own: setting it takes the drive, clearing it
/// frees the drive, and neither touches another one.
pub proof fn law_drives_have_bits_of_their_own(in_use: u32, drive: u32, other: u32)
    requires
        drive < 32,
        other < 32,
    ensures
        taken(in_use | (1u32 << drive), drive),
        !taken(in_use & !(1u32 << drive), drive),
        other != drive ==> taken(in_use | (1u32 << drive), other) == taken(in_use, other),
        other != drive ==> taken(in_use & !(1u32 << drive), other) == taken(in_use, other),
        !taken(0, drive),
{
    assert(((in_use | (1u32 << drive)) >> drive) & 1 != 0 && ((in_use & !(1u32 << drive)) >> drive)
        & 1 == 0 && (0u32 >> drive) & 1 == 0) by (bit_vector)
        requires
            drive < 32,
    ;
    assert(other != drive ==> ((in_use | (1u32 << drive)) >> other) & 1 == (in_use >> other) & 1
        && ((in_use & !(1u32 << drive)) >> other) & 1 == (in_use >> other) & 1) by (bit_vector)
        requires
            drive < 32,
            other < 32,
    ;
}

/// The name in a notice stands behind its header, in units of two bytes with the
/// smaller one first. It ends at its NUL, and half a unit at the end is passed
/// over.
#[verifier::rlimit(40)]
pub proof fn law_notices_hold_a_name(
    header: Seq<u8>,
    units: Seq<u16>,
    odd: Seq<u8>,
    name: Seq<u16>,
    behind: Seq<u16>,
)
    requires
        header.len() == 28,
        odd.len() <= 1,
        !name.contains(0u16),
    ensures
        name_units(
            header + Seq::new(
                2 * units.len(),
                |i: int|
                    if i % 2 == 0 {
                        (units[i / 2] % 256) as u8
                    } else {
                        (units[i / 2] / 256) as u8
                    },
            ) + odd,
        ) == units,
        before_nul(name + seq![0u16] + behind) == name,
        before_nul(name) == name,
{
    let bytes = Seq::new(
        2 * units.len(),
        |i: int|
            if i % 2 == 0 {
                (units[i / 2] % 256) as u8
            } else {
                (units[i / 2] / 256) as u8
            },
    );
    let payload = header + bytes + odd;
    let got = name_units(payload);
    assert(got.len() == units.len());
    assert forall|i: int| 0 <= i < units.len() implies got[i] == units[i] by {
        assert(payload[28 + 2 * i] == bytes[2 * i]);
        assert(payload[28 + 2 * i + 1] == bytes[2 * i + 1]);
        assert((2 * i) % 2 == 0 && (2 * i) / 2 == i);
        assert((2 * i + 1) % 2 == 1 && (2 * i + 1) / 2 == i);
    }
    assert(got =~= units);
    lemma_name_before_nul(name, behind);
}

proof fn lemma_name_before_nul(name: Seq<u16>, behind: Seq<u16>)
    requires
        !name.contains(0u16),
    ensures
        before_nul(name + seq![0u16] + behind) == name,
        before_nul(name) == name,
    decreases name.len(),
{
    let all = name + seq![0u16] + behind;
    if name.len() == 0 {
        assert(all[0] == 0);
    } else {
        let rest = name.skip(1);
        assert(name[0] != 0 && all[0] == name[0]);
        assert forall|i: int| 0 <= i < rest.len() implies rest[i] != 0u16 by {
            assert(rest[i] == name[i + 1]);
        }
        lemma_name_before_nul(rest, behind);
        assert(all.skip(1) =~= rest + seq![0u16] + behind);
        assert(seq![name[0]] + rest =~= name);
    }
}

/// What is read to probe a volume reaches behind the magic number, and the name
/// of a notice stands behind its header.
pub proof fn law_probes_reach_the_magic_number()
    ensures
        SB_PROBE_LEN == 1100,
        DISK_PROBE_LEN == 4096,
        EXT4_MAGIC_OFFSET == 0x400 + 0x38,
        EXT4_MAGIC_OFFSET + 2 <= SB_PROBE_LEN,
        EXT4_MAGIC_OFFSET + 2 <= DISK_PROBE_LEN,
        DBCC_NAME_OFFSET == 28,
{
}

}
