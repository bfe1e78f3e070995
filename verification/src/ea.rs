//! Extended attributes as Windows lays them out.
//!
//! A `FILE_FULL_EA_INFORMATION` buffer is a chain of entries. Each entry
//! starts with the distance to the next one (four bytes), a flags byte, the
//! length of the name, and the length of the value (two bytes); then come the
//! name, a NUL, and the value. All numbers are little-endian.
//!
//! The entry of the last name of a list has distance zero and no padding; every
//! other entry is padded to four bytes, and its distance is its padded size.
//! Where the last name has no value, it gets no entry, and the chain ends with
//! an entry whose distance leads to the end of the bytes in use. A reader that
//! is handed just those bytes stops there all the same.

use vstd::prelude::*;

verus! {

/// One attribute of a chain: an empty value asks for its removal.
pub struct EaEdit {
    pub name: Vec<u8>,
    pub value: Vec<u8>,
}

/// What an [`EaEdit`] says, as mathematical sequences.
#[verifier::ext_equal]
pub struct EaEditView {
    pub name: Seq<u8>,
    pub value: Seq<u8>,
}

impl View for EaEdit {
    type V = EaEditView;

    open spec fn view(&self) -> EaEditView {
        EaEditView { name: self.name@, value: self.value@ }
    }
}

/// Whether an edit asks for the removal of its attribute.
pub open spec fn asks_removal(edit: EaEditView) -> bool {
    edit.value.len() == 0
}

impl EaEdit {
    /// Whether the edit asks for the removal of its attribute.
    pub fn removes(&self) -> (yes: bool)
        ensures
            yes == asks_removal(self@),
    {
        self.value.len() == 0
    }
}

/// The edits that a vector holds.
pub open spec fn edit_views(list: Seq<EaEdit>) -> Seq<EaEditView> {
    list.map_values(|e: EaEdit| e@)
}

/// The four bytes at `pos` as a little-endian number.
pub open spec fn le32_at(b: Seq<u8>, pos: int) -> int {
    b[pos] + 0x100 * b[pos + 1] + 0x1_0000 * b[pos + 2] + 0x100_0000 * b[pos + 3]
}

/// The two bytes at `pos` as a little-endian number.
pub open spec fn le16_at(b: Seq<u8>, pos: int) -> int {
    b[pos] + 0x100 * b[pos + 1]
}

/// The low four bytes of `n`, least significant first.
pub open spec fn le32(n: int) -> Seq<u8> {
    seq![
        (n % 0x100) as u8,
        (n / 0x100 % 0x100) as u8,
        (n / 0x1_0000 % 0x100) as u8,
        (n / 0x100_0000 % 0x100) as u8,
    ]
}

/// The low two bytes of `n`, least significant first.
pub open spec fn le16(n: int) -> Seq<u8> {
    seq![(n % 0x100) as u8, (n / 0x100 % 0x100) as u8]
}

/// Where the value of the entry at `pos` starts.
pub open spec fn value_start(b: Seq<u8>, pos: int) -> int {
    pos + 8 + b[pos + 5] + 1
}

/// Where the value of the entry at `pos` ends.
pub open spec fn value_end(b: Seq<u8>, pos: int) -> int {
    value_start(b, pos) + le16_at(b, pos + 6)
}

/// Whether the buffer holds the entry at `pos` from its header to the end of
/// its value.
pub open spec fn entry_fits(b: Seq<u8>, pos: int) -> bool {
    &&& 0 <= pos
    &&& pos + 8 <= b.len()
    &&& value_end(b, pos) <= b.len()
}

/// The attribute that the entry at `pos` carries.
pub open spec fn edit_at(b: Seq<u8>, pos: int) -> EaEditView {
    EaEditView {
        name: b.subrange(pos + 8, pos + 8 + b[pos + 5]),
        value: b.subrange(value_start(b, pos), value_end(b, pos)),
    }
}

/// The attributes of the chain from `pos` on. The chain ends at the first
/// entry that does not fit or that names no successor; an entry whose name
/// holds a NUL carries nothing.
pub open spec fn edits_from(b: Seq<u8>, pos: int) -> Seq<EaEditView>
    decreases
            if pos <= b.len() {
                b.len() - pos + 1
            } else {
                0
            },
{
    if !entry_fits(b, pos) {
        Seq::empty()
    } else {
        let edit = edit_at(b, pos);
        let here = if edit.name.contains(0u8) {
            Seq::empty()
        } else {
            seq![edit]
        };
        let next = le32_at(b, pos);
        if next <= 0 {
            here
        } else {
            here + edits_from(b, pos + next)
        }
    }
}

pub(crate) fn bytes_of(b: &[u8], from: usize, to: usize) -> (out: Vec<u8>)
    requires
        from <= to <= b@.len(),
    ensures
        out@ == b@.subrange(from as int, to as int),
{
    let mut out: Vec<u8> = Vec::new();
    for i in from..to
        invariant
            to <= b@.len(),
            from <= i <= to,
            out@ == b@.subrange(from as int, i as int),
    {
        out.push(b[i]);
        proof {
            assert(out@ =~= b@.subrange(from as int, i + 1));
        }
    }
    out
}

fn holds_nul(b: &Vec<u8>) -> (found: bool)
    ensures
        found == b@.contains(0u8),
{
    for i in 0..b.len()
        invariant
            forall|j: int| 0 <= j < i ==> b@[j] != 0,
    {
        if b[i] == 0 {
            return true;
        }
    }
    false
}

/// The edits that an EA buffer asks for, in the order of the chain.
pub fn ea_edits(buffer: &[u8]) -> (out: Vec<EaEdit>)
    ensures
        edit_views(out@) == edits_from(buffer@, 0),
{
    let mut out: Vec<EaEdit> = Vec::new();
    let mut pos: usize = 0;
    proof {
        assert(edit_views(out@) + edits_from(buffer@, 0) =~= edits_from(buffer@, 0));
    }
    while pos <= buffer.len() && buffer.len() - pos >= 8
        invariant_except_break
            pos <= buffer@.len(),
            edit_views(out@) + edits_from(buffer@, pos as int) == edits_from(buffer@, 0),
        ensures
            edit_views(out@) == edits_from(buffer@, 0),
        decreases buffer@.len() - pos,
    {
        let rest: usize = buffer.len() - pos;
        let next: u64 = buffer[pos] as u64 + 0x100 * (buffer[pos + 1] as u64) + 0x1_0000 * (
        buffer[pos + 2] as u64) + 0x100_0000 * (buffer[pos + 3] as u64);
        let name_len: usize = buffer[pos + 5] as usize;
        let val_len: usize = buffer[pos + 6] as usize + 0x100 * (buffer[pos + 7] as usize);
        if rest - 8 < name_len || rest - 8 - name_len < 1 || rest - 9 - name_len < val_len {
            proof {
                assert(edit_views(out@) + Seq::empty() =~= edit_views(out@));
            }
            break;
        }
        let name = bytes_of(buffer, pos + 8, pos + 8 + name_len);
        let value = bytes_of(buffer, pos + 9 + name_len, pos + 9 + name_len + val_len);
        let ghost before = edit_views(out@);
        let ghost edit = edit_at(buffer@, pos as int);
        let ghost here = if edit.name.contains(0u8) {
            Seq::empty()
        } else {
            seq![edit]
        };
        if !holds_nul(&name) {
            let entry = EaEdit { name, value };
            proof {
                assert(entry@ =~= edit);
            }
            out.push(entry);
            proof {
                assert(edit_views(out@) =~= before + seq![edit]);
            }
        } else {
            proof {
                assert(edit_views(out@) =~= before + here);
            }
        }
        if next == 0 {
            break;
        }
        proof {
            assert(before + (here + edits_from(buffer@, pos + next)) =~= edit_views(out@)
                + edits_from(buffer@, pos + next));
        }
        if next > rest as u64 {
            proof {
                assert(edit_views(out@) + Seq::empty() =~= edit_views(out@));
            }
            break;
        }
        pos = pos + next as usize;
        proof {
            if pos + 8 > buffer@.len() {
                assert(edit_views(out@) + Seq::empty() =~= edit_views(out@));
            }
        }
    }
    out
}

/// The bytes of one entry, without padding.
pub open spec fn entry_bytes(name: Seq<u8>, value: Seq<u8>, next: int) -> Seq<u8> {
    le32(next) + seq![0u8, (name.len() % 0x100) as u8] + le16(value.len() as int) + name + seq![0u8]
        + value
}

/// The size of an entry, without padding.
pub open spec fn entry_size(name: Seq<u8>, value: Seq<u8>) -> int {
    8 + (name.len() as int) + 1 + value.len()
}

/// The room that an entry takes up in the chain.
pub open spec fn entry_room(name: Seq<u8>, value: Seq<u8>, last: bool) -> int {
    if last {
        entry_size(name, value)
    } else {
        (entry_size(name, value) + 3) / 4 * 4
    }
}

/// `b` with `part` written over it from `pos` on.
pub open spec fn overlay(b: Seq<u8>, pos: int, part: Seq<u8>) -> Seq<u8> {
    b.take(pos) + part + b.skip(pos + part.len())
}

/// The buffer with one entry added at `pos`. Padding bytes keep what they held.
pub open spec fn with_entry(
    b: Seq<u8>,
    pos: int,
    name: Seq<u8>,
    value: Seq<u8>,
    last: bool,
) -> Seq<u8> {
    let next = if last {
        0
    } else {
        entry_room(name, value, last)
    };
    overlay(b, pos, entry_bytes(name, value, next))
}

/// Encoding of the attributes from index `i` on, into `b` from `pos` on: the
/// buffer afterwards and where the chain ends, or no end where an entry found
/// no room. A name without a value is left out. Only the entry of the last name
/// ends the chain by a distance of zero: where that name is left out, no entry
/// does.
pub open spec fn encode_from(
    names: Seq<Seq<u8>>,
    values: Seq<Option<Seq<u8>>>,
    i: int,
    b: Seq<u8>,
    pos: int,
) -> (Seq<u8>, Option<int>)
    decreases names.len() - i,
{
    if i >= names.len() {
        (b, Some(pos))
    } else {
        let last = i == names.len() - 1;
        match values[i] {
            None => encode_from(names, values, i + 1, b, pos),
            Some(value) => {
                let room = entry_room(names[i], value, last);
                if pos + room > b.len() {
                    (b, None)
                } else {
                    encode_from(
                        names,
                        values,
                        i + 1,
                        with_entry(b, pos, names[i], value, last),
                        pos + room,
                    )
                }
            },
        }
    }
}

/// The attributes from index `i` on that have a value.
pub open spec fn present_from(
    names: Seq<Seq<u8>>,
    values: Seq<Option<Seq<u8>>>,
    i: int,
) -> Seq<EaEditView>
    decreases names.len() - i,
{
    if i >= names.len() {
        Seq::empty()
    } else {
        match values[i] {
            None => present_from(names, values, i + 1),
            Some(value) => seq![EaEditView { name: names[i], value }] + present_from(
                names,
                values,
                i + 1,
            ),
        }
    }
}

fn write_byte(buffer: &mut [u8], at: usize, byte: u8)
    requires
        at < old(buffer)@.len(),
    ensures
        final(buffer)@ == old(buffer)@.update(at as int, byte),
{
    buffer[at] = byte;
}

fn write_bytes(buffer: &mut [u8], at: usize, part: &[u8])
    requires
        at + part@.len() <= old(buffer)@.len(),
    ensures
        final(buffer)@ == overlay(old(buffer)@, at as int, part@),
{
    let ghost start = buffer@;
    let room: usize = buffer.len();
    for i in 0..part.len()
        invariant
            room == buffer@.len(),
            at + part@.len() <= buffer@.len(),
            buffer@ == overlay(start, at as int, part@.take(i as int)),
            start.len() == buffer@.len(),
    {
        write_byte(buffer, at + i, part[i]);
        proof {
            assert(buffer@ =~= overlay(start, at as int, part@.take(i + 1)));
        }
    }
    proof {
        assert(buffer@ =~= overlay(start, at as int, part@));
    }
}

fn push_all(out: &mut Vec<u8>, part: &[u8])
    ensures
        final(out)@ == old(out)@ + part@,
{
    let ghost start = out@;
    for i in 0..part.len()
        invariant
            out@ == start + part@.take(i as int),
    {
        out.push(part[i]);
        proof {
            assert(out@ =~= start + part@.take(i + 1));
        }
    }
    proof {
        assert(part@.take(part@.len() as int) =~= part@);
    }
}

fn entry_of(name: &[u8], value: &[u8], next: u64) -> (out: Vec<u8>)
    ensures
        out@ == entry_bytes(name@, value@, next as int),
{
    let vlen: u64 = value.len() as u64;
    let mut out: Vec<u8> = Vec::new();
    out.push((next % 0x100) as u8);
    out.push((next / 0x100 % 0x100) as u8);
    out.push((next / 0x1_0000 % 0x100) as u8);
    out.push((next / 0x100_0000 % 0x100) as u8);
    out.push(0);
    out.push((name.len() % 0x100) as u8);
    out.push((vlen % 0x100) as u8);
    out.push((vlen / 0x100 % 0x100) as u8);
    proof {
        assert(out@ =~= le32(next as int) + seq![0u8, (name@.len() % 0x100) as u8] + le16(
            value@.len() as int,
        ));
    }
    push_all(&mut out, name);
    let ghost named = out@;
    out.push(0);
    proof {
        assert(out@ =~= named + seq![0u8]);
    }
    push_all(&mut out, value);
    out
}

proof fn lemma_rounded_up(n: int)
    requires
        0 <= n,
    ensures
        (n + 3) / 4 * 4 == n + (4 - n % 4) % 4,
        n <= (n + 3) / 4 * 4 < n + 4,
{
    let q = n / 4;
    let r = n % 4;
    assert(n == 4 * q + r && 0 <= r < 4);
    if r == 0 {
        assert((n + 3) / 4 == q);
    } else {
        assert((n + 3) / 4 == q + 1);
    }
}

/// The room for an entry with a name and a value of the given lengths, where
/// `avail` bytes have it.
#[verifier::rlimit(40)]
fn room_in(avail: usize, name_len: usize, value_len: usize, last: bool) -> (out: Option<usize>)
    ensures
        ({
            let size = 9 + name_len + value_len;
            let room = if last {
                size
            } else {
                (size + 3) / 4 * 4
            };
            out == if room <= avail {
                Some(room as usize)
            } else {
                None::<usize>
            }
        }),
{
    if avail < 9 || name_len > avail - 9 || value_len > avail - 9 - name_len {
        proof {
            lemma_rounded_up(9 + name_len + value_len);
        }
        return None;
    }
    let size: usize = 9 + name_len + value_len;
    proof {
        lemma_rounded_up(size as int);
    }
    let gap: usize = if last {
        0
    } else {
        (4 - size % 4) % 4
    };
    if gap > avail - size {
        return None;
    }
    Some(size + gap)
}

/// Adds one attribute to the chain in `buffer` at `pos` and returns where the
/// next one goes, or `None`, with the buffer unchanged, where it has no room.
pub fn put_ea(buffer: &mut [u8], pos: usize, name: &[u8], value: &[u8], last: bool) -> (out: Option<
    usize,
>)
    requires
        pos <= old(buffer)@.len(),
    ensures
        pos + entry_room(name@, value@, last) > old(buffer)@.len() ==> {
            &&& out is None
            &&& final(buffer)@ == old(buffer)@
        },
        pos + entry_room(name@, value@, last) <= old(buffer)@.len() ==> {
            &&& out matches Some(end) && end == pos + entry_room(name@, value@, last)
            &&& final(buffer)@ == with_entry(old(buffer)@, pos as int, name@, value@, last)
        },
{
    let room: usize = match room_in(buffer.len() - pos, name.len(), value.len(), last) {
        Some(room) => room,
        None => {
            return None;
        },
    };
    let next: u64 = if last {
        0
    } else {
        room as u64
    };
    let entry = entry_of(name, value, next);
    write_bytes(buffer, pos, entry.as_slice());
    Some(pos + room)
}

/// Whether an attribute can be carried by a chain: its name holds no NUL and
/// both lengths fit their fields.
pub open spec fn encodable(name: Seq<u8>, value: Seq<u8>) -> bool {
    &&& name.len() <= 0xff
    &&& !name.contains(0u8)
    &&& value.len() <= 0xffff
}

#[verifier::rlimit(40)]
proof fn lemma_entry_reads_back(
    b: Seq<u8>,
    pos: int,
    name: Seq<u8>,
    value: Seq<u8>,
    last: bool,
    c: Seq<u8>,
)
    requires
        0 <= pos,
        encodable(name, value),
        pos + entry_room(name, value, last) <= b.len(),
        pos + entry_room(name, value, last) <= c.len(),
        c.take(pos + entry_room(name, value, last)) == with_entry(b, pos, name, value, last).take(
            pos + entry_room(name, value, last),
        ),
    ensures
        entry_fits(c, pos),
        edit_at(c, pos) == (EaEditView { name, value }),
        le32_at(c, pos) == if last {
            0
        } else {
            entry_room(name, value, last)
        },
{
    let room = entry_room(name, value, last);
    let next = if last {
        0
    } else {
        room
    };
    let e = entry_bytes(name, value, next);
    let w = with_entry(b, pos, name, value, last);
    let size = entry_size(name, value);
    assert(e.len() == size);
    assert(size <= room);
    assert forall|k: int| 0 <= k < size implies c[pos + k] == e[k] by {
        assert(c.take(pos + room)[pos + k] == w.take(pos + room)[pos + k]);
    }
    assert(c[pos] == e[0] && c[pos + 1] == e[1] && c[pos + 2] == e[2] && c[pos + 3] == e[3]) by {
        assert(c[pos + 0] == e[0]);
    }
    assert(c[pos + 5] == e[5]);
    assert(c[pos + 6] == e[6] && c[pos + 7] == e[7]);
    assert(c[pos + 5] == name.len());
    assert(le16_at(c, pos + 6) == value.len());
    assert(le32_at(c, pos) == next);
    assert(edit_at(c, pos).name =~= name) by {
        assert forall|k: int| 0 <= k < name.len() implies c[pos + 8 + k] == name[k] by {
            assert(c[pos + (8 + k)] == e[8 + k]);
        }
    }
    assert(edit_at(c, pos).value =~= value) by {
        assert forall|k: int| 0 <= k < value.len() implies c[value_start(c, pos) + k] == value[k] by {
            assert(c[pos + (9 + name.len() + k)] == e[9 + name.len() + k]);
        }
    }
}

#[verifier::rlimit(40)]
proof fn lemma_encoding_reads_back(
    names: Seq<Seq<u8>>,
    values: Seq<Option<Seq<u8>>>,
    i: int,
    b: Seq<u8>,
    pos: int,
)
    requires
        0 <= i <= names.len(),
        names.len() == values.len(),
        0 <= pos <= b.len(),
        forall|k: int| 0 <= k < names.len() && values[k] is Some ==> encodable(#[trigger] names[k], values[k]->0),
        encode_from(names, values, i, b, pos).1 is Some,
    ensures
        ({
            let (after, end) = encode_from(names, values, i, b, pos);
            &&& after.len() == b.len()
            &&& pos <= end->0 <= b.len()
            &&& after.take(pos) == b.take(pos)
            &&& edits_from(after.take(end->0), pos) == present_from(names, values, i)
        }),
    decreases names.len() - i,
{
    let (after, end) = encode_from(names, values, i, b, pos);
    let last = i == names.len() - 1;
    if i < names.len() {
        match values[i] {
            None => {
                lemma_encoding_reads_back(names, values, i + 1, b, pos);
            },
            Some(value) => {
                assert(encodable(names[i], value));
                let room = entry_room(names[i], value, last);
                let w = with_entry(b, pos, names[i], value, last);
                let edit = EaEditView { name: names[i], value };
                assert(w.len() == b.len());
                if last {
                    reveal_with_fuel(encode_from, 2);
                    reveal_with_fuel(present_from, 2);
                    assert(after == w && end == Some(pos + room));
                    let c = after.take(pos + room);
                    assert(c.take(pos + room) =~= w.take(pos + room));
                    lemma_entry_reads_back(b, pos, names[i], value, last, c);
                    assert(after.take(pos) =~= b.take(pos));
                    assert(edits_from(c, pos) =~= present_from(names, values, i));
                } else {
                    lemma_encoding_reads_back(names, values, i + 1, w, pos + room);
                    let c = after.take(end->0);
                    assert(c.take(pos + room) =~= after.take(pos + room));
                    lemma_entry_reads_back(b, pos, names[i], value, last, c);
                    assert(after.take(pos) =~= after.take(pos + room).take(pos));
                    assert(w.take(pos + room).take(pos) =~= b.take(pos));
                    assert(edits_from(c, pos) =~= seq![edit] + edits_from(c, pos + room));
                }
            },
        }
    }
}

/// Reading back a chain gives the attributes that were written: where every
/// attribute is encodable and all find room, the edits of the encoded bytes are
/// the attributes with a value, in order.
pub proof fn law_ea_round_trip(
    names: Seq<Seq<u8>>,
    values: Seq<Option<Seq<u8>>>,
    b: Seq<u8>,
)
    requires
        names.len() == values.len(),
        forall|k: int|
            0 <= k < names.len() && values[k] is Some ==> encodable(
                #[trigger] names[k],
                values[k]->0,
            ),
        encode_from(names, values, 0, b, 0).1 is Some,
    ensures
        ({
            let (after, end) = encode_from(names, values, 0, b, 0);
            &&& after.len() == b.len()
            &&& 0 <= end->0 <= b.len()
            &&& edits_from(after.take(end->0), 0) == present_from(names, values, 0)
        }),
{
    lemma_encoding_reads_back(names, values, 0, b, 0);
}

/// The bytes of one entry: the distance to the next one in four bytes, the
/// smallest first, the flags, the length of the name, that of the value in two
/// bytes, the name with one byte behind it, and the value.
#[verifier::opaque]
pub open spec fn laid_out(
    distance: int,
    flags: u8,
    name: Seq<u8>,
    behind_name: u8,
    value: Seq<u8>,
) -> Seq<u8> {
    seq![
        (distance % 256) as u8,
        (distance / 256 % 256) as u8,
        (distance / 65536 % 256) as u8,
        (distance / 16777216 % 256) as u8,
        flags,
        name.len() as u8,
        (value.len() as int % 256) as u8,
        (value.len() as int / 256) as u8,
    ] + name + seq![behind_name] + value
}

#[verifier::rlimit(40)]
proof fn lemma_reading_starts_anywhere(b: Seq<u8>, at: int, k: int)
    requires
        0 <= at <= b.len(),
        0 <= k,
    ensures
        edits_from(b, at + k) == edits_from(b.skip(at), k),
    decreases
            if k <= b.len() {
                b.len() - k + 1
            } else {
                0
            },
{
    let c = b.skip(at);
    if at + k + 8 <= b.len() {
        assert(c[k] == b[at + k] && c[k + 1] == b[at + k + 1] && c[k + 2] == b[at + k + 2] && c[k
            + 3] == b[at + k + 3] && c[k + 5] == b[at + k + 5] && c[k + 6] == b[at + k + 6] && c[k
            + 7] == b[at + k + 7]);
        if entry_fits(b, at + k) {
            assert(edit_at(c, k).name =~= edit_at(b, at + k).name);
            assert(edit_at(c, k).value =~= edit_at(b, at + k).value);
            let next = le32_at(b, at + k);
            if next > 0 {
                lemma_reading_starts_anywhere(b, at, k + next);
                assert(at + k + next == at + (k + next));
            }
        }
    }
}

/// A chain is read entry by entry: an entry gives its name and its value,
/// whatever its flags and the bytes between it and the next one, unless its name
/// holds a NUL; the distance says where the next entry stands, wherever that is,
/// and none ends the chain. What is cut off gives nothing.
#[verifier::rlimit(40)]
pub proof fn law_chains_are_read_entry_by_entry(
    flags: u8,
    name: Seq<u8>,
    behind_name: u8,
    value: Seq<u8>,
    pad: Seq<u8>,
    rest: Seq<u8>,
    cut: int,
    distance: int,
)
    requires
        0 < distance < 0x1_0000_0000,
        name.len() <= 255,
        value.len() <= 65535,
        9 + name.len() + value.len() + pad.len() < 0x1_0000_0000,
    ensures
        ({
            let size = 9 + name.len() + value.len();
            let here = if name.contains(0u8) {
                Seq::empty()
            } else {
                seq![EaEditView { name, value }]
            };
            let alone = laid_out(0, flags, name, behind_name, value);
            let chained = laid_out((size + pad.len()) as int, flags, name, behind_name, value);
            let apart = laid_out(distance, flags, name, behind_name, value) + rest;
            &&& edits_from(alone + rest, 0) == here
            &&& edits_from(apart, 0) == here + if distance <= apart.len() {
                edits_from(apart.skip(distance), 0)
            } else {
                Seq::empty()
            }
            &&& edits_from(chained + pad + rest, 0) == here + edits_from(rest, 0)
            &&& 0 <= cut < size ==> edits_from(alone.take(cut), 0).len() == 0
        }),
{
    let size = (9 + name.len() + value.len()) as int;
    let alone = laid_out(0, flags, name, behind_name, value);
    let chained = laid_out(size + pad.len(), flags, name, behind_name, value);
    let apart = laid_out(distance, flags, name, behind_name, value) + rest;
    lemma_read_one(0, flags, name, behind_name, value, rest);
    lemma_read_one(size + pad.len(), flags, name, behind_name, value, pad + rest);
    lemma_read_one(distance, flags, name, behind_name, value, rest);
    let b = chained + pad + rest;
    assert(b =~= chained + (pad + rest));
    lemma_reading_starts_anywhere(b, size + pad.len(), 0);
    assert(b.skip(size + pad.len()) =~= rest);
    if distance <= apart.len() {
        lemma_reading_starts_anywhere(apart, distance, 0);
    } else {
        assert(edits_from(apart, distance) =~= Seq::empty());
    }
    if 0 <= cut < size {
        lemma_cut_off(flags, name, behind_name, value, cut);
    }
}

#[verifier::rlimit(40)]
proof fn lemma_read_one(
    distance: int,
    flags: u8,
    name: Seq<u8>,
    behind_name: u8,
    value: Seq<u8>,
    rest: Seq<u8>,
)
    requires
        name.len() <= 255,
        value.len() <= 65535,
        0 <= distance < 0x1_0000_0000,
    ensures
        ({
            let b = laid_out(distance, flags, name, behind_name, value) + rest;
            let here = if name.contains(0u8) {
                Seq::empty()
            } else {
                seq![EaEditView { name, value }]
            };
            &&& laid_out(distance, flags, name, behind_name, value).len() == 9 + name.len()
                + value.len()
            &&& distance == 0 ==> edits_from(b, 0) == here
            &&& distance > 0 ==> edits_from(b, 0) == here + edits_from(b, distance)
        }),
{
    lemma_laid_out(distance, flags, name, behind_name, value, rest);
}

#[verifier::rlimit(40)]
proof fn lemma_cut_off(flags: u8, name: Seq<u8>, behind_name: u8, value: Seq<u8>, cut: int)
    requires
        name.len() <= 255,
        value.len() <= 65535,
        0 <= cut < 9 + name.len() + value.len(),
    ensures
        edits_from(laid_out(0, flags, name, behind_name, value).take(cut), 0).len() == 0,
{
    let alone = laid_out(0, flags, name, behind_name, value);
    let c = alone.take(cut);
    lemma_laid_out(0, flags, name, behind_name, value, Seq::empty());
    assert(alone + Seq::<u8>::empty() =~= alone);
    if cut >= 8 {
        assert(c[5] == alone[5] && c[6] == alone[6] && c[7] == alone[7]);
        assert(value_end(c, 0) == value_end(alone, 0));
    }
}

proof fn lemma_four_bytes(n: int)
    requires
        0 <= n < 0x1_0000_0000,
    ensures
        ({
            let a = (n % 256) as u8;
            let b = (n / 256 % 256) as u8;
            let c = (n / 65536 % 256) as u8;
            let d = (n / 16777216 % 256) as u8;
            a + 0x100 * b + 0x1_0000 * c + 0x100_0000 * d == n
        }),
{
    let x = n / 256;
    let y = x / 256;
    let z = y / 256;
    assert(n / 65536 == y);
    assert(n / 16777216 == z);
    assert(0 <= z < 256);
    assert(n == 256 * x + n % 256 && x == 256 * y + x % 256 && y == 256 * z + y % 256);
}

proof fn lemma_two_bytes(n: int)
    requires
        0 <= n < 0x1_0000,
    ensures
        ({
            let a = (n % 256) as u8;
            let b = (n / 256) as u8;
            a + 0x100 * b == n
        }),
{
}

#[verifier::rlimit(40)]
proof fn lemma_laid_out(
    distance: int,
    flags: u8,
    name: Seq<u8>,
    behind_name: u8,
    value: Seq<u8>,
    rest: Seq<u8>,
)
    requires
        name.len() <= 255,
        value.len() <= 65535,
        0 <= distance < 0x1_0000_0000,
    ensures
        ({
            let b = laid_out(distance, flags, name, behind_name, value) + rest;
            &&& laid_out(distance, flags, name, behind_name, value).len() == 9 + name.len()
                + value.len()
            &&& entry_fits(b, 0)
            &&& value_end(b, 0) == 9 + name.len() + value.len()
            &&& edit_at(b, 0) == (EaEditView { name, value })
            &&& le32_at(b, 0) == distance
        }),
{
    reveal(laid_out);
    let e = laid_out(distance, flags, name, behind_name, value);
    let b = e + rest;
    lemma_four_bytes(distance);
    lemma_two_bytes(value.len() as int);
    assert(b[0] == e[0] && b[1] == e[1] && b[2] == e[2] && b[3] == e[3] && b[5] == e[5] && b[6]
        == e[6] && b[7] == e[7]);
    assert(e[0] == (distance % 256) as u8 && e[1] == (distance / 256 % 256) as u8);
    assert(e[2] == (distance / 65536 % 256) as u8 && e[3] == (distance / 16777216 % 256) as u8);
    assert(e[5] == name.len() as u8);
    assert(e[6] == (value.len() as int % 256) as u8 && e[7] == (value.len() as int / 256) as u8);
    assert(le16_at(b, 6) == value.len());
    assert(edit_at(b, 0).name =~= name);
    assert(edit_at(b, 0).value =~= value);
}

/// An entry is written where it belongs: its own bytes, with flags of zero, and
/// not one byte before or behind them. The last one has just the room that it
/// needs and no distance; any other takes up to three bytes more, so that the
/// next one starts at a multiple of four behind it.
#[verifier::rlimit(40)]
pub proof fn law_entries_are_written_in_their_place(
    b: Seq<u8>,
    pos: int,
    name: Seq<u8>,
    value: Seq<u8>,
    last: bool,
)
    requires
        0 <= pos,
        pos + entry_room(name, value, last) <= b.len(),
        name.len() <= 255,
        value.len() <= 65535,
    ensures
        ({
            let size = 9 + name.len() + value.len();
            let room = entry_room(name, value, last);
            let after = with_entry(b, pos, name, value, last);
            &&& last ==> room == size
            &&& !last ==> size <= room < size + 4 && room % 4 == 0
            &&& after.len() == b.len()
            &&& after.take(pos) == b.take(pos)
            &&& after.subrange(pos, pos + size) == laid_out(
                if last {
                    0
                } else {
                    room
                },
                0,
                name,
                0,
                value,
            )
            &&& after.skip(pos + size) == b.skip(pos + size)
        }),
{
    let next = if last {
        0
    } else {
        entry_room(name, value, last)
    };
    let size = 9 + name.len() + value.len();
    let after = with_entry(b, pos, name, value, last);
    let e = entry_bytes(name, value, next);
    assert(e =~= laid_out(next, 0, name, 0, value)) by {
        reveal(laid_out);
    }
    assert(after.subrange(pos, pos + size) =~= e);
    assert(after.take(pos) =~= b.take(pos));
    assert(after.skip(pos + size) =~= b.skip(pos + size));
}

/// The room that the attributes from `i` on take.
pub open spec fn rooms_from(names: Seq<Seq<u8>>, values: Seq<Option<Seq<u8>>>, i: int) -> int
    decreases names.len() - i,
{
    if i >= names.len() {
        0
    } else {
        rooms_from(names, values, i + 1) + match values[i] {
            Some(value) => entry_room(names[i], value, i == names.len() - 1),
            None => 0,
        }
    }
}

/// Attributes are written exactly where all of them find room, one behind the
/// other, and what is before the first and behind the last stays as it is.
#[verifier::rlimit(40)]
pub proof fn law_chains_are_written_where_they_fit(
    names: Seq<Seq<u8>>,
    values: Seq<Option<Seq<u8>>>,
    i: int,
    b: Seq<u8>,
    pos: int,
)
    requires
        0 <= i,
        names.len() == values.len(),
        0 <= pos <= b.len(),
    ensures
        rooms_from(names, values, i) >= 0,
        ({
            let (after, end) = encode_from(names, values, i, b, pos);
            let total = rooms_from(names, values, i);
            &&& end is Some <==> pos + total <= b.len()
            &&& end is Some ==> end->0 == pos + total
            &&& after.len() == b.len()
            &&& after.take(pos) == b.take(pos)
            &&& end is Some ==> after.skip(pos + total) == b.skip(pos + total)
        }),
    decreases names.len() - i,
{
    if i < names.len() {
        match values[i] {
            None => {
                law_chains_are_written_where_they_fit(names, values, i + 1, b, pos);
            },
            Some(value) => {
                let last = i == names.len() - 1;
                let room = entry_room(names[i], value, last);
                assert(room >= 9);
                if pos + room <= b.len() {
                    let w = with_entry(b, pos, names[i], value, last);
                    assert(w.len() == b.len());
                    law_chains_are_written_where_they_fit(names, values, i + 1, w, pos + room);
                    let (after, end) = encode_from(names, values, i, b, pos);
                    let total = rooms_from(names, values, i);
                    assert(after.take(pos) =~= after.take(pos + room).take(pos));
                    assert(w.take(pos + room).take(pos) =~= b.take(pos));
                    if end is Some {
                        assert(w.skip(pos + total) =~= b.skip(pos + total));
                    }
                } else {
                    law_chains_are_written_where_they_fit(names, values, i + 1, b, pos);
                }
            },
        }
    }
}

/// An edit is seen as what it holds, and a list of edits edit by edit.
pub proof fn law_edits_are_seen_as_they_are(list: Seq<EaEdit>, i: int)
    ensures
        edit_views(list).len() == list.len(),
        0 <= i < list.len() ==> edit_views(list)[i].name == list[i].name@ && edit_views(
            list,
        )[i].value == list[i].value@,
{
}

}
