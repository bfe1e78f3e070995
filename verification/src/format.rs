//! How the command line shows inodes and volumes.

use vstd::prelude::*;

use crate::attr::FileType;
use crate::text::{hex, hex_text, pad_left};

verus! {

/// The letter for the file type of a directory entry.
pub open spec fn type_letter(ft: u8) -> Seq<char> {
    match ft {
        1 => "f"@,
        2 => "d"@,
        3 => "c"@,
        4 => "b"@,
        5 => "p"@,
        6 => "s"@,
        7 => "l"@,
        _ => "?"@,
    }
}

/// The letter for the file type of a directory entry.
pub fn ftype_str(ft: u8) -> (out: &'static str)
    ensures
        out@ == type_letter(ft),
{
    match ft {
        1 => "f",
        2 => "d",
        3 => "c",
        4 => "b",
        5 => "p",
        6 => "s",
        7 => "l",
        _ => "?",
    }
}

/// The first character of a mode.
pub open spec fn type_char(file_type: FileType) -> char {
    match file_type {
        FileType::RegFile => '-',
        FileType::Dir => 'd',
        FileType::Symlink => 'l',
        FileType::ChrDev => 'c',
        FileType::BlkDev => 'b',
        FileType::Fifo => 'p',
        FileType::Sock => 's',
        FileType::Unknown => '?',
    }
}

/// `c` where the mode has the bit, else a dash.
pub open spec fn bit_char(mode: u16, mask: u16, c: char) -> char {
    if mode & mask != 0 {
        c
    } else {
        '-'
    }
}

/// The character for an execute bit that shares its place with a special bit.
pub open spec fn execute_char(
    mode: u16,
    special: u16,
    execute: u16,
    both: char,
    special_only: char,
) -> char {
    if mode & special != 0 {
        if mode & execute != 0 {
            both
        } else {
            special_only
        }
    } else {
        bit_char(mode, execute, 'x')
    }
}

/// A mode as `ls -l` shows it.
pub open spec fn mode_text(mode: u16, file_type: FileType) -> Seq<char> {
    seq![
        type_char(file_type),
        bit_char(mode, 0o400, 'r'),
        bit_char(mode, 0o200, 'w'),
        execute_char(mode, 0o4000, 0o100, 's', 'S'),
        bit_char(mode, 0o040, 'r'),
        bit_char(mode, 0o020, 'w'),
        execute_char(mode, 0o2000, 0o010, 's', 'S'),
        bit_char(mode, 0o004, 'r'),
        bit_char(mode, 0o002, 'w'),
        execute_char(mode, 0o1000, 0o001, 't', 'T'),
    ]
}

fn bit(mode: u16, mask: u16, c: char) -> (out: char)
    ensures
        out == bit_char(mode, mask, c),
{
    if mode & mask != 0 {
        c
    } else {
        '-'
    }
}

fn exec_bit(mode: u16, special: u16, execute: u16, both: char, special_only: char) -> (out: char)
    ensures
        out == execute_char(mode, special, execute, both, special_only),
{
    if mode & special != 0 {
        if mode & execute != 0 {
            both
        } else {
            special_only
        }
    } else {
        bit(mode, execute, 'x')
    }
}

/// A mode as `ls -l` shows it, such as `drwxr-xr-x`.
pub fn format_mode_str(mode: u16, file_type: FileType) -> (out: String)
    ensures
        out@ == mode_text(mode, file_type),
{
    let kind = match file_type {
        FileType::RegFile => '-',
        FileType::Dir => 'd',
        FileType::Symlink => 'l',
        FileType::ChrDev => 'c',
        FileType::BlkDev => 'b',
        FileType::Fifo => 'p',
        FileType::Sock => 's',
        FileType::Unknown => '?',
    };
    let mut out = String::new();
    out.push(kind);
    out.push(bit(mode, 0o400, 'r'));
    out.push(bit(mode, 0o200, 'w'));
    out.push(exec_bit(mode, 0o4000, 0o100, 's', 'S'));
    out.push(bit(mode, 0o040, 'r'));
    out.push(bit(mode, 0o020, 'w'));
    out.push(exec_bit(mode, 0o2000, 0o010, 's', 'S'));
    out.push(bit(mode, 0o004, 'r'));
    out.push(bit(mode, 0o002, 'w'));
    out.push(exec_bit(mode, 0o1000, 0o001, 't', 'T'));
    proof {
        assert(out@ =~= mode_text(mode, file_type));
    }
    out
}

/// The text of a mode tells the type and all twelve permission bits.
pub proof fn law_mode_text_is_faithful(a: u16, b: u16, type_a: FileType, type_b: FileType)
    requires
        mode_text(a, type_a) == mode_text(b, type_b),
    ensures
        type_a == type_b,
        a & 0o7777 == b & 0o7777,
{
    let s = mode_text(a, type_a);
    let t = mode_text(b, type_b);
    assert(s[0] == t[0] && s[1] == t[1] && s[2] == t[2] && s[3] == t[3] && s[4] == t[4] && s[5]
        == t[5] && s[6] == t[6] && s[7] == t[7] && s[8] == t[8] && s[9] == t[9]);
    assert(a & 0o7777 == b & 0o7777) by (bit_vector)
        requires
            (a & 0o400 != 0) == (b & 0o400 != 0),
            (a & 0o200 != 0) == (b & 0o200 != 0),
            (a & 0o100 != 0) == (b & 0o100 != 0),
            (a & 0o040 != 0) == (b & 0o040 != 0),
            (a & 0o020 != 0) == (b & 0o020 != 0),
            (a & 0o010 != 0) == (b & 0o010 != 0),
            (a & 0o004 != 0) == (b & 0o004 != 0),
            (a & 0o002 != 0) == (b & 0o002 != 0),
            (a & 0o001 != 0) == (b & 0o001 != 0),
            (a & 0o4000 != 0) == (b & 0o4000 != 0),
            (a & 0o2000 != 0) == (b & 0o2000 != 0),
            (a & 0o1000 != 0) == (b & 0o1000 != 0),
    ;
}

/// A byte as two hexadecimal digits.
pub open spec fn hex2(b: u8) -> Seq<char> {
    pad_left(hex(b as nat), 2, '0')
}

/// The bytes from index `from` up to `to` in hexadecimal.
pub open spec fn hex_run(u: Seq<u8>, from: int, to: int) -> Seq<char>
    decreases to - from,
{
    if from >= to {
        Seq::empty()
    } else {
        hex_run(u, from, to - 1) + hex2(u[to - 1])
    }
}

/// A UUID in the usual groups of eight, four, four, four and twelve digits.
pub open spec fn uuid_text(u: Seq<u8>) -> Seq<char> {
    hex_run(u, 0, 4) + "-"@ + hex_run(u, 4, 6) + "-"@ + hex_run(u, 6, 8) + "-"@ + hex_run(u, 8, 10)
        + "-"@ + hex_run(u, 10, 16)
}

fn hex_bytes(u: &[u8; 16], from: usize, to: usize) -> (out: String)
    requires
        from <= to <= 16,
    ensures
        out@ == hex_run(u@, from as int, to as int),
{
    let mut out = String::new();
    for i in from..to
        invariant
            from <= i <= to <= 16,
            out@ == hex_run(u@, from as int, i as int),
    {
        out.append(hex_text(u[i] as u64, 2).as_str());
    }
    out
}

/// A UUID in the usual groups.
pub fn format_uuid(u: &[u8; 16]) -> (out: String)
    ensures
        out@ == uuid_text(u@),
{
    let mut out = hex_bytes(u, 0, 4);
    out.append("-");
    out.append(hex_bytes(u, 4, 6).as_str());
    out.append("-");
    out.append(hex_bytes(u, 6, 8).as_str());
    out.append("-");
    out.append(hex_bytes(u, 8, 10).as_str());
    out.append("-");
    out.append(hex_bytes(u, 10, 16).as_str());
    out
}

/// The characters of a mode stand at the places of their bits: owner, group and
/// others in this order, and of each reading, writing and executing. Without
/// its special bit a place shows its letter exactly where the mode has its bit.
/// With it, an execute place shows another letter, small where the bit is set.
#[verifier::rlimit(40)]
pub proof fn law_mode_characters_have_their_places(mode: u16, file_type: FileType, k: int)
    requires
        0 <= k < 9,
    ensures
        mode_text(mode, file_type).len() == 10,
        mode_text(mode, file_type)[0] == match file_type {
            FileType::RegFile => '-',
            FileType::Dir => 'd',
            FileType::Symlink => 'l',
            FileType::ChrDev => 'c',
            FileType::BlkDev => 'b',
            FileType::Fifo => 'p',
            FileType::Sock => 's',
            FileType::Unknown => '?',
        },
        ({
            let c = mode_text(mode, file_type)[1 + k];
            let bit = seq![0o400u16, 0o200, 0o100, 0o040, 0o020, 0o010, 0o004, 0o002, 0o001][k];
            let special = seq![0u16, 0, 0o4000, 0, 0, 0o2000, 0, 0, 0o1000][k];
            let is_set = mode & bit != 0;
            &&& special == 0 || mode & special == 0 ==> c == if is_set {
                seq!['r', 'w', 'x'][k % 3]
            } else {
                '-'
            }
            &&& special != 0 && mode & special != 0 ==> c == if is_set {
                seq!['s', 's', 't'][k / 3]
            } else {
                seq!['S', 'S', 'T'][k / 3]
            }
            &&& mode & 0o7000 == 0 ==> (c != '-' <==> is_set)
        }),
{
    assert(mode & 0o7000 == 0 ==> mode & 0o4000 == 0 && mode & 0o2000 == 0 && mode & 0o1000 == 0)
        by (bit_vector);
    if k == 0 {
    } else if k == 1 {
    } else if k == 2 {
    } else if k == 3 {
    } else if k == 4 {
    } else if k == 5 {
    } else if k == 6 {
    } else if k == 7 {
    } else {
        assert(k == 8);
    }
}

/// Each class of users has its own characters: those of the owner depend on the
/// owner's bits and on setuid alone, those of the group on the group's bits and
/// on setgid, and those of others on their bits and on the sticky bit.
#[verifier::rlimit(40)]
pub proof fn law_mode_classes_are_apart(a: u16, b: u16, file_type: FileType)
    ensures
        a & 0o4700 == b & 0o4700 ==> mode_text(a, file_type).subrange(0, 4) == mode_text(
            b,
            file_type,
        ).subrange(0, 4),
        a & 0o2070 == b & 0o2070 ==> mode_text(a, file_type).subrange(4, 7) == mode_text(
            b,
            file_type,
        ).subrange(4, 7),
        a & 0o1007 == b & 0o1007 ==> mode_text(a, file_type).subrange(7, 10) == mode_text(
            b,
            file_type,
        ).subrange(7, 10),
{
    assert(a & 0o4700 == b & 0o4700 ==> a & 0o400 == b & 0o400 && a & 0o200 == b & 0o200 && a
        & 0o100 == b & 0o100 && a & 0o4000 == b & 0o4000) by (bit_vector);
    assert(a & 0o2070 == b & 0o2070 ==> a & 0o040 == b & 0o040 && a & 0o020 == b & 0o020 && a
        & 0o010 == b & 0o010 && a & 0o2000 == b & 0o2000) by (bit_vector);
    assert(a & 0o1007 == b & 0o1007 ==> a & 0o004 == b & 0o004 && a & 0o002 == b & 0o002 && a
        & 0o001 == b & 0o001 && a & 0o1000 == b & 0o1000) by (bit_vector);
    let x = mode_text(a, file_type);
    let y = mode_text(b, file_type);
    if a & 0o4700 == b & 0o4700 {
        assert(x.subrange(0, 4) =~= y.subrange(0, 4));
    }
    if a & 0o2070 == b & 0o2070 {
        assert(x.subrange(4, 7) =~= y.subrange(4, 7));
    }
    if a & 0o1007 == b & 0o1007 {
        assert(x.subrange(7, 10) =~= y.subrange(7, 10));
    }
}

/// The file type of a directory entry is one letter, a question mark for a
/// number that stands for no type.
pub proof fn law_type_letters(ft: u8)
    ensures
        type_letter(ft) == seq![
            seq!['?', 'f', 'd', 'c', 'b', 'p', 's', 'l'][if ft <= 7 {
                ft as int
            } else {
                0
            }],
        ],
{
    reveal_strlit("f");
    reveal_strlit("d");
    reveal_strlit("c");
    reveal_strlit("b");
    reveal_strlit("p");
    reveal_strlit("s");
    reveal_strlit("l");
    reveal_strlit("?");
}

proof fn lemma_hex2(b: u8)
    ensures
        hex2(b).len() == 2,
        hex2(b)[0] == "0123456789abcdef"@[b as int / 16],
        hex2(b)[1] == "0123456789abcdef"@[b as int % 16],
{
    reveal_strlit("0123456789abcdef");
    reveal_with_fuel(crate::text::digits, 3);
    let n = b as nat;
    if n < 16 {
        assert(hex(n) =~= seq![crate::text::digit_char(n)]);
    } else {
        assert(n / 16 < 16);
        assert(hex(n) =~= seq![
            crate::text::digit_char(n / 16),
            crate::text::digit_char(n % 16),
        ]);
    }
}

#[verifier::rlimit(40)]
proof fn lemma_hex_run(u: Seq<u8>, from: int, to: int)
    requires
        from <= to,
    ensures
        hex_run(u, from, to).len() == 2 * (to - from),
        forall|i: int|
            from <= i < to ==> {
                &&& hex_run(u, from, to)[2 * (i - from)] == "0123456789abcdef"@[#[trigger] u[i] as int / 16]
                &&& hex_run(u, from, to)[2 * (i - from) + 1] == "0123456789abcdef"@[u[i] as int % 16]
            },
    decreases to - from,
{
    if from < to {
        lemma_hex_run(u, from, to - 1);
        lemma_hex2(u[to - 1]);
        let s = hex_run(u, from, to);
        let t = hex_run(u, from, to - 1);
        assert forall|i: int| from <= i < to implies {
            &&& s[2 * (i - from)] == "0123456789abcdef"@[#[trigger] u[i] as int / 16]
            &&& s[2 * (i - from) + 1] == "0123456789abcdef"@[u[i] as int % 16]
        } by {
            if i < to - 1 {
                assert(s[2 * (i - from)] == t[2 * (i - from)]);
                assert(s[2 * (i - from) + 1] == t[2 * (i - from) + 1]);
            }
        }
    }
}

/// A UUID shows its bytes in order, each as two digits, the high one first, with
/// dashes behind the fourth, sixth, eighth and tenth byte.
#[verifier::rlimit(40)]
pub proof fn law_uuid_shows_its_bytes(u: Seq<u8>, i: int)
    requires
        u.len() == 16,
        0 <= i < 16,
    ensures
        ({
            let text = uuid_text(u);
            let at = 2 * i + if i < 4 {
                0int
            } else if i < 6 {
                1
            } else if i < 8 {
                2
            } else if i < 10 {
                3
            } else {
                4
            };
            &&& text.len() == 36
            &&& text[8] == '-' && text[13] == '-' && text[18] == '-' && text[23] == '-'
            &&& text[at] == "0123456789abcdef"@[u[i] as int / 16]
            &&& text[at + 1] == "0123456789abcdef"@[u[i] as int % 16]
        }),
{
    reveal_strlit("-");
    lemma_hex_run(u, 0, 4);
    lemma_hex_run(u, 4, 6);
    lemma_hex_run(u, 6, 8);
    lemma_hex_run(u, 8, 10);
    lemma_hex_run(u, 10, 16);
    let b = u[i];
}

}
