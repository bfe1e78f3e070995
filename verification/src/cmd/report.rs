//! The commands that print what a volume holds.

use vstd::prelude::*;

use crate::attr::{Attr, FileType};
use crate::calendar::{format_unix_time, time_text};
use crate::context::{cchar_slice_to_string, field_text, sizes_fit, VolumeFacts};
use crate::format::{
    format_mode_str, format_uuid, ftype_str, mode_text, type_letter, uuid_text,
};
use crate::mount::Partition;
use crate::text::{
    contains_nul, debug_str, debug_text, dec, dec_text, has_nul, hex, hex_text, lossy_str, oct,
    pad_left, pad_right, padded_left, padded_right, radix_text, signed_dec, signed_dec_text,
    lossy_text, views,
};

verus! {

/// The refusal of an argument with a NUL, which no C string can carry.
pub fn c_text(what: &str, s: &str) -> (out: Result<(), String>)
    ensures
        if has_nul(s@) {
            out matches Err(e) && e@ == what@ + " contains NUL byte"@
        } else {
            out is Ok
        },
{
    if contains_nul(s) {
        let mut e = what.to_owned();
        e.append(" contains NUL byte");
        Err(e)
    } else {
        Ok(())
    }
}

/// A failed call on a path.
pub open spec fn call_failure(call: Seq<char>, path: Seq<char>, reason: Seq<char>) -> Seq<char> {
    call + "("@ + debug_text(path) + ") failed: "@ + reason
}

pub(crate) fn call_failed(call: &str, path: &str, reason: &str) -> (out: String)
    ensures
        out@ == call_failure(call@, path@, reason@),
{
    let mut e = call.to_owned();
    e.append("(");
    e.append(debug_str(path).as_str());
    e.append(") failed: ");
    e.append(reason);
    e
}

// ---------------------------------------------------------------------------
// info
// ---------------------------------------------------------------------------

/// A size in bytes and in blocks.
pub open spec fn size_line(title: Seq<char>, bytes: int, blocks: int) -> Seq<char> {
    title + dec(bytes as nat) + " bytes ("@ + dec(blocks as nat) + " blocks)"@
}

/// A feature word.
pub open spec fn word_line(title: Seq<char>, word: u32) -> Seq<char> {
    title + "0x"@ + pad_left(hex(word as nat), 8, '0')
}

/// What `info` prints.
pub open spec fn info_lines(f: VolumeFacts) -> Seq<Seq<char>> {
    let used = f.total_blocks - f.free_blocks;
    seq![
        "label:          "@ + debug_text(field_text(f.volume_name@)),
        "uuid:           "@ + uuid_text(f.uuid@),
        "last_mounted:   "@ + debug_text(field_text(f.last_mounted@)),
        "block_size:     "@ + dec(f.block_size as nat),
        size_line("total:          "@, f.total_blocks * f.block_size, f.total_blocks as int),
        size_line("used:           "@, used * f.block_size, used),
        size_line("free:           "@, f.free_blocks * f.block_size, f.free_blocks as int),
        "inodes:         "@ + dec(f.total_inodes as nat) + " total, "@ + dec(f.free_inodes as nat)
            + " free"@,
        "inode_size:     "@ + dec(f.inode_size as nat),
        "rev:            "@ + dec(f.rev_level as nat) + "."@ + dec(f.minor_rev_level as nat),
        word_line("feat_compat:    "@, f.feature_compat),
        word_line("feat_incompat:  "@, f.feature_incompat),
        word_line("feat_ro_compat: "@, f.feature_ro_compat),
        "state:          0x"@ + pad_left(hex(f.state as nat), 4, '0') + if f.mounted_dirty != 0 {
            "  (DIRTY — needs journal replay / fsck before RW)"@
        } else {
            ""@
        },
    ]
}

fn sized(title: &str, bytes: u64, blocks: u64) -> (line: String)
    ensures
        line@ == size_line(title@, bytes as int, blocks as int),
{
    let mut line = title.to_owned();
    line.append(dec_text(bytes).as_str());
    line.append(" bytes (");
    line.append(dec_text(blocks).as_str());
    line.append(" blocks)");
    line
}

fn worded(title: &str, word: u32) -> (line: String)
    ensures
        line@ == word_line(title@, word),
{
    let mut line = title.to_owned();
    line.append("0x");
    line.append(hex_text(word as u64, 8).as_str());
    line
}

fn titled(title: &str, text: &str) -> (line: String)
    ensures
        line@ == title@ + text@,
{
    let mut line = title.to_owned();
    line.append(text);
    line
}

/// What `info` prints of a volume.
pub fn info(facts: Option<&VolumeFacts>, reason: &str) -> (out: Result<Vec<String>, String>)
    requires
        facts matches Some(f) ==> sizes_fit(*f),
    ensures
        match facts {
            None => out matches Err(e) && e@ == "fs_ext4_get_volume_info failed: "@ + reason@,
            Some(f) => out matches Ok(lines) && views(lines@) == info_lines(*f),
        },
{
    let f = match facts {
        None => {
            return Err(titled("fs_ext4_get_volume_info failed: ", reason));
        },
        Some(f) => f,
    };
    let bs: u64 = f.block_size as u64;
    let used: u64 = f.total_blocks - f.free_blocks;
    proof {
        assert(used * bs <= f.total_blocks * bs && f.free_blocks * bs <= f.total_blocks * bs)
            by (nonlinear_arith)
            requires
                used <= f.total_blocks,
                f.free_blocks <= f.total_blocks,
        ;
    }
    let mut lines: Vec<String> = Vec::new();
    let label = cchar_slice_to_string(f.volume_name.as_slice());
    lines.push(titled("label:          ", debug_str(label.as_str()).as_str()));
    lines.push(titled("uuid:           ", format_uuid(&f.uuid).as_str()));
    let last = cchar_slice_to_string(f.last_mounted.as_slice());
    lines.push(titled("last_mounted:   ", debug_str(last.as_str()).as_str()));
    lines.push(titled("block_size:     ", dec_text(bs).as_str()));
    lines.push(sized("total:          ", f.total_blocks * bs, f.total_blocks));
    lines.push(sized("used:           ", used * bs, used));
    lines.push(sized("free:           ", f.free_blocks * bs, f.free_blocks));
    let mut inodes = titled("inodes:         ", dec_text(f.total_inodes as u64).as_str());
    inodes.append(" total, ");
    inodes.append(dec_text(f.free_inodes as u64).as_str());
    inodes.append(" free");
    lines.push(inodes);
    lines.push(titled("inode_size:     ", dec_text(f.inode_size as u64).as_str()));
    let mut rev = titled("rev:            ", dec_text(f.rev_level as u64).as_str());
    rev.append(".");
    rev.append(dec_text(f.minor_rev_level as u64).as_str());
    lines.push(rev);
    lines.push(worded("feat_compat:    ", f.feature_compat));
    lines.push(worded("feat_incompat:  ", f.feature_incompat));
    lines.push(worded("feat_ro_compat: ", f.feature_ro_compat));
    let mut state = titled("state:          0x", hex_text(f.state as u64, 4).as_str());
    state.append(
        if f.mounted_dirty != 0 {
            "  (DIRTY — needs journal replay / fsck before RW)"
        } else {
            ""
        },
    );
    lines.push(state);
    proof {
        assert(views(lines@) =~= info_lines(*f));
    }
    Ok(lines)
}

// ---------------------------------------------------------------------------
// ls
// ---------------------------------------------------------------------------

/// An entry of a directory as the ext4 side hands it out.
pub struct RawEntry {
    pub inode: u32,
    pub file_type: u8,
    pub name: Vec<u8>,
}

/// The line of an entry.
pub open spec fn entry_line(e: RawEntry) -> Seq<char> {
    pad_left(dec(e.inode as nat), 10, ' ') + " "@ + type_letter(e.file_type) + " "@ + lossy_text(
        e.name@,
    )
}

/// The line of an entry.
pub fn entry_text(e: &RawEntry) -> (line: String)
    ensures
        line@ == entry_line(*e),
{
    let mut line = padded_left(dec_text(e.inode as u64).as_str(), 10, ' ');
    line.append(" ");
    line.append(ftype_str(e.file_type));
    line.append(" ");
    line.append(lossy_str(e.name.as_slice()).as_str());
    line
}

/// What `ls` prints of a directory, whose entries are given where it could be
/// opened.
pub fn ls(path: &str, listing: Option<&[RawEntry]>, reason: &str) -> (out: Result<
    Vec<String>,
    String,
>)
    ensures
        match listing {
            None => out matches Err(e) && e@ == call_failure("dir_open"@, path@, reason@),
            Some(entries) => out matches Ok(lines) && views(lines@) == entries@.map_values(
                |e: RawEntry| entry_line(e),
            ),
        },
{
    let entries = match listing {
        None => {
            return Err(call_failed("dir_open", path, reason));
        },
        Some(entries) => entries,
    };
    let mut lines: Vec<String> = Vec::new();
    for i in 0..entries.len()
        invariant
            lines@.len() == i,
            forall|k: int| 0 <= k < i ==> (#[trigger] lines@[k])@ == entry_line(entries@[k]),
    {
        lines.push(entry_text(&entries[i]));
    }
    proof {
        assert(views(lines@) =~= entries@.map_values(|e: RawEntry| entry_line(e)));
    }
    Ok(lines)
}

// ---------------------------------------------------------------------------
// stat
// ---------------------------------------------------------------------------

/// The name of a file type.
pub open spec fn kind_name(file_type: FileType) -> Seq<char> {
    match file_type {
        FileType::Unknown => "Unknown"@,
        FileType::RegFile => "RegFile"@,
        FileType::Dir => "Dir"@,
        FileType::ChrDev => "ChrDev"@,
        FileType::BlkDev => "BlkDev"@,
        FileType::Fifo => "Fifo"@,
        FileType::Sock => "Sock"@,
        FileType::Symlink => "Symlink"@,
    }
}

/// A timestamp: its seconds and nanoseconds, and the date.
pub open spec fn time_line(title: Seq<char>, secs: i64, nsec: u32) -> Seq<char> {
    title + signed_dec(secs as int) + "."@ + pad_left(dec(nsec as nat), 9, '0') + " ("@
        + time_text(secs as int) + ")"@
}

/// What `stat` prints.
pub open spec fn stat_lines(path: Seq<char>, a: Attr) -> Seq<Seq<char>> {
    seq![
        "path:        "@ + path,
        "inode:       "@ + dec(a.inode as nat),
        "size:        "@ + dec(a.size as nat),
        "mode:        "@ + mode_text(a.mode, a.file_type) + "  (0o"@ + oct(
            (a.mode & 0o7777) as nat,
        ) + ")"@,
        "uid/gid:     "@ + dec(a.uid as nat) + "/"@ + dec(a.gid as nat),
        "link_count:  "@ + dec(a.link_count as nat),
        word_line("inode_flags: "@, a.inode_flags),
        "generation:  "@ + dec(a.generation as nat),
        "blocks_512:  "@ + dec(a.blocks_512 as nat),
        time_line("atime:       "@, a.atime, a.atime_nsec),
        time_line("mtime:       "@, a.mtime, a.mtime_nsec),
        time_line("ctime:       "@, a.ctime, a.ctime_nsec),
        time_line("crtime:      "@, a.crtime, a.crtime_nsec),
        "type:        "@ + kind_name(a.file_type),
    ]
}

fn type_str(file_type: FileType) -> (out: &'static str)
    ensures
        out@ == kind_name(file_type),
{
    match file_type {
        FileType::Unknown => "Unknown",
        FileType::RegFile => "RegFile",
        FileType::Dir => "Dir",
        FileType::ChrDev => "ChrDev",
        FileType::BlkDev => "BlkDev",
        FileType::Fifo => "Fifo",
        FileType::Sock => "Sock",
        FileType::Symlink => "Symlink",
    }
}

fn timed(title: &str, secs: i64, nsec: u32) -> (line: String)
    ensures
        line@ == time_line(title@, secs, nsec),
{
    let mut line = titled(title, signed_dec_text(secs).as_str());
    line.append(".");
    line.append(padded_left(dec_text(nsec as u64).as_str(), 9, '0').as_str());
    line.append(" (");
    line.append(format_unix_time(secs).as_str());
    line.append(")");
    line
}

/// What `stat` prints of a path.
pub fn stat(path: &str, reply: Option<&Attr>, reason: &str) -> (out: Result<Vec<String>, String>)
    ensures
        match reply {
            None => out matches Err(e) && e@ == call_failure("stat"@, path@, reason@),
            Some(a) => out matches Ok(lines) && views(lines@) == stat_lines(path@, *a),
        },
{
    let a = match reply {
        None => {
            return Err(call_failed("stat", path, reason));
        },
        Some(a) => a,
    };
    let mut lines: Vec<String> = Vec::new();
    lines.push(titled("path:        ", path));
    lines.push(titled("inode:       ", dec_text(a.inode as u64).as_str()));
    lines.push(titled("size:        ", dec_text(a.size).as_str()));
    let mut mode = titled("mode:        ", format_mode_str(a.mode, a.file_type).as_str());
    mode.append("  (0o");
    mode.append(radix_text((a.mode & 0o7777) as u64, 8).as_str());
    mode.append(")");
    lines.push(mode);
    let mut owner = titled("uid/gid:     ", dec_text(a.uid as u64).as_str());
    owner.append("/");
    owner.append(dec_text(a.gid as u64).as_str());
    lines.push(owner);
    lines.push(titled("link_count:  ", dec_text(a.link_count as u64).as_str()));
    lines.push(worded("inode_flags: ", a.inode_flags));
    lines.push(titled("generation:  ", dec_text(a.generation as u64).as_str()));
    lines.push(titled("blocks_512:  ", dec_text(a.blocks_512).as_str()));
    lines.push(timed("atime:       ", a.atime, a.atime_nsec));
    lines.push(timed("mtime:       ", a.mtime, a.mtime_nsec));
    lines.push(timed("ctime:       ", a.ctime, a.ctime_nsec));
    lines.push(timed("crtime:      ", a.crtime, a.crtime_nsec));
    lines.push(titled("type:        ", type_str(a.file_type)));
    proof {
        assert(views(lines@) =~= stat_lines(path@, *a));
    }
    Ok(lines)
}

// ---------------------------------------------------------------------------
// parts
// ---------------------------------------------------------------------------

/// A row of the partition table, its first four columns set flush right.
pub open spec fn part_row(
    number: Seq<char>,
    start: Seq<char>,
    size: Seq<char>,
    kind: Seq<char>,
    name: Seq<char>,
) -> Seq<char> {
    pad_left(number, 3, ' ') + " "@ + pad_left(start, 16, ' ') + " "@ + pad_left(size, 16, ' ')
        + " "@ + pad_left(kind, 10, ' ') + " "@ + name
}

/// The row of partition number `number`.
pub open spec fn part_line(number: int, p: Partition) -> Seq<char> {
    part_row(
        dec(number as nat),
        dec(p.start_lba as nat),
        dec(p.num_sectors as nat),
        p.kind@,
        match p.name {
            Some(name) => name@,
            None => ""@,
        },
    )
}

/// What `parts` prints.
pub open spec fn parts_lines(list: Seq<Partition>) -> Seq<Seq<char>> {
    if list.len() == 0 {
        seq!["no partitions found"@]
    } else {
        seq![part_row("#"@, "start (LBA)"@, "size (sectors)"@, "type"@, "name"@)] + Seq::new(
            list.len(),
            |i: int| part_line(i + 1, list[i]),
        )
    }
}

fn row(number: &str, start: &str, size: &str, kind: &str, name: &str) -> (line: String)
    ensures
        line@ == part_row(number@, start@, size@, kind@, name@),
{
    let mut line = padded_left(number, 3, ' ');
    line.append(" ");
    line.append(padded_left(start, 16, ' ').as_str());
    line.append(" ");
    line.append(padded_left(size, 16, ' ').as_str());
    line.append(" ");
    line.append(padded_left(kind, 10, ' ').as_str());
    line.append(" ");
    line.append(name);
    line
}

/// What `parts` prints of a partition table.
pub fn parts(list: &[Partition]) -> (lines: Vec<String>)
    ensures
        views(lines@) == parts_lines(list@),
{
    let mut lines: Vec<String> = Vec::new();
    if list.len() == 0 {
        lines.push("no partitions found".to_owned());
        proof {
            assert(views(lines@) =~= parts_lines(list@));
        }
        return lines;
    }
    lines.push(row("#", "start (LBA)", "size (sectors)", "type", "name"));
    for i in 0..list.len()
        invariant
            list@.len() > 0,
            lines@.len() == i + 1,
            lines@[0]@ == part_row("#"@, "start (LBA)"@, "size (sectors)"@, "type"@, "name"@),
            forall|k: int|
                1 <= k <= i ==> (#[trigger] lines@[k])@ == part_line(k, list@[k - 1]),
    {
        let p = &list[i];
        let name = match &p.name {
            Some(name) => name.as_str(),
            None => "",
        };
        lines.push(
            row(
                dec_text(i as u64 + 1).as_str(),
                dec_text(p.start_lba).as_str(),
                dec_text(p.num_sectors).as_str(),
                p.kind.as_str(),
                name,
            ),
        );
    }
    proof {
        assert(views(lines@) =~= parts_lines(list@));
    }
    lines
}

// ---------------------------------------------------------------------------
// audit
// ---------------------------------------------------------------------------

/// Something that the audit came upon.
pub struct Finding {
    pub kind: String,
    pub inode: u32,
    pub detail: String,
}

/// A finding as the ext4 side tells it. One without a kind is dropped; one
/// without details has empty details.
pub fn finding(kind: Option<&[u8]>, inode: u32, detail: Option<&[u8]>) -> (out: Option<Finding>)
    ensures
        match kind {
            None => out is None,
            Some(k) => out matches Some(f) && {
                &&& f.kind@ == lossy_text(k@)
                &&& f.inode == inode
                &&& f.detail@ == match detail {
                    Some(d) => lossy_text(d@),
                    None => ""@,
                }
            },
        },
{
    let kind = match kind {
        Some(k) => lossy_str(k),
        None => {
            return None;
        },
    };
    let detail = match detail {
        Some(d) => lossy_str(d),
        None => "".to_owned(),
    };
    Some(Finding { kind, inode, detail })
}

/// What the audit counted.
#[derive(Clone, Copy, Debug)]
pub struct FsckReport {
    pub inodes_visited: u64,
    pub directories_scanned: u64,
    pub entries_scanned: u64,
    pub anomalies_found: u64,
    pub was_dirty: u8,
}

/// What the audit is told to do.
#[derive(Clone, Copy, Debug, PartialEq, Eq, Structural)]
pub struct FsckOptions {
    pub read_only: u8,
    pub replay_journal: u8,
    pub repair: u8,
    pub max_dirs: u32,
    pub max_entries_per_dir: u32,
}

/// The audit changes nothing: it neither replays the journal nor repairs.
pub fn audit_options(max_dirs: u32, max_entries_per_dir: u32) -> (out: FsckOptions)
    ensures
        out == (FsckOptions {
            read_only: 1,
            replay_journal: 0,
            repair: 0,
            max_dirs,
            max_entries_per_dir,
        }),
{
    FsckOptions { read_only: 1, replay_journal: 0, repair: 0, max_dirs, max_entries_per_dir }
}

/// What an audit prints, and why it fails, where it does.
pub struct AuditOutcome {
    pub lines: Vec<String>,
    pub failure: Option<String>,
}

/// The line of a finding.
pub open spec fn finding_line(f: Finding) -> Seq<char> {
    "  ino="@ + pad_right(dec(f.inode as nat), 8) + " "@ + pad_right(f.kind@, 18) + " "@ + f.detail@
}

/// The counts of an audit.
pub open spec fn count_lines(r: FsckReport) -> Seq<Seq<char>> {
    seq![
        "inodes_visited:      "@ + dec(r.inodes_visited as nat),
        "directories_scanned: "@ + dec(r.directories_scanned as nat),
        "entries_scanned:     "@ + dec(r.entries_scanned as nat),
        "anomalies_found:     "@ + dec(r.anomalies_found as nat),
        "was_dirty:           "@ + if r.was_dirty != 0 {
            "yes"@
        } else {
            "no"@
        },
        ""@,
    ]
}

/// What an audit prints.
pub open spec fn audit_lines(r: FsckReport, findings: Seq<Finding>) -> Seq<Seq<char>> {
    if r.anomalies_found == 0 {
        count_lines(r).push("clean"@)
    } else {
        count_lines(r).push("anomalies:"@) + findings.map_values(|f: Finding| finding_line(f))
    }
}

fn found(f: &Finding) -> (line: String)
    ensures
        line@ == finding_line(*f),
{
    let mut line = "  ino=".to_owned();
    line.append(padded_right(dec_text(f.inode as u64).as_str(), 8).as_str());
    line.append(" ");
    line.append(padded_right(f.kind.as_str(), 18).as_str());
    line.append(" ");
    line.append(f.detail.as_str());
    line
}

/// The outcome of an audit. It fails where an anomaly was found, so that
/// scripts can tell by the exit code.
pub fn audit(report: Option<&FsckReport>, findings: &[Finding], reason: &str) -> (out: AuditOutcome)
    ensures
        match report {
            None => views(out.lines@) == Seq::<Seq<char>>::empty() && (out.failure matches Some(e)
                && e@ == "fs_ext4_fsck_run failed: "@ + reason@),
            Some(r) => {
                &&& views(out.lines@) == audit_lines(*r, findings@)
                &&& if r.anomalies_found == 0 {
                    out.failure is None
                } else {
                    out.failure matches Some(e) && e@ == "audit found "@ + dec(
                        r.anomalies_found as nat,
                    ) + " anomaly(s)"@
                }
            },
        },
{
    let mut lines: Vec<String> = Vec::new();
    let r = match report {
        None => {
            proof {
                assert(views(lines@) =~= Seq::empty());
            }
            return AuditOutcome {
                lines,
                failure: Some(titled("fs_ext4_fsck_run failed: ", reason)),
            };
        },
        Some(r) => r,
    };
    lines.push(titled("inodes_visited:      ", dec_text(r.inodes_visited).as_str()));
    lines.push(titled("directories_scanned: ", dec_text(r.directories_scanned).as_str()));
    lines.push(titled("entries_scanned:     ", dec_text(r.entries_scanned).as_str()));
    lines.push(titled("anomalies_found:     ", dec_text(r.anomalies_found).as_str()));
    lines.push(
        titled(
            "was_dirty:           ",
            if r.was_dirty != 0 {
                "yes"
            } else {
                "no"
            },
        ),
    );
    lines.push("".to_owned());
    proof {
        assert(views(lines@) =~= count_lines(*r));
    }
    let ghost counts = lines@;
    if r.anomalies_found == 0 {
        lines.push("clean".to_owned());
        proof {
            assert(views(lines@) =~= views(counts).push("clean"@));
        }
        return AuditOutcome { lines, failure: None };
    }
    lines.push("anomalies:".to_owned());
    proof {
        assert(views(lines@) =~= views(counts).push("anomalies:"@));
    }
    let ghost head = lines@;
    for i in 0..findings.len()
        invariant
            lines@.len() == head.len() + i,
            forall|k: int| 0 <= k < head.len() ==> lines@[k] == head[k],
            forall|k: int|
                head.len() <= k < lines@.len() ==> (#[trigger] lines@[k])@ == finding_line(
                    findings@[k - head.len()],
                ),
    {
        lines.push(found(&findings[i]));
    }
    proof {
        assert(views(lines@) =~= views(head) + findings@.map_values(
            |f: Finding| finding_line(f),
        ));
    }
    let mut e = titled("audit found ", dec_text(r.anomalies_found).as_str());
    e.append(" anomaly(s)");
    AuditOutcome { lines, failure: Some(e) }
}

/// The report on a volume: the used and the free blocks make up the total, each
/// with its bytes; the flags are hexadecimal, and a volume that was not
/// unmounted says so.
#[verifier::rlimit(40)]
pub proof fn law_info_tells_the_volume(f: VolumeFacts, used: nat)
    requires
        used + f.free_blocks == f.total_blocks,
    ensures
        ({
            let lines = info_lines(f);
            let size = |blocks: nat|
                dec((blocks * f.block_size) as nat) + " bytes ("@ + dec(blocks) + " blocks)"@;
            let word = |w: u32| "0x"@ + pad_left(hex(w as nat), 8, '0');
            &&& lines.len() == 14
            &&& lines[0] == "label:          "@ + debug_text(field_text(f.volume_name@))
            &&& lines[1] == "uuid:           "@ + uuid_text(f.uuid@)
            &&& lines[2] == "last_mounted:   "@ + debug_text(field_text(f.last_mounted@))
            &&& lines[3] == "block_size:     "@ + dec(f.block_size as nat)
            &&& lines[4] == "total:          "@ + size(f.total_blocks as nat)
            &&& lines[5] == "used:           "@ + size(used)
            &&& lines[6] == "free:           "@ + size(f.free_blocks as nat)
            &&& lines[7] == "inodes:         "@ + dec(f.total_inodes as nat) + " total, "@ + dec(
                f.free_inodes as nat,
            ) + " free"@
            &&& lines[8] == "inode_size:     "@ + dec(f.inode_size as nat)
            &&& lines[9] == "rev:            "@ + dec(f.rev_level as nat) + "."@ + dec(
                f.minor_rev_level as nat,
            )
            &&& lines[10] == "feat_compat:    "@ + word(f.feature_compat)
            &&& lines[11] == "feat_incompat:  "@ + word(f.feature_incompat)
            &&& lines[12] == "feat_ro_compat: "@ + word(f.feature_ro_compat)
            &&& f.mounted_dirty == 0 ==> lines[13] == "state:          0x"@ + pad_left(
                hex(f.state as nat),
                4,
                '0',
            )
            &&& f.mounted_dirty != 0 ==> lines[13] == "state:          0x"@ + pad_left(
                hex(f.state as nat),
                4,
                '0',
            ) + "  (DIRTY — needs journal replay / fsck before RW)"@
        }),
{
    reveal_strlit("");
    assert(f.total_blocks - f.free_blocks == used);
    let lines = info_lines(f);
    lemma_size_lines("total:          "@, f.total_blocks as nat, f.block_size);
    lemma_size_lines("used:           "@, used, f.block_size);
    lemma_size_lines("free:           "@, f.free_blocks as nat, f.block_size);
    lemma_word_lines("feat_compat:    "@, f.feature_compat);
    lemma_word_lines("feat_incompat:  "@, f.feature_incompat);
    lemma_word_lines("feat_ro_compat: "@, f.feature_ro_compat);
    let state = "state:          0x"@ + pad_left(hex(f.state as nat), 4, '0');
    assert(state + ""@ =~= state);
}

#[verifier::rlimit(40)]
proof fn lemma_size_lines(title: Seq<char>, blocks: nat, block_size: u32)
    ensures
        size_line(title, (blocks * block_size) as int, blocks as int) == title + (dec(
            (blocks * block_size) as nat,
        ) + " bytes ("@ + dec(blocks) + " blocks)"@),
{
    let d = dec((blocks * block_size) as nat);
    assert(blocks * block_size >= 0) by (nonlinear_arith);
    assert(title + d + " bytes ("@ + dec(blocks) + " blocks)"@ =~= title + (d + " bytes ("@ + dec(
        blocks,
    ) + " blocks)"@));
}

proof fn lemma_word_lines(title: Seq<char>, word: u32)
    ensures
        word_line(title, word) == title + ("0x"@ + pad_left(hex(word as nat), 8, '0')),
{
    assert(title + "0x"@ + pad_left(hex(word as nat), 8, '0') =~= title + ("0x"@ + pad_left(
        hex(word as nat),
        8,
        '0',
    )));
}

/// The report on a file: each line tells one thing of its inode. The mode stands
/// there as text and as its twelve permission bits in octal, and each of the
/// four times as a count of seconds with nine digits behind the point and as a
/// date.
#[verifier::rlimit(40)]
pub proof fn law_stat_tells_the_inode(path: Seq<char>, a: Attr)
    ensures
        ({
            let lines = stat_lines(path, a);
            let moment = |secs: i64, nsec: u32|
                signed_dec(secs as int) + "."@ + pad_left(dec(nsec as nat), 9, '0') + " ("@
                    + time_text(secs as int) + ")"@;
            &&& lines.len() == 14
            &&& lines[0] == "path:        "@ + path
            &&& lines[1] == "inode:       "@ + dec(a.inode as nat)
            &&& lines[2] == "size:        "@ + dec(a.size as nat)
            &&& lines[3] == "mode:        "@ + mode_text(a.mode, a.file_type) + "  (0o"@ + oct(
                (a.mode & 0o7777) as nat,
            ) + ")"@
            &&& lines[4] == "uid/gid:     "@ + dec(a.uid as nat) + "/"@ + dec(a.gid as nat)
            &&& lines[5] == "link_count:  "@ + dec(a.link_count as nat)
            &&& lines[6] == "inode_flags: "@ + ("0x"@ + pad_left(
                hex(a.inode_flags as nat),
                8,
                '0',
            ))
            &&& lines[7] == "generation:  "@ + dec(a.generation as nat)
            &&& lines[8] == "blocks_512:  "@ + dec(a.blocks_512 as nat)
            &&& lines[9] == "atime:       "@ + moment(a.atime, a.atime_nsec)
            &&& lines[10] == "mtime:       "@ + moment(a.mtime, a.mtime_nsec)
            &&& lines[11] == "ctime:       "@ + moment(a.ctime, a.ctime_nsec)
            &&& lines[12] == "crtime:      "@ + moment(a.crtime, a.crtime_nsec)
            &&& lines[13] == "type:        "@ + kind_name(a.file_type)
        }),
{
    lemma_word_lines("inode_flags: "@, a.inode_flags);
    lemma_time_lines("atime:       "@, a.atime, a.atime_nsec);
    lemma_time_lines("mtime:       "@, a.mtime, a.mtime_nsec);
    lemma_time_lines("ctime:       "@, a.ctime, a.ctime_nsec);
    lemma_time_lines("crtime:      "@, a.crtime, a.crtime_nsec);
}

#[verifier::rlimit(40)]
proof fn lemma_time_lines(title: Seq<char>, secs: i64, nsec: u32)
    ensures
        time_line(title, secs, nsec) == title + (signed_dec(secs as int) + "."@ + pad_left(
            dec(nsec as nat),
            9,
            '0',
        ) + " ("@ + time_text(secs as int) + ")"@),
{
    let d = signed_dec(secs as int);
    let n = pad_left(dec(nsec as nat), 9, '0');
    let t = time_text(secs as int);
    assert(title + d + "."@ + n + " ("@ + t + ")"@ =~= title + (d + "."@ + n + " ("@ + t + ")"@));
}

/// The file types have different names.
#[verifier::rlimit(40)]
pub proof fn law_kinds_have_names_of_their_own(a: FileType, b: FileType)
    ensures
        kind_name(a) == kind_name(b) <==> a == b,
        kind_name(FileType::RegFile) == "RegFile"@,
        kind_name(FileType::Dir) == "Dir"@,
        kind_name(FileType::ChrDev) == "ChrDev"@,
        kind_name(FileType::BlkDev) == "BlkDev"@,
        kind_name(FileType::Fifo) == "Fifo"@,
        kind_name(FileType::Sock) == "Sock"@,
        kind_name(FileType::Symlink) == "Symlink"@,
        kind_name(FileType::Unknown) == "Unknown"@,
{
    reveal_strlit("Unknown");
    reveal_strlit("RegFile");
    reveal_strlit("Dir");
    reveal_strlit("ChrDev");
    reveal_strlit("BlkDev");
    reveal_strlit("Fifo");
    reveal_strlit("Sock");
    reveal_strlit("Symlink");
    let x = kind_name(a);
    let y = kind_name(b);
    if x.len() == y.len() {
        assert(x[0] == y[0] && x[1] == y[1] && x[2] == y[2] || x != y);
    }
}

/// The table of partitions has a line for each one, in its order, with its
/// number from one on, where it starts, its sectors, its kind and its name, below
/// one line of headings. An empty table is one sentence.
#[verifier::rlimit(40)]
pub proof fn law_tables_have_a_line_for_each_partition(list: Seq<Partition>, i: int)
    ensures
        list.len() == 0 ==> parts_lines(list) == seq!["no partitions found"@],
        list.len() > 0 ==> parts_lines(list).len() == list.len() + 1,
        list.len() > 0 ==> parts_lines(list)[0] == pad_left("#"@, 3, ' ') + " "@ + pad_left(
            "start (LBA)"@,
            16,
            ' ',
        ) + " "@ + pad_left("size (sectors)"@, 16, ' ') + " "@ + pad_left("type"@, 10, ' ') + " "@
            + "name"@,
        0 <= i < list.len() ==> {
            let p = list[i];
            let row = pad_left(dec((i + 1) as nat), 3, ' ') + " "@ + pad_left(
                dec(p.start_lba as nat),
                16,
                ' ',
            ) + " "@ + pad_left(dec(p.num_sectors as nat), 16, ' ') + " "@ + pad_left(
                p.kind@,
                10,
                ' ',
            ) + " "@;
            &&& p.name matches Some(name) ==> parts_lines(list)[i + 1] == row + name@
            &&& p.name is None ==> parts_lines(list)[i + 1] == row
        },
{
    reveal_strlit("");
    if 0 <= i < list.len() {
        let p = list[i];
        assert(parts_lines(list)[i + 1] == part_line(i + 1, p));
        if p.name is None {
            let row = pad_left(dec((i + 1) as nat), 3, ' ') + " "@ + pad_left(
                dec(p.start_lba as nat),
                16,
                ' ',
            ) + " "@ + pad_left(dec(p.num_sectors as nat), 16, ' ') + " "@ + pad_left(
                p.kind@,
                10,
                ' ',
            ) + " "@;
            assert(row + ""@ =~= row);
        }
    }
}

/// An entry's line tells its inode, its type and its name.
pub proof fn law_entry_lines(e: RawEntry)
    ensures
        entry_line(e) == pad_left(dec(e.inode as nat), 10, ' ') + seq![' '] + type_letter(
            e.file_type,
        ) + seq![' '] + lossy_text(e.name@),
{
    reveal_strlit(" ");
    assert(" "@ =~= seq![' ']);
}

/// The report of an audit has the counts first. It ends with one word where
/// nothing was found, and otherwise with one line for each finding, in their
/// order.
#[verifier::rlimit(40)]
pub proof fn law_audits_report_each_finding(r: FsckReport, findings: Seq<Finding>, i: int)
    ensures
        ({
            let lines = audit_lines(r, findings);
            &&& lines[0] == "inodes_visited:      "@ + dec(r.inodes_visited as nat)
            &&& lines[1] == "directories_scanned: "@ + dec(r.directories_scanned as nat)
            &&& lines[2] == "entries_scanned:     "@ + dec(r.entries_scanned as nat)
            &&& lines[3] == "anomalies_found:     "@ + dec(r.anomalies_found as nat)
            &&& r.was_dirty != 0 ==> lines[4] == "was_dirty:           "@ + "yes"@
            &&& r.was_dirty == 0 ==> lines[4] == "was_dirty:           "@ + "no"@
            &&& lines[5] == ""@
            &&& r.anomalies_found == 0 ==> lines.len() == 7 && lines[6] == "clean"@
            &&& r.anomalies_found > 0 ==> lines.len() == 7 + findings.len() && lines[6]
                == "anomalies:"@
            &&& r.anomalies_found > 0 && 0 <= i < findings.len() ==> lines[7 + i] == "  ino="@
                + pad_right(dec(findings[i].inode as nat), 8) + " "@ + pad_right(
                findings[i].kind@,
                18,
            ) + " "@ + findings[i].detail@
        }),
{
}

/// A call that failed is named with its path and the reason.
pub proof fn law_failures_name_the_call(call: Seq<char>, path: Seq<char>, reason: Seq<char>)
    ensures
        call_failure(call, path, reason) == call + seq!['('] + debug_text(path) + ") failed: "@
            + reason,
{
    reveal_strlit("(");
    assert("("@ =~= seq!['(']);
}

}
