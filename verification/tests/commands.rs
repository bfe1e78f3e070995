use ext4_win_driver::attr::{Attr, FileType};
use ext4_win_driver::calendar::format_unix_time;
use ext4_win_driver::cmd::calls::{
    getxattr_size, listxattr_size, Command, FsCall, SaveRun, SaveStep,
};
use ext4_win_driver::cmd::cat::resolve_symlink;
use ext4_win_driver::cmd::report::{
    audit_options, c_text, finding, Finding, FsckReport, RawEntry,
};
use ext4_win_driver::cmd::tree::{TreeStep, TreeWalk};
use ext4_win_driver::cmd::{
    audit, cat, chmod, chown, fallocate, getxattr, info, link, listxattr, ls, mkdir, mknod, parts,
    readlink, removexattr, rename, rename_replacing, rmdir, setflags, setxattr, stat, symlink,
    touch, tree, truncate, unlink, verify_ls, write_file,
};
use ext4_win_driver::context::{cchar_slice_to_string, volume_sizes_fit, VolumeFacts};
use ext4_win_driver::format::{format_mode_str, format_uuid, ftype_str};
use ext4_win_driver::mount::Partition;
use ext4_win_driver::numeric::{parse_hex_or_dec, parse_mode, parse_octal_or_dec};
use ext4_win_driver::resolve::WalkEnd;

fn err<T>(r: Result<T, String>) -> String {
    match r {
        Ok(_) => "ok".to_string(),
        Err(e) => e,
    }
}

fn ok<T>(r: Result<T, String>) -> T {
    match r {
        Ok(v) => v,
        Err(e) => panic!("{}", e),
    }
}

// ---- formatting ----

#[test]
fn modes_look_like_those_of_ls() {
    assert_eq!(format_mode_str(0o755, FileType::Dir), "drwxr-xr-x");
    assert_eq!(format_mode_str(0o644, FileType::RegFile), "-rw-r--r--");
    assert_eq!(format_mode_str(0o7777, FileType::RegFile), "-rwsrwsrwt");
    assert_eq!(format_mode_str(0o7000, FileType::Symlink), "l--S--S--T");
    assert_eq!(format_mode_str(0, FileType::ChrDev), "c---------");
    assert_eq!(format_mode_str(0, FileType::BlkDev), "b---------");
    assert_eq!(format_mode_str(0, FileType::Fifo), "p---------");
    assert_eq!(format_mode_str(0, FileType::Sock), "s---------");
    assert_eq!(format_mode_str(0, FileType::Unknown), "?---------");
    let letters: Vec<&str> = (0..9).map(ftype_str).collect();
    assert_eq!(letters, vec!["?", "f", "d", "c", "b", "p", "s", "l", "?"]);
}

#[test]
fn times_are_utc_dates() {
    assert_eq!(format_unix_time(0), "1970-01-01T00:00:00Z");
    assert_eq!(format_unix_time(951_782_399), "2000-02-28T23:59:59Z");
    assert_eq!(format_unix_time(951_782_400), "2000-02-29T00:00:00Z");
    assert_eq!(format_unix_time(951_868_800), "2000-03-01T00:00:00Z");
    assert_eq!(format_unix_time(1_700_000_000), "2023-11-14T22:13:20Z");
    assert_eq!(format_unix_time(4_294_967_295), "2106-02-07T06:28:15Z");
    assert_eq!(format_unix_time(4_107_542_399), "2100-02-28T23:59:59Z");
    assert_eq!(format_unix_time(4_107_542_400), "2100-03-01T00:00:00Z");
    assert_eq!(format_unix_time(-1), "1969-12-31T23:59:59Z");
    assert_eq!(format_unix_time(-2_147_483_648), "1901-12-13T20:45:52Z");
    assert_eq!(format_unix_time(253_402_300_800), "10000-01-01T00:00:00Z");
    assert_eq!(format_unix_time(-62_167_219_200), "0000-01-01T00:00:00Z");
    assert_eq!(format_unix_time(-62_167_219_201), "-001-12-31T23:59:59Z");
    assert_eq!(format_unix_time(i64::MAX), "292277026596-12-04T15:30:07Z");
    assert_eq!(format_unix_time(i64::MIN), "-292277022657-01-27T08:29:52Z");
}

#[test]
fn uuids_have_their_groups() {
    let mut u = [0u8; 16];
    for i in 0..16 {
        u[i] = (i * 17) as u8;
    }
    assert_eq!(format_uuid(&u), "00112233-4455-6677-8899-aabbccddeeff");
    assert_eq!(cchar_slice_to_string(b"ab\0cd"), "ab");
    assert_eq!(cchar_slice_to_string(b"abc"), "abc");
    assert_eq!(cchar_slice_to_string("d\u{E9}j\u{E0}\0".as_bytes()), "d\u{E9}j\u{E0}");
    assert_eq!(cchar_slice_to_string(&[0x61, 0xFF, 0x62]), "a\u{FFFD}b");
}

#[test]
fn numbers_are_hexadecimal_or_decimal() {
    assert_eq!(parse_hex_or_dec("0x10"), Ok(16));
    assert_eq!(parse_hex_or_dec("0XfF"), Ok(255));
    assert_eq!(parse_hex_or_dec("10"), Ok(10));
    assert_eq!(parse_hex_or_dec("0XdEaDbEeF"), Ok(0xDEAD_BEEF));
    assert_eq!(parse_hex_or_dec("+7"), Ok(7));
    assert_eq!(parse_hex_or_dec("0xffffffff"), Ok(u32::MAX));
    assert_eq!(parse_hex_or_dec("4294967295"), Ok(u32::MAX));
    for n in [0u32, 9, 10, 255, 4096, u32::MAX] {
        assert_eq!(parse_hex_or_dec(&format!("{}", n)), Ok(n));
        assert_eq!(parse_hex_or_dec(&format!("0x{:x}", n)), Ok(n));
        assert_eq!(parse_hex_or_dec(&format!("0X{:x}", n)), Ok(n));
        assert_eq!(parse_hex_or_dec(&format!("0x{:X}", n)), Ok(n));
        assert_eq!(parse_hex_or_dec(&format!("0X{:X}", n)), Ok(n));
    }
    for s in ["", "-1", "0x", "x10", "4294967296", "0x100000000", "1 ", "1_0", "0o17"] {
        assert!(parse_hex_or_dec(s).is_err(), "{}", s);
    }
    assert_eq!(parse_hex_or_dec(""), Err("cannot parse integer from empty string".to_string()));
    assert_eq!(parse_hex_or_dec("0xg"), Err("invalid digit found in string".to_string()));
    assert_eq!(
        parse_hex_or_dec("4294967296"),
        Err("number too large to fit in target type".to_string())
    );
}

#[test]
fn modes_may_be_octal() {
    assert_eq!(parse_mode("0o10644"), Ok(0o10644));
    assert_eq!(parse_mode("0o140000"), Ok(0o140000));
    assert_eq!(parse_mode("493"), Ok(0o755));
    assert_eq!(parse_mode("0x1ED"), Ok(0o755));
    for n in [0u32, 7, 8, 0o755, u32::MAX] {
        assert_eq!(parse_mode(&format!("0o{:o}", n)), Ok(n));
        assert_eq!(parse_mode(&format!("0x{:x}", n)), Ok(n));
        assert_eq!(parse_mode(&format!("0X{:x}", n)), Ok(n));
        assert_eq!(parse_mode(&format!("{}", n)), Ok(n));
    }
    assert_eq!(parse_mode("0o"), Err("cannot parse integer from empty string".to_string()));
    assert_eq!(parse_mode("0o8"), Err("invalid digit found in string".to_string()));
    assert_eq!(
        parse_mode("0o40000000000"),
        Err("number too large to fit in target type".to_string())
    );
    assert_eq!(parse_mode("0xg"), Err("invalid digit found in string".to_string()));
    assert!(parse_mode("rwx").is_err());
    assert_eq!(parse_octal_or_dec("0o755"), Ok(493));
    assert_eq!(parse_octal_or_dec("493"), Ok(493));
    assert_eq!(parse_octal_or_dec("0o9"), Err("invalid digit found in string".to_string()));
    assert_eq!(parse_octal_or_dec("0x1ed"), Err("invalid digit found in string".to_string()));
    assert_eq!(
        parse_octal_or_dec(""),
        Err("cannot parse integer from empty string".to_string())
    );
}

// ---- reports ----

fn facts() -> VolumeFacts {
    VolumeFacts {
        volume_name: b"my \"disk\"\0\0".to_vec(),
        uuid: [0xAB; 16],
        last_mounted: b"/mnt\0".to_vec(),
        block_size: 1024,
        total_blocks: 100,
        free_blocks: 40,
        total_inodes: 32,
        free_inodes: 20,
        inode_size: 256,
        rev_level: 1,
        minor_rev_level: 2,
        feature_compat: 0x3C,
        feature_incompat: 0x2C2,
        feature_ro_compat: 0x46B,
        state: 1,
        mounted_dirty: 0,
    }
}

#[test]
fn info_prints_the_volume() {
    let f = facts();
    assert!(volume_sizes_fit(&f));
    assert_eq!(
        ok(info(Some(&f), "")),
        vec![
            "label:          \"my \\\"disk\\\"\"",
            "uuid:           abababab-abab-abab-abab-abababababab",
            "last_mounted:   \"/mnt\"",
            "block_size:     1024",
            "total:          102400 bytes (100 blocks)",
            "used:           61440 bytes (60 blocks)",
            "free:           40960 bytes (40 blocks)",
            "inodes:         32 total, 20 free",
            "inode_size:     256",
            "rev:            1.2",
            "feat_compat:    0x0000003c",
            "feat_incompat:  0x000002c2",
            "feat_ro_compat: 0x0000046b",
            "state:          0x0001",
        ]
    );
    let mut dirty = facts();
    dirty.mounted_dirty = 1;
    assert_eq!(
        ok(info(Some(&dirty), "")).pop(),
        Some("state:          0x0001  (DIRTY — needs journal replay / fsck before RW)".to_string())
    );
    assert_eq!(err(info(None, "oops")), "fs_ext4_get_volume_info failed: oops");
    let mut odd = facts();
    odd.free_blocks = 101;
    assert!(!volume_sizes_fit(&odd));
    let mut huge = facts();
    huge.total_blocks = u64::MAX;
    assert!(!volume_sizes_fit(&huge));
}

fn entry(inode: u32, file_type: u8, name: &[u8]) -> RawEntry {
    RawEntry { inode, file_type, name: name.to_vec() }
}

#[test]
fn ls_prints_a_line_per_entry() {
    let list = vec![entry(2, 2, b"."), entry(12345678, 1, b"f\xFF"), entry(12345678901u64 as u32, 7, b"l")];
    assert_eq!(
        ok(ls("/", Some(&list), "")),
        vec!["         2 d .", "  12345678 f f\u{FFFD}", "3755744309 l l"]
    );
    assert_eq!(err(ls("/n\n", None, "no such file")), "dir_open(\"/n\\n\") failed: no such file");
    assert_eq!(c_text("path", "/ok"), Ok(()));
    assert_eq!(c_text("path", "/\0"), Err("path contains NUL byte".to_string()));
}

fn strings(list: &[&str]) -> Vec<String> {
    list.iter().map(|s| s.to_string()).collect()
}

#[test]
fn verify_ls_compares_sets_and_counts() {
    let list = vec![entry(2, 2, b"."), entry(2, 2, b".."), entry(11, 1, b"b"), entry(12, 1, b"a")];
    let check = |names: &[&str], count: Option<usize>| {
        err(verify_ls("/d", Some(&list), &strings(names), count, ""))
    };
    assert_eq!(check(&[], None), "ok");
    assert_eq!(check(&["a", "b", ".", ".."], Some(4)), "ok");
    assert_eq!(check(&["b", "a", "a", "..", "."], None), "ok");
    assert_eq!(check(&[], Some(3)), "verify-ls count mismatch at /d: got=4 want=3");
    assert_eq!(
        check(&["z", "x", "a", "x", "\u{e9}\""], None),
        "verify-ls name-set drift at /d:\n  missing: [\"x\", \"z\", \"\u{e9}\\\"\"]\n  unexpected: [\".\", \"..\", \"b\"]"
    );
    assert_eq!(
        check(&["a", "b", ".", "..", "c"], Some(5)),
        "verify-ls name-set drift at /d:\n  missing: [\"c\"] / count mismatch at /d: got=4 want=5"
    );
    assert_eq!(
        check(&["a"], None),
        "verify-ls name-set drift at /d:\n  unexpected: [\".\", \"..\", \"b\"]"
    );
    assert_eq!(
        err(verify_ls("/d", None, &[], None, "gone")),
        "dir_open(\"/d\") failed: gone"
    );
}

fn attr() -> Attr {
    Attr {
        inode: 12,
        mode: 0o100644,
        uid: 1000,
        gid: 100,
        size: 42,
        atime: 1_700_000_000,
        mtime: 0,
        ctime: -1,
        crtime: 951_782_400,
        link_count: 2,
        file_type: FileType::RegFile,
        atime_nsec: 5,
        mtime_nsec: 123_456_789,
        ctime_nsec: 0,
        crtime_nsec: 0,
        inode_flags: 0x80000,
        generation: 7,
        blocks_512: 8,
    }
}

#[test]
fn stat_prints_the_inode() {
    assert_eq!(
        ok(stat("/f", Some(&attr()), "")),
        vec![
            "path:        /f",
            "inode:       12",
            "size:        42",
            "mode:        -rw-r--r--  (0o644)",
            "uid/gid:     1000/100",
            "link_count:  2",
            "inode_flags: 0x00080000",
            "generation:  7",
            "blocks_512:  8",
            "atime:       1700000000.000000005 (2023-11-14T22:13:20Z)",
            "mtime:       0.123456789 (1970-01-01T00:00:00Z)",
            "ctime:       -1.000000000 (1969-12-31T23:59:59Z)",
            "crtime:      951782400.000000000 (2000-02-29T00:00:00Z)",
            "type:        RegFile",
        ]
    );
    assert_eq!(err(stat("/f", None, "why")), "stat(\"/f\") failed: why");
}

#[test]
fn parts_prints_the_table() {
    assert_eq!(parts(&[]), vec!["no partitions found"]);
    let list = vec![
        Partition { start_lba: 2048, num_sectors: 100, kind: "0x83".to_string(), name: None },
        Partition {
            start_lba: 4096,
            num_sectors: 8,
            kind: "a longer kind".to_string(),
            name: Some("root".to_string()),
        },
    ];
    assert_eq!(
        parts(&list),
        vec![
            "  #      start (LBA)   size (sectors)       type name",
            "  1             2048              100       0x83 ",
            "  2             4096                8 a longer kind root",
        ]
    );
}

#[test]
fn audits_fail_on_anomalies() {
    let clean = FsckReport {
        inodes_visited: 10,
        directories_scanned: 2,
        entries_scanned: 9,
        anomalies_found: 0,
        was_dirty: 0,
    };
    let out = audit(Some(&clean), &[], "");
    assert_eq!(
        out.lines,
        vec![
            "inodes_visited:      10",
            "directories_scanned: 2",
            "entries_scanned:     9",
            "anomalies_found:     0",
            "was_dirty:           no",
            "",
            "clean",
        ]
    );
    assert_eq!(out.failure, None);
    let bad = FsckReport { anomalies_found: 2, was_dirty: 1, ..clean };
    let findings = vec![
        Finding { kind: "link_count".to_string(), inode: 12, detail: "2 != 1".to_string() },
        Finding { kind: "dangling_entry_that_is_long".to_string(), inode: 123456789, detail: String::new() },
    ];
    let out = audit(Some(&bad), &findings, "");
    assert_eq!(
        out.lines[4..].to_vec(),
        vec![
            "was_dirty:           yes",
            "",
            "anomalies:",
            "  ino=12       link_count         2 != 1",
            "  ino=123456789 dangling_entry_that_is_long ",
        ]
    );
    assert_eq!(out.failure, Some("audit found 2 anomaly(s)".to_string()));
    let out = audit(None, &findings, "io");
    assert!(out.lines.is_empty());
    assert_eq!(out.failure, Some("fs_ext4_fsck_run failed: io".to_string()));
    let o = audit_options(5, 6);
    assert_eq!((o.read_only, o.replay_journal, o.repair), (1, 0, 0));
    assert_eq!((o.max_dirs, o.max_entries_per_dir), (5, 6));
}

#[test]
fn findings_are_taken_over() {
    let f = finding(Some(b"dangling"), 7, Some(b"no inode")).unwrap();
    assert_eq!((f.kind.as_str(), f.inode, f.detail.as_str()), ("dangling", 7, "no inode"));
    let f = finding(Some(b"k\xFF"), 8, None).unwrap();
    assert_eq!((f.kind.as_str(), f.inode, f.detail.as_str()), ("k\u{FFFD}", 8, ""));
    assert!(finding(None, 9, Some(b"x")).is_none());
}

// ---- cat ----

#[test]
fn cat_prints_the_wanted_part() {
    let file: Vec<u8> = (0..200_000u32).map(|i| (i % 251) as u8).collect();
    let print = |offset: u64, length: Option<u64>, most: usize| {
        let mut run = ok(cat("/f", Some(file.len() as u64), offset, length, ""));
        let mut out = Vec::new();
        while let Some(want) = run.want() {
            assert!(want <= 65536);
            let from = run.pos as usize;
            let n = std::cmp::min(want as usize, most);
            match ok(run.on_read(n as i64, "")) {
                Some(k) => out.extend_from_slice(&file[from..from + k]),
                None => break,
            }
        }
        out
    };
    assert_eq!(print(0, None, 100_000), file);
    assert_eq!(print(5, Some(10), 3), file[5..15].to_vec());
    assert_eq!(print(199_990, Some(100), 7), file[199_990..].to_vec());
    assert_eq!(print(200_000, None, 7), Vec::<u8>::new());
    assert_eq!(print(300_000, Some(1), 7), Vec::<u8>::new());
    assert_eq!(print(1, Some(u64::MAX), 50_000), file[1..].to_vec());
    assert_eq!(print(0, Some(0), 7), Vec::<u8>::new());
    assert_eq!(err(cat("/f", None, 0, None, "x")), "stat(\"/f\") failed: x");
    assert_eq!(err(cat("/f", None, u64::MAX, Some(1), "x")), "stat(\"/f\") failed: x");
    let mut run = ok(cat("/f", Some(10), 0, None, ""));
    assert_eq!(run.on_read(0, ""), Ok(None));
    assert_eq!(run.on_read(-1, "bad"), Err("read_file(\"/f\") failed: bad".to_string()));
}

#[test]
fn walks_are_explained() {
    let a = attr();
    let found = WalkEnd::Found { path: "/x".to_string(), attr: a };
    assert_eq!(resolve_symlink(found, "/o", ""), Ok("/x".to_string()));
    assert_eq!(
        resolve_symlink(WalkEnd::Nul, "/o", ""),
        Err("path contains NUL byte".to_string())
    );
    let no_stat = WalkEnd::NoStat { path: "/x".to_string(), errno: 2 };
    assert_eq!(resolve_symlink(no_stat, "/o", "gone"), Err("stat(\"/x\") failed: gone".to_string()));
    let no_link = WalkEnd::NoLink { path: "/x".to_string() };
    assert_eq!(
        resolve_symlink(no_link, "/o", "gone"),
        Err("readlink(\"/x\") failed: gone".to_string())
    );
    assert_eq!(
        resolve_symlink(WalkEnd::TooDeep, "/o", ""),
        Err("symlink loop or depth > 8: \"/o\"".to_string())
    );
}

// ---- tree ----

fn listing(dir: &str) -> Option<Vec<RawEntry>> {
    match dir {
        "/" => Some(vec![
            entry(2, 2, b"."),
            entry(2, 2, b".."),
            entry(11, 2, b"d"),
            entry(12, 1, b"f"),
            entry(13, 2, b"locked"),
        ]),
        "/d" => Some(vec![entry(11, 2, b"."), entry(21, 2, b"deep"), entry(22, 7, b"l")]),
        "/d/deep" => Some(vec![entry(31, 1, b"x")]),
        _ => None,
    }
}

fn grow(max_depth: u32) -> Vec<String> {
    let (root, mut walk): (String, TreeWalk) = tree(max_depth);
    let mut out = vec![root];
    loop {
        let (step, next) = walk.next();
        walk = next;
        match step {
            TreeStep::Quiet => {}
            TreeStep::Line(s) => out.push(s),
            TreeStep::Open(dir) => {
                let l = listing(&dir);
                let (warning, next) = walk.on_listing(l.as_deref(), "denied");
                walk = next;
                if let Some(w) = warning {
                    out.push(w);
                }
            }
            TreeStep::Done => return out,
            TreeStep::Fail(e) => {
                out.push(e);
                return out;
            }
        }
    }
}

#[test]
fn the_tree_is_written_depth_first() {
    assert_eq!(
        grow(64),
        vec![
            "/",
            "          11 d d",
            "            21 d deep",
            "              31 f x",
            "            22 l l",
            "          12 f f",
            "          13 d locked",
            "  (dir_open(\"/locked\") failed: denied)",
        ]
    );
    assert_eq!(
        grow(1),
        vec!["/", "          11 d d", "          12 f f", "          13 d locked"]
    );
    assert_eq!(grow(0), vec!["/"]);
}

#[test]
fn a_name_with_a_nul_ends_the_tree() {
    let (_, walk) = tree(8);
    let (step, walk) = walk.next();
    assert!(matches!(step, TreeStep::Open(ref d) if d == "/"));
    let list = vec![entry(5, 2, b"a\0b")];
    let (_, walk) = walk.on_listing(Some(&list), "");
    let (step, walk) = walk.next();
    assert!(matches!(step, TreeStep::Line(_)));
    let (step, _) = walk.next();
    match step {
        TreeStep::Fail(e) => assert_eq!(e, "path contains NUL byte"),
        _ => panic!("the walk fails"),
    }
}

// ---- commands of one call ----

fn label(c: Result<Command, String>) -> String {
    match c {
        Ok(c) => c.label,
        Err(e) => e,
    }
}

#[test]
fn commands_name_their_calls() {
    assert_eq!(label(setxattr("/f", "user.a", b"v")), "setxattr(\"/f\", \"user.a\")");
    assert_eq!(label(removexattr("/f", "user.a")), "removexattr(\"/f\", \"user.a\")");
    assert_eq!(label(symlink("t", "/l")), "symlink(\"t\" -> \"/l\")");
    assert_eq!(label(link("/a", "/b")), "link(\"/a\" -> \"/b\")");
    assert_eq!(label(rename("/a", "/b")), "rename(\"/a\" -> \"/b\")");
    assert_eq!(label(chmod("/f", 0o755)), "chmod(\"/f\", 0o755)");
    assert_eq!(label(chown("/f", 1, 2)), "chown(\"/f\", 1, 2)");
    assert_eq!(label(setflags("/f", 0x10)), "set_flags(\"/f\", 0x00000010)");
    assert_eq!(label(mknod("/f", 0o10644, 1, 3)), "mknod(\"/f\", mode=0o10644, 1:3)");
    assert_eq!(label(mkdir("/d")), "mkdir(\"/d\")");
    assert_eq!(label(rmdir("/d")), "rmdir(\"/d\")");
    assert_eq!(label(unlink("/f")), "unlink(\"/f\")");
    assert_eq!(label(truncate("/f", 7)), "truncate(\"/f\", 7)");
    assert_eq!(
        label(fallocate("/f", 1, 2, 3)),
        "fallocate(\"/f\", offset=1, len=2, flags=0x3)"
    );
    assert_eq!(
        label(fallocate("/f", 1, 2, -1)),
        "fallocate(\"/f\", offset=1, len=2, flags=0xffffffff)"
    );
    assert_eq!(label(setxattr("/\0", "n", b"")), "path contains NUL byte");
    assert_eq!(label(setxattr("/", "n\0", b"")), "name contains NUL byte");
    assert_eq!(label(removexattr("/", "n\0")), "name contains NUL byte");
    assert_eq!(label(symlink("\0", "/l")), "target contains NUL byte");
    assert_eq!(label(symlink("t", "\0")), "linkpath contains NUL byte");
    assert_eq!(label(link("\0", "/b")), "src contains NUL byte");
    assert_eq!(label(rename("/a", "\0")), "dst contains NUL byte");
    assert_eq!(label(rename_replacing("/a", "/b")), "rename(\"/a\" -> \"/b\")");
    assert_eq!(label(rename_replacing("\0", "/b")), "src contains NUL byte");
    assert_eq!(label(rename_replacing("/a", "\0")), "dst contains NUL byte");
    for c in [
        chmod("\0", 0),
        chown("\0", 0, 0),
        setflags("\0", 0),
        mknod("\0", 0, 0, 0),
        mkdir("\0"),
        rmdir("\0"),
        unlink("\0"),
        truncate("\0", 0),
        fallocate("\0", 0, 0, 0),
    ] {
        assert_eq!(label(c), "path contains NUL byte");
    }
}

#[test]
fn commands_make_their_calls() {
    match ok(chmod("/f", 0x1_01ED)).call {
        FsCall::Chmod { path, mode } => assert_eq!((path.as_str(), mode), ("/f", 0o755)),
        _ => panic!("chmod"),
    }
    match ok(mkdir("/d")).call {
        FsCall::Mkdir { path, mode } => assert_eq!((path.as_str(), mode), ("/d", 0o755)),
        _ => panic!("mkdir"),
    }
    match ok(rename("/a", "/b")).call {
        FsCall::Rename { src, dst, flags } => {
            assert_eq!((src.as_str(), dst.as_str(), flags), ("/a", "/b", 0))
        }
        _ => panic!("rename"),
    }
    match ok(rename_replacing("/a", "/b")).call {
        FsCall::Rename { src, dst, flags } => {
            assert_eq!((src.as_str(), dst.as_str(), flags), ("/a", "/b", 1))
        }
        _ => panic!("rename"),
    }
    match ok(setxattr("/f", "user.a", &[1, 2])).call {
        FsCall::Setxattr { path, name, value } => {
            assert_eq!((path.as_str(), name.as_str(), value), ("/f", "user.a", vec![1, 2]))
        }
        _ => panic!("setxattr"),
    }
}

#[test]
fn commands_are_settled_by_their_answers() {
    assert_eq!(ok(rmdir("/d")).settle(0, ""), Ok(()));
    assert_eq!(
        ok(rmdir("/d")).settle(-1, "not empty"),
        Err("rmdir(\"/d\") failed: not empty".to_string())
    );
    // These answer with the new inode.
    assert_eq!(ok(mkdir("/d")).settle(12, ""), Ok(()));
    assert_eq!(ok(mkdir("/d")).settle(0, "full"), Err("mkdir(\"/d\") failed: full".to_string()));
    assert_eq!(ok(symlink("t", "/l")).settle(13, ""), Ok(()));
    assert_eq!(
        ok(symlink("t", "/l")).settle(0, "full"),
        Err("symlink(\"t\" -> \"/l\") failed: full".to_string())
    );
    assert_eq!(ok(mknod("/p", 0o10644, 0, 0)).settle(14, ""), Ok(()));
    assert!(ok(mknod("/p", 0o10644, 0, 0)).settle(0, "").is_err());
}

#[test]
fn files_are_made_emptied_and_written() {
    let run = ok(write_file("/f", 5));
    assert_eq!(run.on_stat(true), SaveStep::Truncate);
    assert_eq!(run.on_stat(false), SaveStep::Create);
    assert_eq!(run.on_created(9, ""), Ok(SaveStep::Truncate));
    assert_eq!(run.on_created(0, "x"), Err("create(\"/f\") failed: x".to_string()));
    assert_eq!(run.on_truncated(0, ""), Ok(SaveStep::Write));
    assert_eq!(run.on_truncated(-1, "x"), Err("truncate(\"/f\", 0) failed: x".to_string()));
    assert_eq!(run.on_written(5, ""), Ok(SaveStep::Done));
    assert_eq!(run.on_written(-1, "x"), Err("pwrite(\"/f\") failed: x".to_string()));
    assert_eq!(run.on_written(4, "x"), Err("pwrite(\"/f\"): short write (4 < 5)".to_string()));
    let huge = SaveRun { path: "/f".to_string(), len: u64::MAX };
    assert!(huge.on_written(i64::MAX, "").is_err());
    let empty = ok(write_file("/f", 0));
    assert_eq!(empty.on_truncated(0, ""), Ok(SaveStep::Done));
    assert_eq!(err(write_file("/\0", 0)), "path contains NUL byte");
    let t = ok(touch("/f"));
    assert_eq!(t.on_stat(true), SaveStep::Done);
    assert_eq!(t.on_stat(false), SaveStep::Create);
    assert_eq!(t.on_created(1, ""), Ok(SaveStep::Done));
    assert_eq!(t.on_created(0, "x"), Err("create(\"/f\") failed: x".to_string()));
    assert_eq!(err(touch("/\0")), "path contains NUL byte");
}

/// Writes a file on a disk that makes its calls, and gives its contents.
fn save(file: Option<&[u8]>, bytes: &[u8]) -> Vec<u8> {
    let run = ok(write_file("/f", bytes.len()));
    let mut file = file.map(|f| f.to_vec());
    let mut step = run.on_stat(file.is_some());
    loop {
        step = match step {
            SaveStep::Create => {
                file = Some(Vec::new());
                ok(run.on_created(12, ""))
            }
            SaveStep::Truncate => {
                file.as_mut().unwrap().clear();
                ok(run.on_truncated(0, ""))
            }
            SaveStep::Write => {
                let f = file.as_mut().unwrap();
                let tail = f.split_off(std::cmp::min(bytes.len(), f.len()));
                *f = [bytes, &tail].concat();
                ok(run.on_written(f.len() as i64, ""))
            }
            SaveStep::Done => return file.unwrap(),
        };
    }
}

#[test]
fn a_saved_file_holds_the_bytes() {
    for bytes in [&b""[..], b"a", b"longer than before"] {
        assert_eq!(save(None, bytes), bytes);
        assert_eq!(save(Some(b""), bytes), bytes);
        assert_eq!(save(Some(b"before"), bytes), bytes);
    }
}

#[test]
fn links_and_attributes_are_printed() {
    assert_eq!(readlink("/l", 0, b"target\0junk", ""), Ok("target".to_string()));
    assert_eq!(readlink("/l", 3, b"target", ""), Ok("tar".to_string()));
    assert_eq!(readlink("/l", 0, &[0xFF, 0], ""), Ok("<invalid utf-8>".to_string()));
    assert_eq!(
        readlink("/l", -1, &[], "no link"),
        Err("readlink(\"/l\") failed: no link".to_string())
    );
    assert_eq!(listxattr_size("/f", 0, ""), Ok(None));
    assert_eq!(listxattr_size("/f", 9, ""), Ok(Some(9)));
    assert_eq!(listxattr_size("/f", -1, "x"), Err("listxattr(\"/f\") failed: x".to_string()));
    assert_eq!(
        listxattr("/f", 9, b"user.a\0\xFF\0", ""),
        Ok(strings(&["user.a", "<invalid>"]))
    );
    assert_eq!(listxattr("/f", -1, b"", "x"), Err("listxattr(\"/f\") failed: x".to_string()));
    assert_eq!(getxattr_size("/f", "n", 0, ""), Ok(None));
    assert_eq!(getxattr_size("/f", "n", 2, ""), Ok(Some(2)));
    assert_eq!(
        getxattr_size("/f", "n", -1, "x"),
        Err("getxattr(\"/f\", \"n\") failed: x".to_string())
    );
    assert_eq!(getxattr("/f", "n", 2, b"abc", ""), Ok(&b"ab"[..]));
    assert_eq!(
        getxattr("/f", "n", -1, b"", "x"),
        Err("getxattr(\"/f\", \"n\") failed: x".to_string())
    );
}
