use ext4_win_driver::attr::{populate_file_info, Attr, FileInfo, FileTimes, FileType, Found};
use ext4_win_driver::attributes::attributes_set;
use ext4_win_driver::changes::{BasicStep, UnixTime, WritePlan, TIME_UNCHANGED};
use ext4_win_driver::context::{
    dir_info_found, dir_info_named, file_opened, flushed, info_found, read_done, security_found,
    settle_code, size_is_roundable, Ext4Context, Ext4FileContext,
};
use ext4_win_driver::cmd::cat::resolve_symlink;
use ext4_win_driver::directory::{goes_on, Added};
use ext4_win_driver::mount::Mount;
use ext4_win_driver::resolve::{walk_start, WalkEnd, WalkStep};
use ext4_win_driver::status::{
    capi_error_line, errno_to_status, last_err, last_message, Failure, NtStatus,
};

fn wide(s: &str) -> Vec<u16> {
    s.encode_utf16().collect()
}

fn attr(file_type: FileType, mode: u16, size: u64) -> Attr {
    Attr {
        inode: 42,
        mode,
        uid: 0,
        gid: 0,
        size,
        atime: 1,
        mtime: 2,
        ctime: 3,
        crtime: 4,
        link_count: 1,
        file_type,
        atime_nsec: 0,
        mtime_nsec: 0,
        ctime_nsec: 0,
        crtime_nsec: 0,
        inode_flags: 0,
        generation: 0,
        blocks_512: 0,
    }
}

fn found(file_type: FileType, mode: u16, size: u64) -> Found {
    Found {
        attr: attr(file_type, mode, size),
        times: FileTimes { created: 40, accessed: 10, modified: 20, changed: 30 },
    }
}

fn volume(writable: bool) -> Ext4Context {
    Ext4Context {
        mount: Mount { window: None, writable },
        label: String::new(),
        block_size: 4096,
        total_blocks: 1,
        free_blocks: 1,
    }
}

fn file(path: &str, is_dir: bool, size: u64) -> Ext4FileContext {
    let kind = if is_dir { FileType::Dir } else { FileType::RegFile };
    Ext4FileContext {
        inode: 42,
        unix_path: path.to_string(),
        is_dir,
        size,
        attr: attr(kind, 0o644, size),
    }
}

fn refusal(status: NtStatus) -> Failure {
    Failure { status, errno: None }
}

fn reported(errno: i32) -> Failure {
    Failure { status: errno_to_status(errno), errno: Some(errno) }
}

fn fails<T>(r: Result<T, Failure>, want: Failure) {
    match r {
        Ok(_) => panic!("expected a failure"),
        Err(f) => assert_eq!(f, want),
    }
}

fn ok<T>(r: Result<T, Failure>) -> T {
    match r {
        Ok(v) => v,
        Err(f) => panic!("{:?}", f),
    }
}

// ---- status ----

#[test]
fn error_numbers_become_statuses() {
    let table = [
        (2, NtStatus::ObjectNameNotFound, 0xC000_0034u32),
        (5, NtStatus::IoDeviceError, 0xC000_0185),
        (12, NtStatus::InsufficientResources, 0xC000_009A),
        (13, NtStatus::AccessDenied, 0xC000_0022),
        (17, NtStatus::ObjectNameCollision, 0xC000_0035),
        (20, NtStatus::NotADirectory, 0xC000_0103),
        (21, NtStatus::FileIsADirectory, 0xC000_00BA),
        (22, NtStatus::InvalidParameter, 0xC000_000D),
        (27, NtStatus::FileTooLarge, 0xC000_0904),
        (28, NtStatus::DiskFull, 0xC000_007F),
        (30, NtStatus::MediaWriteProtected, 0xC000_00A2),
        (45, NtStatus::NotSupported, 0xC000_00BB),
        (63, NtStatus::NameTooLong, 0xC000_0106),
        (66, NtStatus::DirectoryNotEmpty, 0xC000_0101),
        (78, NtStatus::NotImplemented, 0xC000_0002),
        (0, NtStatus::InvalidDeviceRequest, 0xC000_0010),
        (-7, NtStatus::InvalidDeviceRequest, 0xC000_0010),
        (39, NtStatus::InvalidDeviceRequest, 0xC000_0010),
    ];
    for (errno, status, code) in table {
        assert_eq!(errno_to_status(errno), status);
        assert_eq!(status.code(), code);
    }
    assert_eq!(NtStatus::BufferOverflow.code(), 0x8000_0005);
    assert_eq!(NtStatus::EndOfFile.code(), 0xC000_0011);
    assert_eq!(NtStatus::Unsuccessful.code(), 0xC000_0001);
}

#[test]
fn reported_errors_are_logged() {
    assert_eq!(
        capi_error_line(28, "no contiguous run"),
        "ext4: capi error errno=28 status=0xc000007f: no contiguous run"
    );
    assert_eq!(
        capi_error_line(-1, ""),
        "ext4: capi error errno=-1 status=0xc0000010: "
    );
    assert_eq!(settle_code(0, 5), Ok(()));
    assert_eq!(settle_code(-1, 5), Err(reported(5)));
}

// ---- metadata ----

#[test]
fn the_last_error_is_told() {
    assert_eq!(last_err(None), "<null>");
    assert_eq!(last_err(Some(b"no space")), "no space");
    assert_eq!(last_err(Some(&[b'a', 0xFF])), "a\u{FFFD}");
    assert_eq!(last_message(None), "");
    assert_eq!(last_message(Some(b"no space")), "no space");
}

#[test]
fn file_information_is_filled_in() {
    let info = populate_file_info(&found(FileType::Dir, 0o555, 4097));
    assert_eq!(
        info,
        FileInfo {
            file_attributes: 0x11,
            reparse_tag: 0,
            allocation_size: 8192,
            file_size: 4097,
            creation_time: 40,
            last_access_time: 10,
            last_write_time: 20,
            change_time: 30,
            index_number: 42,
            hard_links: 1,
            ea_size: 0,
        }
    );
    let mut f = found(FileType::RegFile, 0o644, 0);
    f.times.created = 5;
    let info = populate_file_info(&f);
    assert_eq!(info.file_attributes, 0);
    assert_eq!(info.creation_time, 20);
    assert_eq!(info.allocation_size, 0);
    assert!(size_is_roundable(&attr(FileType::RegFile, 0, 0xFFFF_FFFF_FFFF_F000)));
    assert!(!size_is_roundable(&attr(FileType::RegFile, 0, 0xFFFF_FFFF_FFFF_F001)));
}

// ---- looking at files ----

#[test]
fn security_and_open_take_windows_names() {
    let v = volume(false);
    assert_eq!(v.open(&wide("\\a\\b")), Ok("/a/b".to_string()));
    assert_eq!(v.get_security_by_name(&[]), Ok("/".to_string()));
    assert_eq!(v.open(&[0xD800]), Err(refusal(NtStatus::ObjectNameNotFound)));
    let s = ok(security_found(Ok(found(FileType::Dir, 0o444, 0))));
    assert!(!s.reparse);
    assert_eq!(s.sz_security_descriptor, 0);
    assert_eq!(s.attributes, 0x11);
    fails(security_found(Err(reported(13))), reported(13));
    let (f, info) = ok(file_opened(Ok(("/real".to_string(), found(FileType::Dir, 0o755, 9)))));
    assert_eq!(f.unix_path, "/real");
    assert!(f.is_dir);
    assert_eq!((f.inode, f.size, f.attr.size), (42, 9, 9));
    assert_eq!(info.file_size, 9);
    fails(file_opened(Err(reported(2))), reported(2));
}

#[test]
fn file_info_tells_of_attributes_and_refreshes() {
    let v = volume(false);
    let mut f = file("/x", false, 1);
    assert_eq!(v.get_file_info(&f), "/x");
    let p = ok(info_found(&f, Ok(found(FileType::RegFile, 0o644, 77))));
    assert_eq!(p.probe, Some("/x".to_string()));
    let info = p.on_list_size(&mut f, Some(13));
    assert_eq!(info.ea_size, 13);
    assert_eq!((f.size, f.attr.size), (77, 77));
    let p = ok(info_found(&f, Ok(found(FileType::RegFile, 0o644, 5))));
    assert_eq!(p.on_list_size(&mut f, Some(-1)).ea_size, 0);
    let odd = file("/a\0", false, 1);
    assert_eq!(ok(info_found(&odd, Ok(found(FileType::RegFile, 0o644, 5)))).probe, None);
    fails(info_found(&f, Err(reported(5))), reported(5));
}

#[test]
fn flush_refreshes_metadata_only() {
    let v = volume(true);
    let mut f = file("/x", false, 1);
    assert_eq!(v.flush(None), None);
    assert_eq!(v.flush(Some(&f)), Some("/x".to_string()));
    assert_eq!(flushed(&mut f, Err(reported(5))), None);
    let info = flushed(&mut f, Ok(found(FileType::RegFile, 0o644, 8))).unwrap();
    assert_eq!(info.file_size, 8);
    assert_eq!((f.size, f.attr.size), (1, 8));
}

#[test]
fn entries_are_found_by_name() {
    let v = volume(false);
    let root = file("/", true, 0);
    let sub = file("/sub", true, 0);
    assert_eq!(v.get_dir_info_by_name(&root, &wide("lost+found")), "/lost+found");
    assert_eq!(v.get_dir_info_by_name(&sub, &wide("x")), "/sub/x");
    assert_eq!(v.get_dir_info_by_name(&sub, &[0xD800]), "/sub/\u{FFFD}");
    let (info, name) = ok(dir_info_found(&wide("lost+found"), Ok(found(FileType::Dir, 0o755, 1))));
    assert_eq!(name, wide("lost+found"));
    assert_eq!(info.file_attributes, 0x10);
    let (_, name) = ok(dir_info_found(&[0xD800], Ok(found(FileType::Dir, 0o755, 1))));
    assert_eq!(name, vec![0xFFFD]);
    assert_eq!(dir_info_named(true), Ok(()));
    assert_eq!(dir_info_named(false), Err(refusal(NtStatus::ObjectNameNotFound)));
}

#[test]
fn reads_are_checked_first() {
    let v = volume(false);
    fails(v.read(&file("/d", true, 10), 0), refusal(NtStatus::InvalidDeviceRequest));
    fails(v.read(&file("/f", false, 10), 10), refusal(NtStatus::EndOfFile));
    fails(v.read(&file("/f\0", false, 10), 0), refusal(NtStatus::ObjectNameNotFound));
    let c = ok(v.read(&file("/f", false, 10), 9));
    assert_eq!((c.path.as_str(), c.offset), ("/f", 9));
    assert_eq!(read_done(5, 0), Ok(5));
    assert_eq!(read_done(-1, 5), Err(reported(5)));
}

// ---- writing ----

fn plan(len: usize, offset: u64, to_eof: bool, constrained: bool, size: u64) -> Option<(u64, u64)> {
    let v = volume(true);
    let w = ok(v.write(&file("/f", false, 3), len, offset, to_eof, constrained));
    match ok(w.on_lookup(Ok(found(FileType::RegFile, 0o644, size)))) {
        WritePlan::Nothing(info) => {
            assert_eq!(info.file_size, size);
            None
        }
        WritePlan::Call(c) => {
            assert_eq!(c.path, "/f");
            Some((c.offset, c.len))
        }
    }
}

#[test]
fn writes_are_placed_and_cut() {
    assert_eq!(plan(10, 5, false, false, 100), Some((5, 10)));
    assert_eq!(plan(10, 500, false, false, 100), Some((500, 10)));
    assert_eq!(plan(10, 5, true, false, 100), Some((100, 10)));
    assert_eq!(plan(10, 95, false, true, 100), Some((95, 5)));
    assert_eq!(plan(10, 90, false, true, 100), Some((90, 10)));
    assert_eq!(plan(10, 100, false, true, 100), None);
    assert_eq!(plan(10, 5, true, true, 100), None);
    assert_eq!(plan(0, 5, false, false, 100), None);
}

#[test]
fn writes_are_settled() {
    let v = volume(true);
    let mut f = file("/f", false, 3);
    let w = ok(v.write(&f, 4, 1, false, false));
    let call = match ok(w.on_lookup(Ok(found(FileType::RegFile, 0o644, 3)))) {
        WritePlan::Call(c) => c,
        WritePlan::Nothing(_) => panic!("bytes are accepted"),
    };
    let refresh = ok(call.on_written(5, 0));
    let w = ok(refresh.on_lookup(&mut f, Ok(found(FileType::RegFile, 0o644, 5))));
    assert_eq!((w.count, w.info.file_size), (4, 5));
    assert_eq!((f.size, f.attr.size), (5, 5));
    let w = ok(v.write(&f, 4, 1, false, false));
    fails(w.on_lookup(Err(reported(2))), reported(2));
    let w = ok(v.write(&f, 4, 1, false, false));
    let call = match ok(w.on_lookup(Ok(found(FileType::RegFile, 0o644, 3)))) {
        WritePlan::Call(c) => c,
        WritePlan::Nothing(_) => panic!("bytes are accepted"),
    };
    fails(call.on_written(-1, 28), reported(28));
    fails(v.write(&file("/d", true, 0), 1, 0, false, false), refusal(NtStatus::FileIsADirectory));
    fails(
        v.write(&file("/d\0", false, 0), 1, 0, false, false),
        refusal(NtStatus::ObjectNameNotFound),
    );
}

#[test]
fn sizes_are_changed() {
    let v = volume(true);
    let mut f = file("/f", false, 3);
    let c = ok(v.set_file_size(&f, 99));
    assert_eq!((c.path.as_str(), c.size), ("/f", 99));
    let r = ok(c.on_code(0, 0));
    assert_eq!(r.path, "/f");
    let info = ok(r.on_lookup(&mut f, Ok(found(FileType::RegFile, 0o644, 99))));
    assert_eq!(info.file_size, 99);
    assert_eq!(f.size, 99);
    let c = ok(v.overwrite(&f));
    assert_eq!(c.size, 0);
    fails(c.on_code(-1, 27), reported(27));
    let r = ok(ok(v.overwrite(&f)).on_code(0, 0));
    fails(r.on_lookup(&mut f, Err(reported(5))), reported(5));
    assert_eq!(f.size, 99);
}

// ---- attributes and times ----

#[test]
fn times_come_before_the_mode() {
    let v = volume(true);
    let mut f = file("/f", false, 3);
    let t = UnixTime { secs: -5, nsec: 7 };
    let step = ok(v.set_basic_info(&f, 0x1, Some(t), None));
    let times = match step {
        BasicStep::Times(s) => s,
        _ => panic!("the times are set first"),
    };
    assert_eq!(times.atime, t);
    assert_eq!(times.mtime, UnixTime { secs: TIME_UNCHANGED, nsec: 0 });
    let look = match ok(times.on_code(0, 0)) {
        BasicStep::Look(l) => l,
        _ => panic!("the mode is looked at"),
    };
    let mode = match ok(look.on_lookup(Ok(found(FileType::RegFile, 0o4644, 3)))) {
        BasicStep::Mode(m) => m,
        _ => panic!("the mode changes"),
    };
    assert_eq!(mode.mode, 0o4444);
    let r = ok(mode.on_code(0, 0));
    ok(r.on_lookup(&mut f, Ok(found(FileType::RegFile, 0o4444, 9))));
    assert_eq!((f.size, f.attr.mode), (3, 0o4444));
}

#[test]
fn an_unchanged_box_sets_no_mode() {
    let v = volume(true);
    let f = file("/f", false, 3);
    assert!(matches!(ok(v.set_basic_info(&f, 0, None, None)), BasicStep::Refresh(_)));
    assert!(matches!(ok(v.set_basic_info(&f, 0xFFFF_FFFF, None, None)), BasicStep::Refresh(_)));
    let look = |attributes: u32, mode: u16| match ok(v.set_basic_info(&f, attributes, None, None)) {
        BasicStep::Look(l) => ok(l.on_lookup(Ok(found(FileType::RegFile, mode, 3)))),
        _ => panic!("the mode is looked at"),
    };
    assert!(matches!(look(0x1, 0o444), BasicStep::Refresh(_)));
    assert!(matches!(look(0x20, 0o644), BasicStep::Refresh(_)));
    match look(0x20, 0o444) {
        BasicStep::Mode(m) => assert_eq!(m.mode, 0o666),
        _ => panic!("the mode changes"),
    }
    match look(0x1, 0o644) {
        BasicStep::Mode(m) => fails(m.on_code(-1, 13), reported(13)),
        _ => panic!("the mode changes"),
    }
}

// ---- creating ----

#[test]
fn files_are_created_with_their_attributes() {
    let v = volume(true);
    let mut chain = vec![0u8; 32];
    let end = ext4_win_driver::ea::put_ea(&mut chain, 0, b"user.a", b"1", false).unwrap();
    let end = ext4_win_driver::ea::put_ea(&mut chain, end, b"user.b", b"", true).unwrap();
    let c = ok(v.create(&wide("\\new"), 0, 0, Some(&chain[..end]), false));
    assert_eq!((c.path.as_str(), c.mode, c.is_dir), ("/new", 0o644, false));
    let mut made = ok(c.on_made(12, 0));
    let mut calls = Vec::new();
    while let Some(e) = made.run.pending() {
        calls.push((e.name.clone(), e.value.clone(), e.removes()));
        ok(made.run.on_code(0, 0));
    }
    assert_eq!(
        calls,
        vec![
            (b"user.a".to_vec(), b"1".to_vec(), false),
            (b"user.b".to_vec(), vec![], true)
        ]
    );
    let (f, info) = ok(made.on_lookup(Ok(found(FileType::RegFile, 0o644, 0))));
    assert_eq!((f.unix_path.as_str(), f.is_dir, f.inode), ("/new", false, 42));
    assert_eq!(info.index_number, 42);
    let d = ok(v.create(&wide("\\dir"), 0x1, 0x1, Some(&chain[..end]), true));
    assert_eq!((d.mode, d.is_dir, d.edits.len()), (0o555, true, 0));
    fails(d.on_made(0, 17), reported(17));
    let r = ok(v.create(&wide("\\f"), 0x40, 0x1, None, false));
    assert_eq!((r.mode, r.is_dir), (0o444, false));
    fails(v.create(&[0xDC00], 0, 0, None, false), refusal(NtStatus::ObjectNameNotFound));
    fails(v.create(&wide("\\a\0b"), 0, 0, None, false), refusal(NtStatus::ObjectNameNotFound));
}

#[test]
fn the_first_failing_edit_ends_the_run() {
    let v = volume(true);
    let mut f = file("/f", false, 0);
    let mut chain = vec![0u8; 32];
    let end = ext4_win_driver::ea::put_ea(&mut chain, 0, b"user.a", b"1", true).unwrap();
    let mut run = ok(v.set_extended_attributes(&f, &chain[..end]));
    assert_eq!(run.path, "/f");
    assert_eq!(run.on_code(-1, 28), Err(reported(28)));
    assert!(run.pending().is_some());
    assert_eq!(run.on_code(0, 0), Ok(()));
    assert!(run.pending().is_none());
    fails(attributes_set(&mut f, Err(reported(2))), refusal(NtStatus::Unsuccessful));
    let info = ok(attributes_set(&mut f, Ok(found(FileType::RegFile, 0o600, 4))));
    assert_eq!(info.file_size, 4);
    assert_eq!((f.size, f.attr.mode), (0, 0o600));
    assert_eq!(v.get_extended_attributes(&f), Ok("/f".to_string()));
    fails(
        v.get_extended_attributes(&file("/\0", false, 0)),
        refusal(NtStatus::ObjectNameNotFound),
    );
}

// ---- renaming and deleting ----

#[test]
fn renames_move_the_open_file() {
    let v = volume(true);
    let mut f = file("/a", false, 0);
    let c = ok(v.rename(&wide("\\a"), &wide("\\b\\c"), true));
    assert_eq!((c.src.as_str(), c.dst.as_str(), c.flags), ("/a", "/b/c", 1));
    assert_eq!(c.on_code(&mut f, -1, 17), Err(reported(17)));
    assert_eq!(f.unix_path, "/a");
    let c = ok(v.rename(&wide("\\a"), &wide("\\b\\c"), false));
    assert_eq!(c.flags, 0);
    assert_eq!(c.on_code(&mut f, 0, 0), Ok(()));
    assert_eq!(f.unix_path, "/b/c");
    fails(v.rename(&[0xD800], &wide("b"), false), refusal(NtStatus::ObjectNameNotFound));
    fails(v.rename(&wide("a"), &wide("b\0"), false), refusal(NtStatus::ObjectNameNotFound));
}

#[test]
fn cleanup_removes_what_was_marked() {
    let v = volume(true);
    assert_eq!(v.set_delete(), Ok(()));
    assert_eq!(v.set_security(), Ok(()));
    assert!(v.cleanup(&file("/f", false, 0), 0).is_none());
    let c = v.cleanup(&file("/f", false, 0), 0x1).unwrap();
    assert_eq!((c.path.as_str(), c.is_dir), ("/f", false));
    let c = v.cleanup(&file("/d", true, 0), 0x3).unwrap();
    assert!(c.is_dir);
    assert!(v.cleanup(&file("/f\0", false, 0), 0x1).is_none());
}

#[test]
fn a_read_only_volume_refuses_every_change() {
    let v = volume(false);
    let f = file("/f", false, 0);
    let refused = refusal(NtStatus::MediaWriteProtected);
    fails(v.create(&wide("\\n"), 0, 0, None, false), refused);
    fails(v.write(&f, 1, 0, false, false), refused);
    fails(v.set_file_size(&f, 1), refused);
    fails(v.overwrite(&f), refused);
    fails(v.set_basic_info(&f, 1, None, None), refused);
    fails(v.rename(&wide("\\a"), &wide("\\b"), true), refused);
    fails(v.set_delete(), refused);
    fails(v.set_extended_attributes(&f, &[]), refused);
    assert!(v.cleanup(&f, 0x1).is_none());
}

// ---- listing ----

#[test]
fn a_listing_resumes_behind_its_marker() {
    let v = volume(false);
    let d = file("/sub", true, 0);
    let names: [&[u8]; 6] = [b".", b"..", b"a", &[0xFF], b"b", b"c"];
    let list = |marker: Option<&str>| {
        let units = marker.map(wide);
        let mut l = ok(v.read_directory(&d, units.as_deref()));
        let mut out = Vec::new();
        for n in names {
            if let Some(c) = l.on_entry(n) {
                out.push((c.name, c.path));
            }
        }
        out
    };
    let all = list(None);
    let want = [
        (".", "/sub"),
        ("..", "/"),
        ("a", "/sub/a"),
        ("b", "/sub/b"),
        ("c", "/sub/c"),
    ];
    let want: Vec<(String, String)> =
        want.iter().map(|(a, b)| (a.to_string(), b.to_string())).collect();
    assert_eq!(all, want);
    for k in 0..all.len() {
        assert_eq!(list(Some(&all[k].0)), all[k + 1..].to_vec());
    }
    assert_eq!(list(Some("absent")), Vec::new());
}

/// A page from behind `marker`: the names put into a buffer for `room` entries.
fn page(names: &[&[u8]], marker: Option<&str>, room: usize) -> Vec<String> {
    let units = marker.map(wide);
    let mut l = ok(volume(false).read_directory(&file("/sub", true, 0), units.as_deref()));
    let mut out = Vec::new();
    for n in names {
        let Some(c) = l.on_entry(n) else { continue };
        let gone = c.path == "/sub/gone";
        let reply = if gone { Err(reported(5)) } else { Ok(found(FileType::RegFile, 0o644, 1)) };
        let Some(e) = c.on_lookup(reply) else { continue };
        let added = if e.name == "refused" {
            Added::NameRefused
        } else if out.len() == room {
            Added::Full
        } else {
            out.push(e.name);
            Added::Written
        };
        if !goes_on(added) {
            break;
        }
    }
    out
}

#[test]
fn pages_joined_together_hold_the_directory() {
    let names: [&[u8]; 9] =
        [b".", b"..", b"a", &[0xFF], b"gone", b"b", b"refused", "\u{1F600}".as_bytes(), b"z"];
    for room in 1..8 {
        let mut joined: Vec<String> = Vec::new();
        loop {
            let next = page(&names, joined.last().map(|s| s.as_str()), room);
            if next.is_empty() {
                break;
            }
            assert!(next.len() <= room);
            joined.extend(next);
        }
        assert_eq!(joined, vec![".", "..", "a", "b", "\u{1F600}", "z"]);
    }
}

#[test]
fn listings_leave_out_what_cannot_be_found() {
    let v = volume(false);
    fails(v.read_directory(&file("/f", false, 0), None), refusal(NtStatus::NotADirectory));
    fails(v.read_directory(&file("/d\0", true, 0), None), refusal(NtStatus::ObjectNameNotFound));
    let mut l = ok(v.read_directory(&file("/", true, 0), None));
    let c = l.on_entry(b"x").unwrap();
    assert_eq!(c.path, "/x");
    assert!(c.on_lookup(Err(reported(5))).is_none());
    let e = l.on_entry(b"x").unwrap().on_lookup(Ok(found(FileType::RegFile, 0o644, 6))).unwrap();
    assert_eq!((e.name.as_str(), e.info.file_size), ("x", 6));
    assert!(goes_on(Added::Written));
    assert!(goes_on(Added::NameRefused));
    assert!(!goes_on(Added::Full));
}

// ---- following links ----

struct Disk;

impl Disk {
    fn stat(&self, path: &str) -> Result<Attr, i32> {
        match path {
            "/file" | "/dir/file" => Ok(attr(FileType::RegFile, 0o644, 1)),
            "/link" | "/dir/up" | "/loop" | "/odd" | "/broken" => {
                Ok(attr(FileType::Symlink, 0o777, 1))
            }
            "/dir/" => Ok(attr(FileType::Dir, 0o755, 1)),
            _ => Err(2),
        }
    }

    fn target(&self, path: &str, buf: &mut [u8]) -> i32 {
        let t: &[u8] = match path {
            "/link" => b"dir/up",
            "/dir/up" => b"/dir/file",
            "/loop" => b"loop",
            "/odd" => &[b'd', 0xFF],
            _ => return -1,
        };
        buf[..t.len()].copy_from_slice(t);
        buf[t.len()] = 0;
        0
    }

    fn walk(&self, path: &str) -> WalkEnd {
        let mut step = walk_start(path);
        loop {
            step = match step {
                WalkStep::Stat(w) => {
                    let r = self.stat(&w.path);
                    w.on_stat(r)
                }
                WalkStep::Link(w) => {
                    let mut buf = vec![0u8; 64];
                    let n = self.target(&w.path, &mut buf);
                    w.on_link(n, &buf)
                }
                WalkStep::End(e) => return e,
            };
        }
    }
}

fn settled(path: &str) -> Result<String, Failure> {
    Disk.walk(path).settle().map(|(p, _)| p)
}

#[test]
fn walks_follow_links() {
    assert_eq!(settled("/file"), Ok("/file".to_string()));
    assert_eq!(settled("/link"), Ok("/dir/file".to_string()));
    assert_eq!(settled("/nowhere"), Err(reported(2)));
    assert_eq!(settled("/loop"), Err(refusal(NtStatus::ObjectNameNotFound)));
    assert_eq!(settled("/broken"), Err(refusal(NtStatus::ObjectNameNotFound)));
    assert_eq!(settled("/a\0b"), Err(refusal(NtStatus::ObjectNameNotFound)));
    // A target that is not UTF-8 reads as empty: the link's own directory.
    assert_eq!(settled("/odd"), Err(reported(2)));
    assert!(matches!(Disk.walk("/loop"), WalkEnd::TooDeep));
    assert!(matches!(Disk.walk("/a\0b"), WalkEnd::Nul));
    assert!(matches!(Disk.walk("/broken"), WalkEnd::NoLink { .. }));
}

/// Walks a chain of `n` links `/l0`, `/l1` and so on, the last of which leads
/// to `/file`.
fn walk_chain(n: usize) -> WalkEnd {
    let mut step = walk_start(if n == 0 { "/file" } else { "/l0" });
    loop {
        step = match step {
            WalkStep::Stat(w) => {
                let kind = if w.path == "/file" { FileType::RegFile } else { FileType::Symlink };
                w.on_stat(Ok(attr(kind, 0o644, 5)))
            }
            WalkStep::Link(w) => {
                let i: usize = w.path[2..].parse().unwrap();
                let target =
                    if i + 1 == n { "/file\0".to_string() } else { format!("/l{}\0", i + 1) };
                w.on_link(0, target.as_bytes())
            }
            WalkStep::End(e) => return e,
        };
    }
}

#[test]
fn eight_links_are_followed_and_nine_are_not() {
    for n in 0..=8 {
        let (path, found) = ok(walk_chain(n).settle());
        assert_eq!((path.as_str(), found.size), ("/file", 5));
        assert_eq!(resolve_symlink(walk_chain(n), "/l0", ""), Ok("/file".to_string()));
    }
    for n in [9, 10, 100] {
        assert!(matches!(walk_chain(n), WalkEnd::TooDeep));
        fails(walk_chain(n).settle(), refusal(NtStatus::ObjectNameNotFound));
        assert_eq!(
            resolve_symlink(walk_chain(n), "/l0", ""),
            Err("symlink loop or depth > 8: \"/l0\"".to_string())
        );
    }
}

#[test]
fn a_counted_target_is_taken_by_its_count() {
    let step = walk_start("/link");
    let link = match step {
        WalkStep::Stat(w) => match w.on_stat(Ok(attr(FileType::Symlink, 0o777, 1))) {
            WalkStep::Link(l) => l,
            _ => panic!("a link is read"),
        },
        _ => panic!("a path is looked at"),
    };
    match link.on_link(2, b"abc") {
        WalkStep::Stat(w) => assert_eq!(w.path, "/ab"),
        _ => panic!("the target is looked at"),
    }
}
