use ext4_win_driver::context::{Ext4Context, VolumeFacts};
use ext4_win_driver::host::{filesystem_name, mounted_banner, volume_setup};
use ext4_win_driver::device::BlockSource;
use ext4_win_driver::mount::{callback_code, Mount, Opening, Partition, SliceCtx, Window};
use ext4_win_driver::status::{Failure, NtStatus};

#[test]
fn ro_mount_is_not_writable() {
    let mount = Mount { window: None, writable: false };
    assert!(!mount.writable, "RO Mount should report writable = false");
}

#[test]
fn rw_mount_is_writable() {
    let mount = Mount { window: None, writable: true };
    assert!(mount.writable, "RW Mount should report writable = true");
}

#[test]
fn writable_check_branch() {
    let ro = Mount { window: None, writable: false };
    let rw = Mount { window: None, writable: true };
    let ro_blocks = !ro.writable;
    let rw_passes = rw.writable;
    assert!(ro_blocks, "ensure_writable() must block on RO mount");
    assert!(rw_passes, "ensure_writable() must pass on RW mount");
    let ro = context(ro);
    let rw = context(rw);
    assert_eq!(
        ro.ensure_writable(),
        Err(Failure { status: NtStatus::MediaWriteProtected, errno: None })
    );
    assert_eq!(rw.ensure_writable(), Ok(()));
}

fn facts(name: &[u8]) -> VolumeFacts {
    VolumeFacts {
        volume_name: name.to_vec(),
        uuid: [0; 16],
        last_mounted: Vec::new(),
        block_size: 4096,
        total_blocks: 1000,
        free_blocks: 250,
        total_inodes: 10,
        free_inodes: 5,
        inode_size: 256,
        rev_level: 1,
        minor_rev_level: 0,
        feature_compat: 0,
        feature_incompat: 0,
        feature_ro_compat: 0,
        state: 1,
        mounted_dirty: 0,
    }
}

fn context(mount: Mount) -> Ext4Context {
    match Ext4Context::new(mount, Some(&facts(b"data\0junk")), "") {
        Ok(c) => c,
        Err(e) => panic!("{}", e),
    }
}

#[test]
fn volume_info_has_the_label_or_the_file_system() {
    let c = context(Mount { window: None, writable: false });
    let v = c.get_volume_info();
    assert_eq!(v.total_size, 4_096_000);
    assert_eq!(v.free_size, 1_024_000);
    assert_eq!(v.label, "data");
    let plain = Ext4Context::new(Mount { window: None, writable: true }, Some(&facts(b"\0")), "");
    match plain {
        Ok(c) => assert_eq!(c.get_volume_info().label, "ext4"),
        Err(e) => panic!("{}", e),
    }
    // Bytes that are not UTF-8 are replaced.
    match Ext4Context::new(Mount { window: None, writable: true }, Some(&facts(&[0x61, 0xFF])), "") {
        Ok(c) => assert_eq!(c.label, "a\u{FFFD}"),
        Err(e) => panic!("{}", e),
    }
    match Ext4Context::new(Mount { window: None, writable: true }, None, "bad superblock") {
        Ok(_) => panic!("no facts, no volume"),
        Err(e) => assert_eq!(e, "fs_ext4_get_volume_info failed: bad superblock"),
    }
}

#[test]
fn part_zero_means_the_whole_device() {
    assert_eq!(Mount::open(None), Opening::Direct { writable: false });
    assert_eq!(Mount::open(Some(0)), Opening::Direct { writable: false });
    assert_eq!(Mount::open(Some(2)), Opening::Partition { n: 2, writable: false });
    assert_eq!(Mount::open_rw(None, true), Opening::Direct { writable: true });
    assert_eq!(Mount::open_rw(Some(0), true), Opening::Direct { writable: true });
    assert_eq!(Mount::open_rw(Some(3), true), Opening::Partition { n: 3, writable: true });
    assert_eq!(Mount::open_rw(Some(3), false), Opening::Partition { n: 3, writable: false });
}

fn parts() -> Vec<Partition> {
    vec![
        Partition { start_lba: 2048, num_sectors: 100, kind: "0x83".to_string(), name: None },
        Partition {
            start_lba: 4096,
            num_sectors: 8,
            kind: "Linux".to_string(),
            name: Some("root".to_string()),
        },
    ]
}

fn text<T>(r: Result<T, String>) -> String {
    match r {
        Ok(_) => "ok".to_string(),
        Err(e) => e,
    }
}

#[test]
fn whole_devices_are_checked_and_settled() {
    assert_eq!(
        text(Mount::open_direct(None, "\"\\xFF\"")),
        "image path is not valid UTF-8: \"\\xFF\""
    );
    assert_eq!(text(Mount::open_direct(Some("a\0b"), "x")), "image path contains NUL byte");
    assert_eq!(text(Mount::open_direct_rw(Some("a\0b"), "x")), "image path contains NUL byte");
    let open = || match Mount::open_direct(Some("disk.img"), "\"disk.img\"") {
        Ok(d) => d,
        Err(e) => panic!("{}", e),
    };
    match open().on_mounted(true, None, "") {
        Ok(m) => assert!(m.window.is_none() && !m.writable),
        Err(e) => panic!("{}", e),
    }
    assert_eq!(
        text(open().on_mounted(false, Some(&parts()), "bad magic")),
        "mount \"disk.img\" failed: bad magic\nhint: this looks like a partitioned device. Try --part N:\n  1: 100 sectors @ LBA 2048 (0x83)\n  2: 8 sectors @ LBA 4096 (Linux)\n"
    );
    assert_eq!(
        text(open().on_mounted(false, Some(&[]), "bad magic")),
        "mount \"disk.img\" failed: bad magic"
    );
    assert_eq!(
        text(open().on_mounted(false, None, "bad magic")),
        "mount \"disk.img\" failed: bad magic"
    );
    let rw = match Mount::open_direct_rw(Some("disk.img"), "\"disk.img\"") {
        Ok(d) => d,
        Err(e) => panic!("{}", e),
    };
    assert!(rw.writable);
    assert_eq!(
        text(rw.on_mounted(false, Some(&parts()), "locked")),
        "mount_rw \"disk.img\" failed: locked"
    );
}

#[test]
fn partitions_are_picked_and_confined() {
    let list = parts();
    let size = (2048 + 100) * 512;
    let p = match Mount::open_partition("\"d\"", 1, &list, size) {
        Ok(p) => p,
        Err(e) => panic!("{}", e),
    };
    assert_eq!(p.window.base(), 2048 * 512);
    assert_eq!(p.window.len(), 100 * 512);
    assert_eq!(p.window.place(0, 51200), Some(1048576));
    assert_eq!(p.window.place(51199, 1), Some(1048576 + 51199));
    assert_eq!(p.window.place(51200, 1), None);
    assert_eq!(p.window.place(u64::MAX, 2), None);
    assert_eq!(
        text(p.on_mounted(false, "dirty")),
        "mount partition 1 (0x83) failed: dirty"
    );
    assert_eq!(
        text(Mount::open_partition("\"d\"", 2, &list, size)),
        "partition 2 extends past device end: 2101248 > 1099776 bytes"
    );
    assert_eq!(
        text(Mount::open_partition("\"d\"", 3, &list, size)),
        "--part 3 out of range (1..=2)"
    );
    assert_eq!(
        text(Mount::open_partition("\"d\"", 0, &list, size)),
        "--part 0 out of range (1..=2)"
    );
    assert_eq!(text(Mount::open_partition("\"d\"", 1, &[], size)), "no partitions found in \"d\"");
    let huge = vec![Partition {
        start_lba: u64::MAX / 512,
        num_sectors: u64::MAX / 512,
        kind: "k".to_string(),
        name: None,
    }];
    assert_eq!(
        text(Mount::open_partition_rw("d", 1, &huge, 1)),
        "partition geometry overflows u64"
    );
    let rw = match Mount::open_partition_rw("\"d\"", 1, &list, size) {
        Ok(p) => p,
        Err(e) => panic!("{}", e),
    };
    match rw.on_mounted(true, "") {
        Ok(m) => assert!(m.writable && m.window.is_some()),
        Err(e) => panic!("{}", e),
    }
}

#[test]
fn windows_that_do_not_overlap_stay_apart() {
    let a = Window::new(0, 100).unwrap();
    let b = Window::new(100, 100).unwrap();
    for offset in 0..110u64 {
        if let Some(at) = a.place(offset, 1) {
            assert!(at < 100);
        }
        if let Some(at) = b.place(offset, 1) {
            assert!((100..200).contains(&at));
        }
    }
    assert!(Window::new(u64::MAX, 1).is_none());
    assert!(Window::new(u64::MAX, 0).is_some());
    assert_eq!(callback_code(true), 0);
    assert_eq!(callback_code(false), -1);
}

#[test]
fn a_volume_is_presented_as_it_was_opened() {
    let ro = Mount { window: None, writable: false };
    let rw = Mount { window: None, writable: true };
    assert!(volume_setup(&ro).read_only_volume);
    assert!(!volume_setup(&rw).read_only_volume);
    assert_eq!(volume_setup(&rw).max_component_length, 255);
    assert_eq!(volume_setup(&rw).sector_size, 4096);
    assert_eq!(filesystem_name(), "ext4");
    assert_eq!(mounted_banner("X:", &ro), "ext4 mounted at X: (RO). Ctrl-C to unmount.");
    assert_eq!(mounted_banner("X:", &rw), "ext4 mounted at X: (RW). Ctrl-C to unmount.");
}

struct Memory {
    bytes: Vec<u8>,
}

impl BlockSource for Memory {
    fn read_at(&self, offset: u64, buf: &mut [u8]) -> bool {
        let from = offset as usize;
        if from + buf.len() > self.bytes.len() {
            return false;
        }
        let to = from + buf.len();
        buf.copy_from_slice(&self.bytes[from..to]);
        true
    }

    fn size(&self) -> u64 {
        self.bytes.len() as u64
    }
}

#[test]
fn a_slice_reads_only_its_window() {
    let src = Memory { bytes: (0..100).collect() };
    let slice = SliceCtx { src, window: Window::new(10, 20).unwrap() };
    assert_eq!(slice.size(), 20);
    let mut buf = [0u8; 4];
    assert!(slice.read_at(0, &mut buf));
    assert_eq!(buf, [10, 11, 12, 13]);
    assert!(slice.read_at(16, &mut buf));
    assert_eq!(buf, [26, 27, 28, 29]);
    assert!(!slice.read_at(17, &mut buf));
    assert!(!slice.read_at(u64::MAX, &mut buf));
    assert_eq!(buf, [26, 27, 28, 29]);
}
