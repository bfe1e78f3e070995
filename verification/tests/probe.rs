use ext4_win_driver::device::{known_size, BlockSource, FillRun, ShortRead};
use ext4_win_driver::probe::{
    device_interface_name, is_ext4, pick_drive_letter, probe_at_offset, probe_path, probe_read,
    EXT4_MAGIC_OFFSET, SB_PROBE_LEN,
};

#[test]
fn is_ext4_matches_magic_at_offset() {
    let mut buf = vec![0u8; SB_PROBE_LEN];
    buf[EXT4_MAGIC_OFFSET] = 0x53;
    buf[EXT4_MAGIC_OFFSET + 1] = 0xEF;
    assert!(is_ext4(&buf));
}

#[test]
fn is_ext4_rejects_wrong_magic() {
    let mut buf = vec![0u8; SB_PROBE_LEN];
    buf[EXT4_MAGIC_OFFSET] = 0x42;
    buf[EXT4_MAGIC_OFFSET + 1] = 0x42;
    assert!(!is_ext4(&buf));
}

#[test]
fn is_ext4_rejects_short_buffer() {
    let buf = vec![0x53u8; 16];
    assert!(!is_ext4(&buf));
}

#[test]
fn is_ext4_needs_both_bytes_of_the_magic() {
    assert_eq!(SB_PROBE_LEN, 1100);
    assert_eq!(EXT4_MAGIC_OFFSET, 1080);
    let mut buf = vec![0u8; 1082];
    buf[1080] = 0x53;
    assert!(!is_ext4(&buf));
    buf[1081] = 0xEF;
    assert!(is_ext4(&buf));
    buf.truncate(1081);
    assert!(!is_ext4(&buf));
}

#[test]
fn an_unreadable_volume_is_not_ext4() {
    assert!(!probe_read(None));
    let mut buf = vec![0u8; 4096];
    buf[1080] = 0x53;
    buf[1081] = 0xEF;
    assert!(probe_read(Some(&buf)));
}

struct Memory {
    bytes: Vec<u8>,
}

impl BlockSource for Memory {
    fn read_at(&self, offset: u64, buf: &mut [u8]) -> bool {
        let from = offset as usize;
        if from + buf.len() > self.bytes.len() {
            return false;
        }
        let to = from + buf.len();
        buf.copy_from_slice(&self.bytes[from..to]);
        true
    }

    fn size(&self) -> u64 {
        self.bytes.len() as u64
    }
}

#[test]
fn probes_read_at_their_offset() {
    let mut bytes = vec![0u8; 16384];
    bytes[8192 + 1080] = 0x53;
    bytes[8192 + 1081] = 0xEF;
    let disk = Memory { bytes };
    assert_eq!(disk.size(), 16384);
    assert!(!probe_path(&disk));
    assert!(!probe_at_offset(&disk, 0));
    assert!(probe_at_offset(&disk, 8192));
    // A read past the end fails, and then there is no volume.
    assert!(!probe_at_offset(&disk, 16384));
    let mut bytes = vec![0u8; 1100];
    bytes[1080] = 0x53;
    bytes[1081] = 0xEF;
    assert!(probe_path(&Memory { bytes }));
}

#[test]
fn the_lowest_free_letter_from_e_on_is_picked() {
    assert_eq!(pick_drive_letter(0), Some('E'));
    assert_eq!(pick_drive_letter(0b1_0000), Some('F'));
    assert_eq!(pick_drive_letter(0b10_1111), Some('E'));
    assert_eq!(pick_drive_letter(0x01FF_FFFF), Some('Z'));
    assert_eq!(pick_drive_letter(0x03FF_FFFF), None);
    assert_eq!(pick_drive_letter(0xFFFF_FFFF), None);
}

fn payload(units: &[u16], odd: bool) -> Vec<u8> {
    let mut b = vec![0xAAu8; 28];
    for u in units {
        b.push((*u % 0x100) as u8);
        b.push((*u / 0x100) as u8);
    }
    if odd {
        b.push(0x41);
    }
    b
}

#[test]
fn device_names_end_at_the_first_nul() {
    let name: Vec<u16> = "\\\\?\\STORAGE#Disk\0rest".encode_utf16().collect();
    let b = payload(&name, false);
    assert_eq!(
        device_interface_name(Some(&b)),
        Some("\\\\?\\STORAGE#Disk".to_string())
    );
    let b = payload(&[0x41, 0x42], true);
    assert_eq!(device_interface_name(Some(&b)), Some("AB".to_string()));
    let b = payload(&[], true);
    assert_eq!(device_interface_name(Some(&b)), Some(String::new()));
    assert_eq!(device_interface_name(Some(&payload(&[], false))), None);
    assert_eq!(device_interface_name(None), None);
    let b = payload(&[0xD800, 0x41], false);
    assert_eq!(device_interface_name(Some(&b)), None);
}

#[test]
fn a_buffer_is_filled_part_by_part() {
    let mut run = FillRun::new(100, 10);
    assert_eq!(run.next(), Some((100, 0)));
    assert_eq!(run.on_count(4), Ok(()));
    assert_eq!(run.next(), Some((104, 4)));
    assert_eq!(run.on_count(6), Ok(()));
    assert_eq!(run.next(), None);
    let mut run = FillRun::new(u64::MAX, 1);
    assert_eq!(run.next(), Some((u64::MAX, 0)));
    assert_eq!(run.on_count(1), Ok(()));
    assert_eq!(run.next(), None);
    let mut run = FillRun::new(0, 1);
    assert_eq!(run.on_count(0), Err(ShortRead));
}

#[test]
fn a_size_of_zero_is_not_known() {
    assert_eq!(known_size(Some(7)), Some(7));
    assert_eq!(known_size(Some(0)), None);
    assert_eq!(known_size(None), None);
}
