use ext4_win_driver::attributes::{
    encode_attributes, list_to_read, listed_names, value_read, value_to_read,
};
use ext4_win_driver::ea::{ea_edits, put_ea};
use ext4_win_driver::path::{
    child_path, follow_link, parent_path, path_below, unix_text, winpath_to_unix,
};
use ext4_win_driver::status::{Failure, NtStatus};
use ext4_win_driver::utf16::{encode_wide, wide_z};
use ext4_win_driver::xattr::xattr_names;

fn wide(s: &str) -> Vec<u16> {
    s.encode_utf16().collect()
}

#[test]
fn windows_paths_become_unix_paths() {
    assert_eq!(winpath_to_unix(&wide("\\foo\\bar")), Some("/foo/bar".to_string()));
    assert_eq!(winpath_to_unix(&[]), Some("/".to_string()));
    assert_eq!(winpath_to_unix(&wide("\\caf\u{e9}\\\u{1F600}")), Some("/caf\u{e9}/\u{1F600}".to_string()));
    assert_eq!(winpath_to_unix(&[0x5C, 0xD800]), None);
    assert_eq!(winpath_to_unix(&[0xDC00, 0x5C]), None);
    assert_eq!(unix_text("a\\b/c"), "a/b/c");
    assert_eq!(unix_text(""), "/");
}

#[test]
fn utf16_round_trips() {
    for s in ["", "abc", "\u{7FF}\u{800}\u{FFFF}\u{10000}\u{10FFFF}", "\u{D7FF}\u{E000}"] {
        assert_eq!(encode_wide(s), wide(s));
        assert_eq!(String::from_utf16(&encode_wide(s)).ok(), Some(s.to_string()));
    }
    assert_eq!(wide_z("ab"), vec![0x61, 0x62, 0]);
    assert_eq!(wide_z(""), vec![0]);
}

#[test]
fn links_lead_from_their_directory() {
    assert_eq!(follow_link("/a/b", "/etc/x"), "/etc/x");
    assert_eq!(follow_link("/a/b", "c"), "/a/c");
    assert_eq!(follow_link("/b", "c"), "/c");
    assert_eq!(follow_link("/a//b", "c"), "/a/c");
    assert_eq!(follow_link("b", "c"), "/c");
    assert_eq!(follow_link("/a/b", ""), "/a/");
    assert_eq!(follow_link("/a/b", "../c"), "/a/../c");
}

#[test]
fn children_and_parents_fit_together() {
    assert_eq!(child_path("/", "a"), "/a");
    assert_eq!(child_path("/a", "b"), "/a/b");
    assert_eq!(parent_path("/a/b"), "/a");
    assert_eq!(parent_path("/a"), "/");
    assert_eq!(parent_path("/"), "/");
    assert_eq!(parent_path("a"), "/");
    assert_eq!(path_below("/", "a"), "/a");
    assert_eq!(path_below("/a", "b"), "/a/b");
    assert_eq!(path_below("/a/", "b"), "/a/b");
    for dir in ["/", "/a", "/a/b"] {
        assert_eq!(parent_path(&child_path(dir, "x")), dir);
    }
}

#[test]
fn name_lists_are_cut_at_their_nuls() {
    let list = b"user.a\0user.bb\0";
    assert_eq!(xattr_names(list, list.len()), vec![b"user.a".to_vec(), b"user.bb".to_vec()]);
    assert_eq!(xattr_names(b"x\0\0y\0", 5), vec![b"x".to_vec()]);
    assert_eq!(xattr_names(b"tail", 4), vec![b"tail".to_vec()]);
    assert_eq!(xattr_names(b"a\0tail", 3), vec![b"a".to_vec(), b"t".to_vec()]);
    assert_eq!(xattr_names(b"", 0), Vec::<Vec<u8>>::new());
}

fn pairs(buffer: &[u8]) -> Vec<(Vec<u8>, Vec<u8>)> {
    ea_edits(buffer).into_iter().map(|e| (e.name, e.value)).collect()
}

#[test]
fn one_attribute_is_laid_out_byte_by_byte() {
    let mut buf = vec![0xEEu8; 32];
    assert_eq!(put_ea(&mut buf, 0, b"ab", b"xyz", false), Some(16));
    assert_eq!(&buf[..14], &[16, 0, 0, 0, 0, 2, 3, 0, b'a', b'b', 0, b'x', b'y', b'z']);
    // Padding keeps what it held.
    assert_eq!(&buf[14..16], &[0xEE, 0xEE]);
    assert_eq!(put_ea(&mut buf, 16, b"c", b"", true), Some(26));
    assert_eq!(&buf[16..26], &[0, 0, 0, 0, 0, 1, 0, 0, b'c', 0]);
    assert_eq!(put_ea(&mut buf, 26, b"c", b"", true), None);
    assert_eq!(
        pairs(&buf[..26]),
        vec![(b"ab".to_vec(), b"xyz".to_vec()), (b"c".to_vec(), Vec::new())]
    );
}

#[test]
fn attributes_round_trip_through_a_chain() {
    let names = vec![b"user.color".to_vec(), b"user.gone".to_vec(), b"user.size".to_vec()];
    let values = vec![Some(b"blue".to_vec()), None, Some(vec![0, 1, 2])];
    let mut buf = vec![0u8; 64];
    let n = encode_attributes(&names, &values, &mut buf).unwrap();
    // 9 + 10 + 4 = 23, padded to 24; 9 + 9 + 3 = 21.
    assert_eq!(n, 45);
    assert_eq!(
        pairs(&buf[..n as usize]),
        vec![
            (b"user.color".to_vec(), b"blue".to_vec()),
            (b"user.size".to_vec(), vec![0, 1, 2])
        ]
    );
    let mut exact = vec![0u8; 45];
    assert_eq!(encode_attributes(&names, &values, &mut exact), Ok(45));
    let mut small = vec![0u8; 44];
    assert_eq!(
        encode_attributes(&names, &values, &mut small),
        Err(Failure { status: NtStatus::BufferOverflow, errno: None })
    );
    assert_eq!(encode_attributes(&[], &[], &mut small), Ok(0));
    // The last attribute has no value: the chain ends behind the one before.
    let values = vec![Some(b"blue".to_vec()), Some(vec![7]), None];
    let n = encode_attributes(&names, &values, &mut buf).unwrap();
    assert_eq!(n, 44);
    assert_eq!(
        pairs(&buf[..n as usize]),
        vec![(b"user.color".to_vec(), b"blue".to_vec()), (b"user.gone".to_vec(), vec![7])]
    );
}

#[test]
fn malformed_chains_end_early() {
    assert_eq!(pairs(&[]), vec![]);
    assert_eq!(pairs(&[0, 0, 0, 0, 0, 1, 0]), vec![]);
    // The value does not fit.
    assert_eq!(pairs(&[0, 0, 0, 0, 0, 1, 9, 0, b'a', 0]), vec![]);
    // A name with a NUL carries nothing, but the chain goes on.
    let mut buf = vec![0u8; 40];
    put_ea(&mut buf, 0, b"a\0b", b"v", false);
    put_ea(&mut buf, 16, b"ok", b"v", true);
    assert_eq!(pairs(&buf[..28]), vec![(b"ok".to_vec(), b"v".to_vec())]);
    // A successor behind the end stops the chain.
    let mut buf = vec![0u8; 16];
    put_ea(&mut buf, 0, b"a", b"v", true);
    buf[0] = 200;
    assert_eq!(pairs(&buf), vec![(b"a".to_vec(), b"v".to_vec())]);
}

#[test]
fn replies_about_attributes_are_sorted() {
    assert_eq!(list_to_read(-1), None);
    assert_eq!(list_to_read(0), None);
    assert_eq!(list_to_read(12), Some(12));
    assert_eq!(listed_names(-1, b"a\0"), Vec::<Vec<u8>>::new());
    assert_eq!(listed_names(0, b"a\0"), Vec::<Vec<u8>>::new());
    assert_eq!(listed_names(2, b"a\0"), vec![b"a".to_vec()]);
    assert_eq!(value_to_read(-1), None);
    assert_eq!(value_to_read(0), Some(0));
    assert_eq!(value_to_read(3), Some(3));
    assert_eq!(value_read(-1, b"abc"), None);
    assert_eq!(value_read(0, b"abc"), Some(&b""[..]));
    assert_eq!(value_read(2, b"abc"), Some(&b"ab"[..]));
}
