use rpmsgfs::msgs::{Chstat, FTruncate, FileContent, Header, MkDir, Open, ReadDir, Seek, Stat, Statfs};
use rpmsgfs::path::{find_second_path, read_path, str_from_u8_nul_utf8};
use rpmsgfs::wire::{push_i16, push_i32, push_i64, push_u16, push_u32, push_u64};
use rpmsgfs::wire::{read_i16, read_i32, read_i64, read_u16, read_u32, read_u64};

#[test]
fn integers_are_little_endian() {
    let mut out = Vec::new();
    push_u16(&mut out, 0x0102);
    push_i16(&mut out, -2);
    push_u32(&mut out, 0x0304_0506);
    push_i32(&mut out, -3);
    push_u64(&mut out, 0x0708_090a_0b0c_0d0e);
    push_i64(&mut out, i64::MIN);
    assert_eq!(
        out,
        vec![
            0x02, 0x01, 0xfe, 0xff, 0x06, 0x05, 0x04, 0x03, 0xfd, 0xff, 0xff, 0xff, 0x0e, 0x0d,
            0x0c, 0x0b, 0x0a, 0x09, 0x08, 0x07, 0, 0, 0, 0, 0, 0, 0, 0x80,
        ]
    );
    assert_eq!(read_u16(&out, 0), 0x0102);
    assert_eq!(read_i16(&out, 2), -2);
    assert_eq!(read_u32(&out, 4), 0x0304_0506);
    assert_eq!(read_i32(&out, 8), -3);
    assert_eq!(read_u64(&out, 12), 0x0708_090a_0b0c_0d0e);
    assert_eq!(read_i64(&out, 20), i64::MIN);
}

#[test]
fn integers_read_unsigned_where_they_are() {
    let bytes = [0xff, 0xfe, 0xff, 0xff, 0xff, 0xff, 0xff, 0xff, 0xff];
    assert_eq!(read_u16(&bytes, 1), 0xfffe);
    assert_eq!(read_i16(&bytes, 1), -2);
    assert_eq!(read_u32(&bytes, 1), 0xffff_fffe);
    assert_eq!(read_i32(&bytes, 1), -2);
    assert_eq!(read_u64(&bytes, 1), 0xffff_ffff_ffff_fffe);
    assert_eq!(read_i64(&bytes, 1), -2);
}

#[test]
fn header_bytes() {
    let header = Header { command: 2, result: -5, cookie: 0x1122_3344_5566_7788 };
    let bytes = header.encode();
    assert_eq!(
        bytes,
        vec![2, 0, 0, 0, 0xfb, 0xff, 0xff, 0xff, 0x88, 0x77, 0x66, 0x55, 0x44, 0x33, 0x22, 0x11]
    );
    assert_eq!(Header::decode(&bytes), header);
}

#[test]
fn small_messages_decode() {
    let data = [1, 0, 0, 0, 2, 0, 0, 0, 3, 0, 0, 0, 99];
    assert_eq!(Open::decode(&data), Open { flags: 1, mode: 2 });
    assert_eq!(FileContent::decode(&data), FileContent { fd: 1, content_size: 2 });
    assert_eq!(Seek::decode(&data), Seek { fd: 1, whence: 2, offset: 3 });
    assert_eq!(FTruncate::decode(&data), FTruncate { fd: 1, length: 2 });
    assert_eq!(ReadDir::decode(&data), ReadDir { dir_id: 1, item_type: 2 });
    assert_eq!(MkDir::decode(&data), MkDir { mode: 1, reserved: 2 });
}

#[test]
fn small_messages_encode() {
    assert_eq!(FileContent { fd: -1, content_size: 7 }.encode(), vec![255, 255, 255, 255, 7, 0, 0, 0]);
    assert_eq!(ReadDir { dir_id: 3, item_type: 8 }.encode(), vec![3, 0, 0, 0, 8, 0, 0, 0]);
}

fn sample_stat() -> Stat {
    Stat {
        dev: 1,
        mode: 0o100644,
        rdev: 3,
        ino: 0xfffe,
        nlink: 5,
        size: -6,
        atim_sec: 7,
        atim_nsec: 8,
        mtim_sec: 9,
        mtim_nsec: 10,
        ctim_sec: 11,
        ctim_nsec: 12,
        blocks: 13,
        uid: -14,
        gid: 15,
        blksize: 4096,
        reserved: 17,
    }
}

#[test]
fn stat_reads_back() {
    let bytes = sample_stat().encode();
    assert_eq!(bytes.len(), 88);
    assert_eq!(&bytes[12..16], &[0xfe, 0xff, 5, 0]);
    assert_eq!(&bytes[80..88], &[0xf2, 0xff, 15, 0, 0, 0x10, 17, 0]);
    assert_eq!(Stat::decode(&bytes), sample_stat());
}

#[test]
fn chstat_is_flags_and_stat() {
    let mut bytes = vec![0xff, 0xff, 0xff, 0xff];
    bytes.extend_from_slice(&sample_stat().encode());
    assert_eq!(bytes.len(), 92);
    assert_eq!(Chstat::decode(&bytes), Chstat { flags: -1, stat: sample_stat() });
}

#[test]
fn statfs_bytes() {
    let statfs = Statfs {
        fstype: 0xef53,
        reserved: 0,
        namelen: 255,
        bsize: 4096,
        blocks: 1,
        bfree: 2,
        bavail: 3,
        files: 4,
        ffree: 5,
    };
    let bytes = statfs.encode();
    assert_eq!(bytes.len(), 64);
    assert_eq!(&bytes[..16], &[0x53, 0xef, 0, 0, 0, 0, 0, 0, 255, 0, 0, 0, 0, 0, 0, 0]);
    assert_eq!(&bytes[56..], &[5, 0, 0, 0, 0, 0, 0, 0]);
}

#[test]
fn path_ends_at_nul_or_at_the_end() {
    assert_eq!(str_from_u8_nul_utf8(b"/tmp/a\0rest"), "/tmp/a");
    assert_eq!(str_from_u8_nul_utf8(b"/tmp/a"), "/tmp/a");
    assert_eq!(str_from_u8_nul_utf8(b"\0a"), "");
    assert_eq!(str_from_u8_nul_utf8(b""), "");
}

#[test]
fn path_is_utf8() {
    assert_eq!(str_from_u8_nul_utf8("/\u{e9}\u{20ac}\u{1f600}\0".as_bytes()), "/\u{e9}\u{20ac}\u{1f600}");
    assert_eq!(str_from_u8_nul_utf8(&[b'/', 0xff, 0]), "");
    assert_eq!(str_from_u8_nul_utf8(&[b'/', 0, 0xff]), "/");
    assert_eq!(str_from_u8_nul_utf8(&[0xed, 0xa0, 0x80]), "");
    assert_eq!(str_from_u8_nul_utf8(&[0xc0, 0x80]), "");
}

#[test]
fn path_behind_fields() {
    assert_eq!(read_path(b"12345678/a\0", 8), "/a");
    assert_eq!(read_path(b"12345678", 8), "");
}

#[test]
fn second_path_is_aligned() {
    assert_eq!(find_second_path(b"/abcdef\0/b\0"), Some(8));
    assert_eq!(find_second_path(b"/abcdefg\0\0\0\0\0\0\0\0/b"), Some(16));
    assert_eq!(find_second_path(b"\0\0\0\0\0\0\0\0"), Some(8));
    assert_eq!(find_second_path(&[0xff, 0, 0, 0, 0, 0, 0, 0]), Some(8));
    assert_eq!(find_second_path(b"/abcdefg"), None);
    assert_eq!(find_second_path(b""), None);
}
