use rpmsgfs::convert::{convert_change, convert_file_type, convert_size, convert_stat, convert_statfs};
use rpmsgfs::convert::{custom_flags, open_options, seek_target, unsigned_offset};
use rpmsgfs::convert::{FileType, HostStat, HostStatfs};
use rpmsgfs::host::HostConstants;
use rpmsgfs::msgs;
use rpmsgfs::msgs::{Chstat, Open, Seek, Stat};
use rpmsgfs::server::Rpmsgfs;
use rpmsgfs::task::{OpenOptions, SeekTarget, StatChange};

fn host() -> HostConstants {
    HostConstants {
        o_nofollow: 0x1,
        o_excl: 0x2,
        o_nonblock: 0x4,
        o_sync: 0x108,
        o_direct: 0x10,
        o_directory: 0x20,
        o_largefile: 0,
        o_noatime: 0x80,
        ebadf: 9,
        enoent: 2,
        enotsup: 95,
    }
}

#[test]
fn constants_are_those_of_the_host() {
    let server: Rpmsgfs<(), ()> = Rpmsgfs::new();
    assert_eq!(
        *server.host(),
        HostConstants {
            o_nofollow: nix::libc::O_NOFOLLOW,
            o_excl: nix::libc::O_EXCL,
            o_nonblock: nix::libc::O_NONBLOCK,
            o_sync: nix::libc::O_SYNC,
            o_direct: nix::libc::O_DIRECT,
            o_directory: nix::libc::O_DIRECTORY,
            o_largefile: nix::libc::O_LARGEFILE,
            o_noatime: nix::libc::O_NOATIME,
            ebadf: nix::libc::EBADF,
            enoent: nix::libc::ENOENT,
            enotsup: nix::libc::ENOTSUP,
        }
    );
}

#[test]
fn flags_map_to_those_of_the_host() {
    let h = host();
    assert_eq!(custom_flags(0, &h), 0);
    assert_eq!(custom_flags(msgs::O_NOFOLLOW, &h), 0x1);
    assert_eq!(custom_flags(msgs::O_EXCL, &h), 0x2);
    assert_eq!(custom_flags(msgs::O_NONBLOCK, &h), 0x4);
    assert_eq!(custom_flags(msgs::O_SYNC, &h), 0x108);
    assert_eq!(custom_flags(msgs::O_DIRECT, &h), 0x10);
    assert_eq!(custom_flags(msgs::O_DIRECTORY, &h), 0x20);
    assert_eq!(custom_flags(msgs::O_LARGEFILE, &h), 0);
    assert_eq!(custom_flags(msgs::O_NOATIME, &h), 0x80);
    assert_eq!(custom_flags(msgs::O_READ | msgs::O_WRITE | msgs::O_CREAT, &h), 0);
    assert_eq!(custom_flags(u32::MAX, &h), 0x1bf);
}

#[test]
fn options_of_an_open_request() {
    let open = Open { flags: msgs::O_WRITE | msgs::O_CREAT | msgs::O_EXCL, mode: 0o640 };
    assert_eq!(
        open_options(&open, &host()),
        OpenOptions {
            read: false,
            write: true,
            create: true,
            append: false,
            truncate: false,
            custom_flags: 0x2,
            mode: 0o640,
        }
    );
    let open = Open { flags: msgs::O_READ | msgs::O_APPEND | msgs::O_TRUNC, mode: 0 };
    assert_eq!(
        open_options(&open, &host()),
        OpenOptions {
            read: true,
            write: false,
            create: false,
            append: true,
            truncate: true,
            custom_flags: 0,
            mode: 0,
        }
    );
}

#[test]
fn seek_targets() {
    let seek = |whence: i32, offset: i32| seek_target(&Seek { fd: 0, whence, offset });
    assert_eq!(seek(0, 7), SeekTarget::Start(7));
    assert_eq!(seek(0, -1), SeekTarget::Start(u64::MAX));
    assert_eq!(seek(1, -3), SeekTarget::Current(-3));
    assert_eq!(seek(2, -3), SeekTarget::End(-3));
    assert_eq!(seek(3, 4), SeekTarget::Current(4));
    assert_eq!(seek(-1, 4), SeekTarget::Current(4));
}

#[test]
fn offsets_keep_their_bits() {
    assert_eq!(unsigned_offset(5), 5);
    assert_eq!(unsigned_offset(-2), 0xffff_ffff_ffff_fffe);
    assert_eq!(unsigned_offset(i32::MIN), 0xffff_ffff_8000_0000);
}

#[test]
fn sizes_are_cut_to_a_result() {
    assert_eq!(convert_size(0), 0);
    assert_eq!(convert_size(200), 200);
    assert_eq!(convert_size(0x8000_0000), i32::MIN);
    assert_eq!(convert_size(0xffff_ffff), -1);
}

#[test]
fn kinds_of_directory_entries() {
    let none = FileType {
        is_file: false,
        is_char_device: false,
        is_block_device: false,
        is_dir: false,
        is_symlink: false,
        is_fifo: false,
        is_socket: false,
    };
    assert_eq!(convert_file_type(&None), msgs::DT_UNKNOWN);
    assert_eq!(convert_file_type(&Some(none)), msgs::DT_UNKNOWN);
    assert_eq!(convert_file_type(&Some(FileType { is_file: true, ..none })), msgs::DT_REG);
    assert_eq!(convert_file_type(&Some(FileType { is_char_device: true, ..none })), msgs::DT_CHR);
    assert_eq!(convert_file_type(&Some(FileType { is_block_device: true, ..none })), msgs::DT_BLK);
    assert_eq!(convert_file_type(&Some(FileType { is_dir: true, ..none })), msgs::DT_DIR);
    assert_eq!(convert_file_type(&Some(FileType { is_symlink: true, ..none })), msgs::DT_LNK);
    assert_eq!(convert_file_type(&Some(FileType { is_fifo: true, ..none })), msgs::DT_FIFO);
    assert_eq!(convert_file_type(&Some(FileType { is_socket: true, ..none })), msgs::DT_SOCK);
}

#[test]
fn stat_loses_high_bits() {
    let st = HostStat {
        dev: 0x1_0000_0002,
        mode: 0o40755,
        rdev: 3,
        ino: 0x12345,
        nlink: 0x1_0000,
        size: 6,
        atime: -7,
        atime_nsec: 8,
        mtime: 9,
        mtime_nsec: 10,
        ctime: 11,
        ctime_nsec: 12,
        blocks: -1,
        uid: 65534,
        gid: 1000,
        blksize: 65536 + 512,
    };
    assert_eq!(
        convert_stat(&st),
        Stat {
            dev: 2,
            mode: 0o40755,
            rdev: 3,
            ino: 0x2345,
            nlink: 0,
            size: 6,
            atim_sec: -7,
            atim_nsec: 8,
            mtim_sec: 9,
            mtim_nsec: 10,
            ctim_sec: 11,
            ctim_nsec: 12,
            blocks: u64::MAX,
            uid: -2,
            gid: 1000,
            blksize: 512,
            reserved: 0,
        }
    );
    assert_eq!(convert_stat(&HostStat { blksize: -1, ..st }).blksize, -1);
    assert_eq!(convert_stat(&HostStat { blksize: 0x8000, ..st }).blksize, i16::MIN);
}

#[test]
fn wide_file_system_types_are_zero() {
    let fs = HostStatfs {
        fstype: 0xef53,
        namelen: 255,
        bsize: 4096,
        blocks: 1,
        bfree: 2,
        bavail: 3,
        files: 4,
        ffree: 5,
    };
    let statfs = convert_statfs(&fs);
    assert_eq!(statfs.fstype, 0xef53);
    assert_eq!((statfs.reserved, statfs.namelen, statfs.bsize), (0, 255, 4096));
    assert_eq!((statfs.blocks, statfs.bfree, statfs.bavail), (1, 2, 3));
    assert_eq!((statfs.files, statfs.ffree), (4, 5));
    assert_eq!(convert_statfs(&HostStatfs { fstype: 0xffff_ffff, ..fs }).fstype, u32::MAX);
    assert_eq!(convert_statfs(&HostStatfs { fstype: 0x1_0000_0000, ..fs }).fstype, 0);
    assert_eq!(convert_statfs(&HostStatfs { fstype: -1, ..fs }).fstype, 0);
}

#[test]
fn only_permission_bits_are_changed() {
    let change = |mode: u32| {
        convert_change(&Chstat {
            flags: 0,
            stat: Stat {
                dev: 0,
                mode,
                rdev: 0,
                ino: 0,
                nlink: 0,
                size: 0,
                atim_sec: 1,
                atim_nsec: 2,
                mtim_sec: 3,
                mtim_nsec: 4,
                ctim_sec: 5,
                ctim_nsec: 6,
                blocks: 0,
                uid: 0,
                gid: 0,
                blksize: 0,
                reserved: 0,
            },
        })
    };
    assert_eq!(
        change(0o644),
        StatChange { mode: 0o644, atime_sec: 1, atime_nsec: 2, mtime_sec: 3, mtime_nsec: 4 }
    );
    assert_eq!(change(0o7777).mode, 0o7777);
    assert_eq!(change(0o10000).mode, 0);
    assert_eq!(change(0o100644).mode, 0);
    assert_eq!(change(0).mode, 0);
}
