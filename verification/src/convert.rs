//! Between the numbers of the protocol and those of the host.

use vstd::prelude::*;
use crate::host::mode_from_bits;
use crate::host::HostConstants;
use crate::msgs;
use crate::msgs::{Chstat, Open, Seek, Stat, Statfs};
use crate::task::{OpenOptions, SeekTarget, StatChange};

verus! {

/// `v` cut to an unsigned integer with `m` values.
pub open spec fn cut_unsigned(v: int, m: int) -> int {
    v % m
}

/// `v` cut to a two's complement integer with `m` values.
pub open spec fn cut_signed(v: int, m: int) -> int {
    if 2 * (v % m) < m {
        v % m
    } else {
        v % m - m
    }
}

/// `flag` is set in `flags`.
pub open spec fn is_set(flags: u32, flag: u32) -> bool {
    flags & flag == flag
}

/// The host's flag, where the protocol's flag is set.
pub open spec fn host_flag(flags: u32, flag: u32, host_flag: i32) -> i32 {
    if is_set(flags, flag) {
        host_flag
    } else {
        0
    }
}

/// The host's flags for those of the protocol that have no field in [`OpenOptions`].
pub open spec fn host_flags(flags: u32, host: HostConstants) -> i32 {
    host_flag(flags, msgs::O_NOFOLLOW, host.o_nofollow) | host_flag(
        flags,
        msgs::O_EXCL,
        host.o_excl,
    ) | host_flag(flags, msgs::O_NONBLOCK, host.o_nonblock) | host_flag(
        flags,
        msgs::O_SYNC,
        host.o_sync,
    ) | host_flag(flags, msgs::O_DIRECT, host.o_direct) | host_flag(
        flags,
        msgs::O_DIRECTORY,
        host.o_directory,
    ) | host_flag(flags, msgs::O_LARGEFILE, host.o_largefile) | host_flag(
        flags,
        msgs::O_NOATIME,
        host.o_noatime,
    )
}

/// What an open request asks for.
pub open spec fn options_of(open: Open, host: HostConstants) -> OpenOptions {
    OpenOptions {
        read: is_set(open.flags, msgs::O_READ),
        write: is_set(open.flags, msgs::O_WRITE),
        create: is_set(open.flags, msgs::O_CREAT),
        append: is_set(open.flags, msgs::O_APPEND),
        truncate: is_set(open.flags, msgs::O_TRUNC),
        custom_flags: host_flags(open.flags, host),
        mode: open.mode,
    }
}

/// The host's flag, where the protocol's flag is set.
fn pick_flag(flags: u32, flag: u32, host: i32) -> (r: i32)
    ensures
        r == host_flag(flags, flag, host),
{
    if flags & flag == flag {
        host
    } else {
        0
    }
}

/// The host's flags for those of the protocol that have no field in [`OpenOptions`].
pub fn custom_flags(flags: u32, host: &HostConstants) -> (r: i32)
    ensures
        r == host_flags(flags, *host),
{
    pick_flag(flags, msgs::O_NOFOLLOW, host.o_nofollow) | pick_flag(
        flags,
        msgs::O_EXCL,
        host.o_excl,
    ) | pick_flag(flags, msgs::O_NONBLOCK, host.o_nonblock) | pick_flag(
        flags,
        msgs::O_SYNC,
        host.o_sync,
    ) | pick_flag(flags, msgs::O_DIRECT, host.o_direct) | pick_flag(
        flags,
        msgs::O_DIRECTORY,
        host.o_directory,
    ) | pick_flag(flags, msgs::O_LARGEFILE, host.o_largefile) | pick_flag(
        flags,
        msgs::O_NOATIME,
        host.o_noatime,
    )
}

/// What an open request asks for.
pub fn open_options(open: &Open, host: &HostConstants) -> (r: OpenOptions)
    ensures
        r == options_of(*open, *host),
{
    OpenOptions {
        read: (open.flags & msgs::O_READ) == msgs::O_READ,
        write: (open.flags & msgs::O_WRITE) == msgs::O_WRITE,
        create: (open.flags & msgs::O_CREAT) == msgs::O_CREAT,
        append: (open.flags & msgs::O_APPEND) == msgs::O_APPEND,
        truncate: (open.flags & msgs::O_TRUNC) == msgs::O_TRUNC,
        custom_flags: custom_flags(open.flags, host),
        mode: open.mode,
    }
}

/// Where a seek request moves the position: 0 counts from the start of the file
/// and 2 from its end; everything else counts from the current position.
pub open spec fn target_of(seek: Seek) -> SeekTarget {
    if seek.whence == 0 {
        SeekTarget::Start(cut_unsigned(seek.offset as int, 0x1_0000_0000_0000_0000) as u64)
    } else if seek.whence == 2 {
        SeekTarget::End(seek.offset as i64)
    } else {
        SeekTarget::Current(seek.offset as i64)
    }
}

/// A negative number stands for the large one with the same 64 bits.
pub fn unsigned_offset(v: i32) -> (r: u64)
    ensures
        r == cut_unsigned(v as int, 0x1_0000_0000_0000_0000),
{
    cut_to_u64(v as i64)
}

/// Where a seek request moves the position.
pub fn seek_target(seek: &Seek) -> (r: SeekTarget)
    ensures
        r == target_of(*seek),
{
    if seek.whence == 0 {
        SeekTarget::Start(unsigned_offset(seek.offset))
    } else if seek.whence == 2 {
        SeekTarget::End(seek.offset as i64)
    } else {
        SeekTarget::Current(seek.offset as i64)
    }
}

/// What the host tells of the kind of a directory entry.
#[derive(Clone, Copy, PartialEq, Eq, Structural, Debug)]
pub struct FileType {
    pub is_file: bool,
    pub is_char_device: bool,
    pub is_block_device: bool,
    pub is_dir: bool,
    pub is_symlink: bool,
    pub is_fifo: bool,
    pub is_socket: bool,
}

/// The protocol's number for the kind of a directory entry: the first kind that
/// applies, or "unknown" where none does or the host could not tell.
pub open spec fn item_type_of(file_type: Option<FileType>) -> u32 {
    match file_type {
        Some(t) => if t.is_file {
            msgs::DT_REG
        } else if t.is_char_device {
            msgs::DT_CHR
        } else if t.is_block_device {
            msgs::DT_BLK
        } else if t.is_dir {
            msgs::DT_DIR
        } else if t.is_symlink {
            msgs::DT_LNK
        } else if t.is_fifo {
            msgs::DT_FIFO
        } else if t.is_socket {
            msgs::DT_SOCK
        } else {
            msgs::DT_UNKNOWN
        },
        None => msgs::DT_UNKNOWN,
    }
}

/// The protocol's number for the kind of a directory entry.
pub fn convert_file_type(file_type: &Option<FileType>) -> (r: u32)
    ensures
        r == item_type_of(*file_type),
{
    match file_type {
        Some(t) => {
            if t.is_file {
                msgs::DT_REG
            } else if t.is_char_device {
                msgs::DT_CHR
            } else if t.is_block_device {
                msgs::DT_BLK
            } else if t.is_dir {
                msgs::DT_DIR
            } else if t.is_symlink {
                msgs::DT_LNK
            } else if t.is_fifo {
                msgs::DT_FIFO
            } else if t.is_socket {
                msgs::DT_SOCK
            } else {
                msgs::DT_UNKNOWN
            }
        },
        None => msgs::DT_UNKNOWN,
    }
}

/// What the host tells of a file system.
#[derive(Clone, Copy, PartialEq, Eq, Structural, Debug)]
pub struct HostStatfs {
    pub fstype: i64,
    pub namelen: i64,
    pub bsize: i64,
    pub blocks: u64,
    pub bfree: u64,
    pub bavail: u64,
    pub files: u64,
    pub ffree: u64,
}

/// The same as the protocol has it. A type that takes more than 32 bits is
/// reported as 0.
pub open spec fn statfs_of(fs: HostStatfs) -> Statfs {
    Statfs {
        fstype: if 0 <= fs.fstype <= u32::MAX {
            fs.fstype as u32
        } else {
            0
        },
        reserved: 0,
        namelen: fs.namelen,
        bsize: fs.bsize,
        blocks: fs.blocks,
        bfree: fs.bfree,
        bavail: fs.bavail,
        files: fs.files,
        ffree: fs.ffree,
    }
}

/// The state of a file system as the protocol has it.
pub fn convert_statfs(fs: &HostStatfs) -> (r: Statfs)
    ensures
        r == statfs_of(*fs),
{
    Statfs {
        fstype: if 0 <= fs.fstype && fs.fstype <= u32::MAX as i64 {
            fs.fstype as u32
        } else {
            0
        },
        reserved: 0,
        namelen: fs.namelen,
        bsize: fs.bsize,
        blocks: fs.blocks,
        bfree: fs.bfree,
        bavail: fs.bavail,
        files: fs.files,
        ffree: fs.ffree,
    }
}

/// What the host tells of a file.
#[derive(Clone, Copy, PartialEq, Eq, Structural, Debug)]
pub struct HostStat {
    pub dev: u64,
    pub mode: u32,
    pub rdev: u64,
    pub ino: u64,
    pub nlink: u64,
    pub size: i64,
    pub atime: i64,
    pub atime_nsec: i64,
    pub mtime: i64,
    pub mtime_nsec: i64,
    pub ctime: i64,
    pub ctime_nsec: i64,
    pub blocks: i64,
    pub uid: u32,
    pub gid: u32,
    pub blksize: i64,
}

/// The same as the protocol has it: what is too wide loses its high bits.
pub open spec fn stat_of(st: HostStat) -> Stat {
    Stat {
        dev: cut_unsigned(st.dev as int, 0x1_0000_0000) as u32,
        mode: st.mode,
        rdev: cut_unsigned(st.rdev as int, 0x1_0000_0000) as u32,
        ino: cut_unsigned(st.ino as int, 0x1_0000) as u16,
        nlink: cut_unsigned(st.nlink as int, 0x1_0000) as u16,
        size: st.size,
        atim_sec: st.atime,
        atim_nsec: st.atime_nsec,
        mtim_sec: st.mtime,
        mtim_nsec: st.mtime_nsec,
        ctim_sec: st.ctime,
        ctim_nsec: st.ctime_nsec,
        blocks: cut_unsigned(st.blocks as int, 0x1_0000_0000_0000_0000) as u64,
        uid: cut_signed(st.uid as int, 0x1_0000) as i16,
        gid: cut_signed(st.gid as int, 0x1_0000) as i16,
        blksize: cut_signed(st.blksize as int, 0x1_0000) as i16,
        reserved: 0,
    }
}

fn cut_to_u32(v: u64) -> (r: u32)
    ensures
        r == cut_unsigned(v as int, 0x1_0000_0000),
{
    assert(v as u32 == v % 0x1_0000_0000) by (bit_vector);
    #[verifier::truncate]
    (v as u32)
}

fn cut_to_u16(v: u64) -> (r: u16)
    ensures
        r == cut_unsigned(v as int, 0x1_0000),
{
    assert(v as u16 == v % 0x1_0000) by (bit_vector);
    #[verifier::truncate]
    (v as u16)
}

fn cut_to_u64(v: i64) -> (r: u64)
    ensures
        r == cut_unsigned(v as int, 0x1_0000_0000_0000_0000),
{
    assert(v as u64 == if v >= 0 {
        v as int
    } else {
        v + 0x1_0000_0000_0000_0000
    }) by (bit_vector);
    #[verifier::truncate]
    (v as u64)
}

fn cut_to_i16(v: u64) -> (r: i16)
    ensures
        r == cut_signed(v as int, 0x1_0000),
{
    assert(v as i16 == if v % 0x1_0000 < 0x8000 {
        (v % 0x1_0000) as int
    } else {
        v % 0x1_0000 - 0x1_0000
    }) by (bit_vector);
    #[verifier::truncate]
    (v as i16)
}

/// The low bits of a negative number are those of its 64-bit pattern.
proof fn lemma_cut_of_cut(v: int)
    ensures
        cut_signed(cut_unsigned(v, 0x1_0000_0000_0000_0000), 0x1_0000) == cut_signed(v, 0x1_0000),
{
    assert((v % 0x1_0000_0000_0000_0000) % 0x1_0000 == v % 0x1_0000);
}

/// The state of a file as the protocol has it.
pub fn convert_stat(st: &HostStat) -> (r: Stat)
    ensures
        r == stat_of(*st),
{
    proof {
        lemma_cut_of_cut(st.blksize as int);
    }
    Stat {
        dev: cut_to_u32(st.dev),
        mode: st.mode,
        rdev: cut_to_u32(st.rdev),
        ino: cut_to_u16(st.ino),
        nlink: cut_to_u16(st.nlink),
        size: st.size,
        atim_sec: st.atime,
        atim_nsec: st.atime_nsec,
        mtim_sec: st.mtime,
        mtim_nsec: st.mtime_nsec,
        ctim_sec: st.ctime,
        ctim_nsec: st.ctime_nsec,
        blocks: cut_to_u64(st.blocks),
        uid: cut_to_i16(st.uid as u64),
        gid: cut_to_i16(st.gid as u64),
        blksize: cut_to_i16(cut_to_u64(st.blksize)),
        reserved: 0,
    }
}

/// What a request to change the state of a file asks for. A mode with a bit
/// beyond the permission, set-id and sticky bits is taken as 0.
pub open spec fn change_of(chstat: Chstat) -> StatChange {
    StatChange {
        mode: if chstat.stat.mode <= 0o7777 {
            chstat.stat.mode
        } else {
            0
        },
        atime_sec: chstat.stat.atim_sec,
        atime_nsec: chstat.stat.atim_nsec,
        mtime_sec: chstat.stat.mtim_sec,
        mtime_nsec: chstat.stat.mtim_nsec,
    }
}

/// What a request to change the state of a file asks for.
pub fn convert_change(chstat: &Chstat) -> (r: StatChange)
    ensures
        r == change_of(*chstat),
{
    StatChange {
        mode: match mode_from_bits(chstat.stat.mode) {
            Some(mode) => mode,
            None => 0,
        },
        atime_sec: chstat.stat.atim_sec,
        atime_nsec: chstat.stat.atim_nsec,
        mtime_sec: chstat.stat.mtim_sec,
        mtime_nsec: chstat.stat.mtim_nsec,
    }
}

/// The result of a write, cut to what a header can hold.
pub fn convert_size(size: usize) -> (r: i32)
    ensures
        r == cut_signed(size as int, 0x1_0000_0000),
{
    let v: u64 = size as u64;
    assert(v as i32 == if v % 0x1_0000_0000 < 0x8000_0000 {
        (v % 0x1_0000_0000) as int
    } else {
        v % 0x1_0000_0000 - 0x1_0000_0000
    }) by (bit_vector);
    #[verifier::truncate]
    (v as i32)
}

/// A number is cut to the one unsigned number in range that differs from it by a
/// multiple of the range.
pub proof fn law_cut_unsigned_keeps_the_low_bits(v: int, m: int)
    requires
        m > 0,
    ensures
        0 <= cut_unsigned(v, m) < m,
        (v - cut_unsigned(v, m)) % m == 0,
        0 <= v < m ==> cut_unsigned(v, m) == v,
{
    vstd::arithmetic::div_mod::lemma_fundamental_div_mod(v, m);
    vstd::arithmetic::div_mod::lemma_mod_bound(v, m);
    vstd::arithmetic::div_mod::lemma_mod_multiples_basic(v / m, m);
    assert((v / m) * m == m * (v / m)) by (nonlinear_arith);
    if 0 <= v < m {
        vstd::arithmetic::div_mod::lemma_small_mod(v as nat, m as nat);
    }
}

/// A number is cut to the one signed number in range that differs from it by a
/// multiple of the range.
pub proof fn law_cut_signed_keeps_the_low_bits(v: int, m: int)
    requires
        m > 0,
    ensures
        -m <= 2 * cut_signed(v, m) < m,
        (v - cut_signed(v, m)) % m == 0,
        -m <= 2 * v < m ==> cut_signed(v, m) == v,
{
    let q = v / m;
    vstd::arithmetic::div_mod::lemma_fundamental_div_mod(v, m);
    vstd::arithmetic::div_mod::lemma_mod_bound(v, m);
    vstd::arithmetic::div_mod::lemma_mod_multiples_basic(q, m);
    vstd::arithmetic::div_mod::lemma_mod_multiples_basic(q + 1, m);
    assert(q * m == m * q && (q + 1) * m == m * q + m) by (nonlinear_arith);
    if 0 <= v < m {
        vstd::arithmetic::div_mod::lemma_small_mod(v as nat, m as nat);
    } else if -m <= v < 0 {
        vstd::arithmetic::div_mod::lemma_fundamental_div_mod_converse(v, m, -1, v + m);
    }
}

/// Some flag has a bit of `m` exactly where their union has one.
proof fn lemma_union_of_flags(
    a: i32,
    b: i32,
    c: i32,
    d: i32,
    e: i32,
    f: i32,
    g: i32,
    h: i32,
    m: i32,
)
    by (bit_vector)
    ensures
        (a | b | c | d | e | f | g | h) & m != 0 <==> (a & m != 0 || b & m != 0 || c & m != 0 || d
            & m != 0 || e & m != 0 || f & m != 0 || g & m != 0 || h & m != 0),
        0i32 & m == 0,
{
}

/// Each option of an open request depends on a bit of its own, whatever other bits are
/// set. A bit of the host's flags is set exactly where it belongs to a flag of the host
/// that one of the protocol's bits asks for.
pub proof fn law_each_option_has_its_own_bit(open: Open, host: HostConstants)
    ensures
        ({
            let flags = open.flags;
            let options = options_of(open, host);
            &&& options.read <==> flags & 0x1 != 0
            &&& options.write <==> flags & 0x2 != 0
            &&& options.create <==> flags & 0x4 != 0
            &&& options.append <==> flags & 0x10 != 0
            &&& options.truncate <==> flags & 0x20 != 0
            &&& options.mode == open.mode
            &&& forall|bit: i32| #[trigger]
                (options.custom_flags & bit) != 0 <==> {
                    ||| flags & 0x8 != 0 && host.o_excl & bit != 0
                    ||| flags & 0x40 != 0 && host.o_nonblock & bit != 0
                    ||| flags & 0x80 != 0 && host.o_sync & bit != 0
                    ||| flags & 0x200 != 0 && host.o_direct & bit != 0
                    ||| flags & 0x800 != 0 && host.o_directory & bit != 0
                    ||| flags & 0x1000 != 0 && host.o_nofollow & bit != 0
                    ||| flags & 0x2000 != 0 && host.o_largefile & bit != 0
                    ||| flags & 0x40000 != 0 && host.o_noatime & bit != 0
                }
        }),
{
    let flags = open.flags;
    assert({
        &&& flags & 0x1 == 0x1 <==> flags & 0x1 != 0
        &&& flags & 0x2 == 0x2 <==> flags & 0x2 != 0
        &&& flags & 0x4 == 0x4 <==> flags & 0x4 != 0
        &&& flags & 0x8 == 0x8 <==> flags & 0x8 != 0
        &&& flags & 0x10 == 0x10 <==> flags & 0x10 != 0
        &&& flags & 0x20 == 0x20 <==> flags & 0x20 != 0
        &&& flags & 0x40 == 0x40 <==> flags & 0x40 != 0
        &&& flags & 0x80 == 0x80 <==> flags & 0x80 != 0
        &&& flags & 0x200 == 0x200 <==> flags & 0x200 != 0
        &&& flags & 0x800 == 0x800 <==> flags & 0x800 != 0
        &&& flags & 0x1000 == 0x1000 <==> flags & 0x1000 != 0
        &&& flags & 0x2000 == 0x2000 <==> flags & 0x2000 != 0
        &&& flags & 0x40000 == 0x40000 <==> flags & 0x40000 != 0
    }) by (bit_vector);
    let custom = options_of(open, host).custom_flags;
    assert forall|bit: i32| #[trigger] (custom & bit) != 0 <==> {
        ||| flags & 0x8 != 0 && host.o_excl & bit != 0
        ||| flags & 0x40 != 0 && host.o_nonblock & bit != 0
        ||| flags & 0x80 != 0 && host.o_sync & bit != 0
        ||| flags & 0x200 != 0 && host.o_direct & bit != 0
        ||| flags & 0x800 != 0 && host.o_directory & bit != 0
        ||| flags & 0x1000 != 0 && host.o_nofollow & bit != 0
        ||| flags & 0x2000 != 0 && host.o_largefile & bit != 0
        ||| flags & 0x40000 != 0 && host.o_noatime & bit != 0
    } by {
        lemma_union_of_flags(
            host_flag(flags, msgs::O_NOFOLLOW, host.o_nofollow),
            host_flag(flags, msgs::O_EXCL, host.o_excl),
            host_flag(flags, msgs::O_NONBLOCK, host.o_nonblock),
            host_flag(flags, msgs::O_SYNC, host.o_sync),
            host_flag(flags, msgs::O_DIRECT, host.o_direct),
            host_flag(flags, msgs::O_DIRECTORY, host.o_directory),
            host_flag(flags, msgs::O_LARGEFILE, host.o_largefile),
            host_flag(flags, msgs::O_NOATIME, host.o_noatime),
            bit,
        );
    }
}

/// The number of a directory entry names a kind that applies to it: a regular file is
/// one whatever else applies, and so on in the order of the checks. It is 0 exactly
/// where no kind applies or the host could not tell.
pub proof fn law_kind_of_an_entry(t: FileType)
    ensures
        item_type_of(None) == 0,
        item_type_of(Some(t)) == 8 <==> t.is_file,
        item_type_of(Some(t)) == 2 <==> t.is_char_device && !t.is_file,
        item_type_of(Some(t)) == 6 <==> t.is_block_device && !t.is_char_device && !t.is_file,
        item_type_of(Some(t)) == 4 <==> t.is_dir && !t.is_block_device && !t.is_char_device
            && !t.is_file,
        item_type_of(Some(t)) == 10 <==> t.is_symlink && !t.is_dir && !t.is_block_device
            && !t.is_char_device && !t.is_file,
        item_type_of(Some(t)) == 1 <==> t.is_fifo && !t.is_symlink && !t.is_dir
            && !t.is_block_device && !t.is_char_device && !t.is_file,
        item_type_of(Some(t)) == 12 <==> t.is_socket && !t.is_fifo && !t.is_symlink && !t.is_dir
            && !t.is_block_device && !t.is_char_device && !t.is_file,
        item_type_of(Some(t)) == 0 <==> !t.is_socket && !t.is_fifo && !t.is_symlink && !t.is_dir
            && !t.is_block_device && !t.is_char_device && !t.is_file,
{
}

/// Of the state of a file the protocol has some fields at full width: those are as the
/// host told them. The others differ from the host's by a multiple of their range, so
/// they are as the host told them wherever they fit.
pub proof fn law_state_of_a_file_is_kept(st: HostStat)
    ensures
        stat_of(st).mode == st.mode,
        stat_of(st).size == st.size,
        stat_of(st).atim_sec == st.atime,
        stat_of(st).atim_nsec == st.atime_nsec,
        stat_of(st).mtim_sec == st.mtime,
        stat_of(st).mtim_nsec == st.mtime_nsec,
        stat_of(st).ctim_sec == st.ctime,
        stat_of(st).ctim_nsec == st.ctime_nsec,
        (st.dev - stat_of(st).dev) % 0x1_0000_0000 == 0,
        (st.rdev - stat_of(st).rdev) % 0x1_0000_0000 == 0,
        (st.ino - stat_of(st).ino) % 0x1_0000 == 0,
        (st.nlink - stat_of(st).nlink) % 0x1_0000 == 0,
        (st.blocks - stat_of(st).blocks) % 0x1_0000_0000_0000_0000 == 0,
        (st.uid - stat_of(st).uid) % 0x1_0000 == 0,
        (st.gid - stat_of(st).gid) % 0x1_0000 == 0,
        (st.blksize - stat_of(st).blksize) % 0x1_0000 == 0,
        stat_of(st).reserved == 0,
{
}

/// Of the state of a file system all is as the host told it, but for a type that takes
/// more than 32 bits, which is reported as 0.
pub proof fn law_state_of_a_file_system_is_kept(fs: HostStatfs)
    ensures
        0 <= fs.fstype < 0x1_0000_0000 ==> statfs_of(fs).fstype == fs.fstype,
        fs.fstype < 0 || fs.fstype >= 0x1_0000_0000 ==> statfs_of(fs).fstype == 0,
        statfs_of(fs).reserved == 0,
        statfs_of(fs).namelen == fs.namelen,
        statfs_of(fs).bsize == fs.bsize,
        statfs_of(fs).blocks == fs.blocks,
        statfs_of(fs).bfree == fs.bfree,
        statfs_of(fs).bavail == fs.bavail,
        statfs_of(fs).files == fs.files,
        statfs_of(fs).ffree == fs.ffree,
{
}

/// A change takes the mode of the request where it has no bit beyond the twelve that a
/// mode can have, and else 0; and it takes the first two times of the request.
pub proof fn law_change_is_what_was_asked(chstat: Chstat)
    ensures
        chstat.stat.mode & !0o7777u32 == 0 ==> change_of(chstat).mode == chstat.stat.mode,
        chstat.stat.mode & !0o7777u32 != 0 ==> change_of(chstat).mode == 0,
        change_of(chstat).atime_sec == chstat.stat.atim_sec,
        change_of(chstat).atime_nsec == chstat.stat.atim_nsec,
        change_of(chstat).mtime_sec == chstat.stat.mtim_sec,
        change_of(chstat).mtime_nsec == chstat.stat.mtim_nsec,
{
    let mode = chstat.stat.mode;
    assert(mode & !0o7777u32 == 0 <==> mode <= 0o7777) by (bit_vector);
}

/// A seek counts from the start for 0 and from the end for 2, and from the current
/// position for every other number. The offset is taken as it is; from the start a
/// negative one stands for the number that differs from it by 2 to the 64th.
pub proof fn law_seek_goes_where_it_was_asked(seek: Seek)
    ensures
        seek.whence == 0 ==> (target_of(seek) matches SeekTarget::Start(at) && (at - seek.offset)
            % 0x1_0000_0000_0000_0000 == 0),
        seek.whence == 2 ==> (target_of(seek) matches SeekTarget::End(by) && by == seek.offset),
        seek.whence != 0 && seek.whence != 2 ==> (target_of(seek) matches SeekTarget::Current(by)
            && by == seek.offset),
{
}

} // verus!
