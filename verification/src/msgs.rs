//! The messages of the protocol: a header, then the fields of the command, all
//! packed and little endian.

use vstd::prelude::*;
use vstd::slice::slice_subrange;
use crate::wire;

verus! {

// The commands that the server carries out.

pub const CMD_OPEN: u32 = 0;
pub const CMD_CLOSE: u32 = 1;
pub const CMD_READ: u32 = 2;
pub const CMD_WRITE: u32 = 3;
pub const CMD_SEEK: u32 = 4;
pub const CMD_SYNC: u32 = 6;
pub const CMD_FSTAT: u32 = 8;
pub const CMD_FTRUNCATE: u32 = 9;
pub const CMD_OPENDIR: u32 = 10;
pub const CMD_READDIR: u32 = 11;
pub const CMD_REWINDDIR: u32 = 12;
pub const CMD_CLOSEDIR: u32 = 13;
pub const CMD_STATFS: u32 = 14;
pub const CMD_UNLINK: u32 = 15;
pub const CMD_MKDIR: u32 = 16;
pub const CMD_RMDIR: u32 = 17;
pub const CMD_RENAME: u32 = 18;
pub const CMD_STAT: u32 = 19;
pub const CMD_FCHSTAT: u32 = 20;
pub const CMD_CHSTAT: u32 = 21;

// The flags of an open request.

pub const O_READ: u32 = 0x1;
pub const O_WRITE: u32 = 0x2;
pub const O_CREAT: u32 = 0x4;
pub const O_EXCL: u32 = 0x8;
pub const O_APPEND: u32 = 0x10;
pub const O_TRUNC: u32 = 0x20;
pub const O_NONBLOCK: u32 = 0x40;
pub const O_SYNC: u32 = 0x80;
pub const O_DIRECT: u32 = 0x200;
pub const O_DIRECTORY: u32 = 0x800;
pub const O_NOFOLLOW: u32 = 0x1000;
pub const O_LARGEFILE: u32 = 0x2000;
pub const O_NOATIME: u32 = 0x40000;

// The kinds of directory entries.

pub const DT_UNKNOWN: u32 = 0;
pub const DT_FIFO: u32 = 1;
pub const DT_CHR: u32 = 2;
pub const DT_DIR: u32 = 4;
pub const DT_BLK: u32 = 6;
pub const DT_REG: u32 = 8;
pub const DT_LNK: u32 = 10;
pub const DT_SOCK: u32 = 12;

/// How many bytes a [`Header`] takes.
pub const HEADER_SIZE: usize = 16;

/// What every packet starts with, in both directions.
#[derive(Clone, Copy, PartialEq, Eq, Structural, Debug)]
pub struct Header {
    pub command: u32,
    pub result: i32,
    pub cookie: u64,
}

impl Header {
    /// The fields at the start of `s`.
    pub open spec fn parse(s: Seq<u8>) -> Header {
        Header {
            command: wire::u32_at(s, 0),
            result: wire::i32_at(s, 4),
            cookie: wire::u64_at(s, 8),
        }
    }

    /// The fields as they go on the wire.
    pub open spec fn bytes(self) -> Seq<u8> {
        wire::le_bytes(self.command as int, 4)
            + wire::le_bytes(self.result as int, 4)
            + wire::le_bytes(self.cookie as int, 8)
    }

    /// Reads the fields at the start of `data`.
    pub fn decode(data: &[u8]) -> (r: Header)
        requires
            data@.len() >= HEADER_SIZE,
        ensures
            r == Header::parse(data@),
    {
        Header {
            command: wire::read_u32(data, 0),
            result: wire::read_i32(data, 4),
            cookie: wire::read_u64(data, 8),
        }
    }

    /// Gives the bytes of the fields.
    pub fn encode(&self) -> (r: Vec<u8>)
        ensures
            r@ == self.bytes(),
    {
        let mut out: Vec<u8> = Vec::new();
        wire::push_u32(&mut out, self.command);
        wire::push_i32(&mut out, self.result);
        wire::push_u64(&mut out, self.cookie);
        out
    }
}

/// How many bytes a [`Open`] takes.
pub const OPEN_SIZE: usize = 8;

/// Open a file; the path follows.
#[derive(Clone, Copy, PartialEq, Eq, Structural, Debug)]
pub struct Open {
    pub flags: u32,
    pub mode: u32,
}

impl Open {
    /// The fields at the start of `s`.
    pub open spec fn parse(s: Seq<u8>) -> Open {
        Open {
            flags: wire::u32_at(s, 0),
            mode: wire::u32_at(s, 4),
        }
    }

    /// The fields as they go on the wire.
    pub open spec fn bytes(self) -> Seq<u8> {
        wire::le_bytes(self.flags as int, 4)
            + wire::le_bytes(self.mode as int, 4)
    }

    /// Reads the fields at the start of `data`.
    pub fn decode(data: &[u8]) -> (r: Open)
        requires
            data@.len() >= OPEN_SIZE,
        ensures
            r == Open::parse(data@),
    {
        Open {
            flags: wire::read_u32(data, 0),
            mode: wire::read_u32(data, 4),
        }
    }
}

/// How many bytes a [`FileContent`] takes.
pub const FILECONTENT_SIZE: usize = 8;

/// Read from or write to a file; in a write request, and in the reply to a read
/// request, the content follows.
#[derive(Clone, Copy, PartialEq, Eq, Structural, Debug)]
pub struct FileContent {
    pub fd: i32,
    pub content_size: u32,
}

impl FileContent {
    /// The fields at the start of `s`.
    pub open spec fn parse(s: Seq<u8>) -> FileContent {
        FileContent {
            fd: wire::i32_at(s, 0),
            content_size: wire::u32_at(s, 4),
        }
    }

    /// The fields as they go on the wire.
    pub open spec fn bytes(self) -> Seq<u8> {
        wire::le_bytes(self.fd as int, 4)
            + wire::le_bytes(self.content_size as int, 4)
    }

    /// Reads the fields at the start of `data`.
    pub fn decode(data: &[u8]) -> (r: FileContent)
        requires
            data@.len() >= FILECONTENT_SIZE,
        ensures
            r == FileContent::parse(data@),
    {
        FileContent {
            fd: wire::read_i32(data, 0),
            content_size: wire::read_u32(data, 4),
        }
    }

    /// Gives the bytes of the fields.
    pub fn encode(&self) -> (r: Vec<u8>)
        ensures
            r@ == self.bytes(),
    {
        let mut out: Vec<u8> = Vec::new();
        wire::push_i32(&mut out, self.fd);
        wire::push_u32(&mut out, self.content_size);
        out
    }
}

/// How many bytes a [`Seek`] takes.
pub const SEEK_SIZE: usize = 12;

/// Move the position in a file.
#[derive(Clone, Copy, PartialEq, Eq, Structural, Debug)]
pub struct Seek {
    pub fd: i32,
    pub whence: i32,
    pub offset: i32,
}

impl Seek {
    /// The fields at the start of `s`.
    pub open spec fn parse(s: Seq<u8>) -> Seek {
        Seek {
            fd: wire::i32_at(s, 0),
            whence: wire::i32_at(s, 4),
            offset: wire::i32_at(s, 8),
        }
    }

    /// The fields as they go on the wire.
    pub open spec fn bytes(self) -> Seq<u8> {
        wire::le_bytes(self.fd as int, 4)
            + wire::le_bytes(self.whence as int, 4)
            + wire::le_bytes(self.offset as int, 4)
    }

    /// Reads the fields at the start of `data`.
    pub fn decode(data: &[u8]) -> (r: Seek)
        requires
            data@.len() >= SEEK_SIZE,
        ensures
            r == Seek::parse(data@),
    {
        Seek {
            fd: wire::read_i32(data, 0),
            whence: wire::read_i32(data, 4),
            offset: wire::read_i32(data, 8),
        }
    }
}

/// How many bytes a [`FTruncate`] takes.
pub const FTRUNCATE_SIZE: usize = 8;

/// Set the size of a file.
#[derive(Clone, Copy, PartialEq, Eq, Structural, Debug)]
pub struct FTruncate {
    pub fd: i32,
    pub length: i32,
}

impl FTruncate {
    /// The fields at the start of `s`.
    pub open spec fn parse(s: Seq<u8>) -> FTruncate {
        FTruncate {
            fd: wire::i32_at(s, 0),
            length: wire::i32_at(s, 4),
        }
    }

    /// The fields as they go on the wire.
    pub open spec fn bytes(self) -> Seq<u8> {
        wire::le_bytes(self.fd as int, 4)
            + wire::le_bytes(self.length as int, 4)
    }

    /// Reads the fields at the start of `data`.
    pub fn decode(data: &[u8]) -> (r: FTruncate)
        requires
            data@.len() >= FTRUNCATE_SIZE,
        ensures
            r == FTruncate::parse(data@),
    {
        FTruncate {
            fd: wire::read_i32(data, 0),
            length: wire::read_i32(data, 4),
        }
    }
}

/// How many bytes a [`ReadDir`] takes.
pub const READDIR_SIZE: usize = 8;

/// The next entry of a directory; in the reply its name and a NUL byte follow.
#[derive(Clone, Copy, PartialEq, Eq, Structural, Debug)]
pub struct ReadDir {
    pub dir_id: i32,
    pub item_type: u32,
}

impl ReadDir {
    /// The fields at the start of `s`.
    pub open spec fn parse(s: Seq<u8>) -> ReadDir {
        ReadDir {
            dir_id: wire::i32_at(s, 0),
            item_type: wire::u32_at(s, 4),
        }
    }

    /// The fields as they go on the wire.
    pub open spec fn bytes(self) -> Seq<u8> {
        wire::le_bytes(self.dir_id as int, 4)
            + wire::le_bytes(self.item_type as int, 4)
    }

    /// Reads the fields at the start of `data`.
    pub fn decode(data: &[u8]) -> (r: ReadDir)
        requires
            data@.len() >= READDIR_SIZE,
        ensures
            r == ReadDir::parse(data@),
    {
        ReadDir {
            dir_id: wire::read_i32(data, 0),
            item_type: wire::read_u32(data, 4),
        }
    }

    /// Gives the bytes of the fields.
    pub fn encode(&self) -> (r: Vec<u8>)
        ensures
            r@ == self.bytes(),
    {
        let mut out: Vec<u8> = Vec::new();
        wire::push_i32(&mut out, self.dir_id);
        wire::push_u32(&mut out, self.item_type);
        out
    }
}

/// How many bytes a [`MkDir`] takes.
pub const MKDIR_SIZE: usize = 8;

/// Make a directory; the path follows.
#[derive(Clone, Copy, PartialEq, Eq, Structural, Debug)]
pub struct MkDir {
    pub mode: u32,
    pub reserved: u32,
}

impl MkDir {
    /// The fields at the start of `s`.
    pub open spec fn parse(s: Seq<u8>) -> MkDir {
        MkDir {
            mode: wire::u32_at(s, 0),
            reserved: wire::u32_at(s, 4),
        }
    }

    /// The fields as they go on the wire.
    pub open spec fn bytes(self) -> Seq<u8> {
        wire::le_bytes(self.mode as int, 4)
            + wire::le_bytes(self.reserved as int, 4)
    }

    /// Reads the fields at the start of `data`.
    pub fn decode(data: &[u8]) -> (r: MkDir)
        requires
            data@.len() >= MKDIR_SIZE,
        ensures
            r == MkDir::parse(data@),
    {
        MkDir {
            mode: wire::read_u32(data, 0),
            reserved: wire::read_u32(data, 4),
        }
    }
}

/// How many bytes a [`Statfs`] takes.
pub const STATFS_SIZE: usize = 64;

/// The state of a file system; in the request the path follows.
#[derive(Clone, Copy, PartialEq, Eq, Structural, Debug)]
pub struct Statfs {
    pub fstype: u32,
    pub reserved: u32,
    pub namelen: i64,
    pub bsize: i64,
    pub blocks: u64,
    pub bfree: u64,
    pub bavail: u64,
    pub files: u64,
    pub ffree: u64,
}

impl Statfs {
    /// The fields at the start of `s`.
    pub open spec fn parse(s: Seq<u8>) -> Statfs {
        Statfs {
            fstype: wire::u32_at(s, 0),
            reserved: wire::u32_at(s, 4),
            namelen: wire::i64_at(s, 8),
            bsize: wire::i64_at(s, 16),
            blocks: wire::u64_at(s, 24),
            bfree: wire::u64_at(s, 32),
            bavail: wire::u64_at(s, 40),
            files: wire::u64_at(s, 48),
            ffree: wire::u64_at(s, 56),
        }
    }

    /// The fields as they go on the wire.
    pub open spec fn bytes(self) -> Seq<u8> {
        wire::le_bytes(self.fstype as int, 4)
            + wire::le_bytes(self.reserved as int, 4)
            + wire::le_bytes(self.namelen as int, 8)
            + wire::le_bytes(self.bsize as int, 8)
            + wire::le_bytes(self.blocks as int, 8)
            + wire::le_bytes(self.bfree as int, 8)
            + wire::le_bytes(self.bavail as int, 8)
            + wire::le_bytes(self.files as int, 8)
            + wire::le_bytes(self.ffree as int, 8)
    }

    /// Gives the bytes of the fields.
    pub fn encode(&self) -> (r: Vec<u8>)
        ensures
            r@ == self.bytes(),
    {
        let mut out: Vec<u8> = Vec::new();
        wire::push_u32(&mut out, self.fstype);
        wire::push_u32(&mut out, self.reserved);
        wire::push_i64(&mut out, self.namelen);
        wire::push_i64(&mut out, self.bsize);
        wire::push_u64(&mut out, self.blocks);
        wire::push_u64(&mut out, self.bfree);
        wire::push_u64(&mut out, self.bavail);
        wire::push_u64(&mut out, self.files);
        wire::push_u64(&mut out, self.ffree);
        out
    }
}

/// How many bytes a [`Stat`] takes.
pub const STAT_SIZE: usize = 88;

/// The state of a file; in the request the path or the id of the open file follows.
#[derive(Clone, Copy, PartialEq, Eq, Structural, Debug)]
pub struct Stat {
    pub dev: u32,
    pub mode: u32,
    pub rdev: u32,
    pub ino: u16,
    pub nlink: u16,
    pub size: i64,
    pub atim_sec: i64,
    pub atim_nsec: i64,
    pub mtim_sec: i64,
    pub mtim_nsec: i64,
    pub ctim_sec: i64,
    pub ctim_nsec: i64,
    pub blocks: u64,
    pub uid: i16,
    pub gid: i16,
    pub blksize: i16,
    pub reserved: u16,
}

impl Stat {
    /// The fields at the start of `s`.
    pub open spec fn parse(s: Seq<u8>) -> Stat {
        Stat {
            dev: wire::u32_at(s, 0),
            mode: wire::u32_at(s, 4),
            rdev: wire::u32_at(s, 8),
            ino: wire::u16_at(s, 12),
            nlink: wire::u16_at(s, 14),
            size: wire::i64_at(s, 16),
            atim_sec: wire::i64_at(s, 24),
            atim_nsec: wire::i64_at(s, 32),
            mtim_sec: wire::i64_at(s, 40),
            mtim_nsec: wire::i64_at(s, 48),
            ctim_sec: wire::i64_at(s, 56),
            ctim_nsec: wire::i64_at(s, 64),
            blocks: wire::u64_at(s, 72),
            uid: wire::i16_at(s, 80),
            gid: wire::i16_at(s, 82),
            blksize: wire::i16_at(s, 84),
            reserved: wire::u16_at(s, 86),
        }
    }

    /// The fields as they go on the wire.
    pub open spec fn bytes(self) -> Seq<u8> {
        wire::le_bytes(self.dev as int, 4)
            + wire::le_bytes(self.mode as int, 4)
            + wire::le_bytes(self.rdev as int, 4)
            + wire::le_bytes(self.ino as int, 2)
            + wire::le_bytes(self.nlink as int, 2)
            + wire::le_bytes(self.size as int, 8)
            + wire::le_bytes(self.atim_sec as int, 8)
            + wire::le_bytes(self.atim_nsec as int, 8)
            + wire::le_bytes(self.mtim_sec as int, 8)
            + wire::le_bytes(self.mtim_nsec as int, 8)
            + wire::le_bytes(self.ctim_sec as int, 8)
            + wire::le_bytes(self.ctim_nsec as int, 8)
            + wire::le_bytes(self.blocks as int, 8)
            + wire::le_bytes(self.uid as int, 2)
            + wire::le_bytes(self.gid as int, 2)
            + wire::le_bytes(self.blksize as int, 2)
            + wire::le_bytes(self.reserved as int, 2)
    }

    /// Reads the fields at the start of `data`.
    pub fn decode(data: &[u8]) -> (r: Stat)
        requires
            data@.len() >= STAT_SIZE,
        ensures
            r == Stat::parse(data@),
    {
        Stat {
            dev: wire::read_u32(data, 0),
            mode: wire::read_u32(data, 4),
            rdev: wire::read_u32(data, 8),
            ino: wire::read_u16(data, 12),
            nlink: wire::read_u16(data, 14),
            size: wire::read_i64(data, 16),
            atim_sec: wire::read_i64(data, 24),
            atim_nsec: wire::read_i64(data, 32),
            mtim_sec: wire::read_i64(data, 40),
            mtim_nsec: wire::read_i64(data, 48),
            ctim_sec: wire::read_i64(data, 56),
            ctim_nsec: wire::read_i64(data, 64),
            blocks: wire::read_u64(data, 72),
            uid: wire::read_i16(data, 80),
            gid: wire::read_i16(data, 82),
            blksize: wire::read_i16(data, 84),
            reserved: wire::read_u16(data, 86),
        }
    }

    /// Gives the bytes of the fields.
    pub fn encode(&self) -> (r: Vec<u8>)
        ensures
            r@ == self.bytes(),
    {
        let mut out: Vec<u8> = Vec::new();
        wire::push_u32(&mut out, self.dev);
        wire::push_u32(&mut out, self.mode);
        wire::push_u32(&mut out, self.rdev);
        wire::push_u16(&mut out, self.ino);
        wire::push_u16(&mut out, self.nlink);
        wire::push_i64(&mut out, self.size);
        wire::push_i64(&mut out, self.atim_sec);
        wire::push_i64(&mut out, self.atim_nsec);
        wire::push_i64(&mut out, self.mtim_sec);
        wire::push_i64(&mut out, self.mtim_nsec);
        wire::push_i64(&mut out, self.ctim_sec);
        wire::push_i64(&mut out, self.ctim_nsec);
        wire::push_u64(&mut out, self.blocks);
        wire::push_i16(&mut out, self.uid);
        wire::push_i16(&mut out, self.gid);
        wire::push_i16(&mut out, self.blksize);
        wire::push_u16(&mut out, self.reserved);
        out
    }
}

/// How many bytes a [`Chstat`] takes.
pub const CHSTAT_SIZE: usize = 92;

/// Change the state of a file; the path or the id of the open file follows.
#[derive(Clone, Copy, PartialEq, Eq, Structural, Debug)]
pub struct Chstat {
    pub flags: i32,
    pub stat: Stat,
}

impl Chstat {
    /// The fields at the start of `s`.
    pub open spec fn parse(s: Seq<u8>) -> Chstat {
        Chstat { flags: wire::i32_at(s, 0), stat: Stat::parse(s.skip(4)) }
    }

    /// The fields as they go on the wire.
    pub open spec fn bytes(self) -> Seq<u8> {
        wire::le_bytes(self.flags as int, 4) + self.stat.bytes()
    }

    /// Reads the fields at the start of `data`.
    pub fn decode(data: &[u8]) -> (r: Chstat)
        requires
            data@.len() >= CHSTAT_SIZE,
        ensures
            r == Chstat::parse(data@),
    {
        let rest = slice_subrange(data, 4, data.len());
        assert(rest@ =~= data@.skip(4));
        Chstat { flags: wire::read_i32(data, 0), stat: Stat::decode(rest) }
    }
}

/// The fields of a [`Header`] read back as they were written, whatever follows.
pub proof fn law_header_reads_back(v: Header, rest: Seq<u8>)
    ensures
        v.bytes().len() == HEADER_SIZE,
        Header::parse(v.bytes() + rest) == v,
{
    let s = v.bytes() + rest;
    wire::lemma_le_bytes_len(v.command as int, 4);
    wire::lemma_le_bytes_len(v.result as int, 4);
    wire::lemma_le_bytes_len(v.cookie as int, 8);
    assert(s.subrange(0, 4) =~= wire::le_bytes(v.command as int, 4));
    wire::law_u32_reads_back(s, 0, v.command);
    assert(s.subrange(4, 8) =~= wire::le_bytes(v.result as int, 4));
    wire::law_i32_reads_back(s, 4, v.result);
    assert(s.subrange(8, 16) =~= wire::le_bytes(v.cookie as int, 8));
    wire::law_u64_reads_back(s, 8, v.cookie);
}

/// The fields of a [`Header`] that were read write the bytes they were read from.
pub proof fn law_header_writes_back(s: Seq<u8>)
    requires
        s.len() >= HEADER_SIZE,
    ensures
        Header::parse(s).bytes() == s.take(HEADER_SIZE as int),
{
    wire::law_u32_writes_back(s, 0);
    wire::law_i32_writes_back(s, 4);
    wire::law_u64_writes_back(s, 8);
    assert(Header::parse(s).bytes() =~= s.take(HEADER_SIZE as int));
}

/// The fields of a [`FileContent`] read back as they were written, whatever follows.
pub proof fn law_file_content_reads_back(v: FileContent, rest: Seq<u8>)
    ensures
        v.bytes().len() == FILECONTENT_SIZE,
        FileContent::parse(v.bytes() + rest) == v,
{
    let s = v.bytes() + rest;
    wire::lemma_le_bytes_len(v.fd as int, 4);
    wire::lemma_le_bytes_len(v.content_size as int, 4);
    assert(s.subrange(0, 4) =~= wire::le_bytes(v.fd as int, 4));
    wire::law_i32_reads_back(s, 0, v.fd);
    assert(s.subrange(4, 8) =~= wire::le_bytes(v.content_size as int, 4));
    wire::law_u32_reads_back(s, 4, v.content_size);
}

/// The fields of a [`FileContent`] that were read write the bytes they were read from.
pub proof fn law_file_content_writes_back(s: Seq<u8>)
    requires
        s.len() >= FILECONTENT_SIZE,
    ensures
        FileContent::parse(s).bytes() == s.take(FILECONTENT_SIZE as int),
{
    wire::law_i32_writes_back(s, 0);
    wire::law_u32_writes_back(s, 4);
    assert(FileContent::parse(s).bytes() =~= s.take(FILECONTENT_SIZE as int));
}

/// The fields of a [`ReadDir`] read back as they were written, whatever follows.
pub proof fn law_read_dir_reads_back(v: ReadDir, rest: Seq<u8>)
    ensures
        v.bytes().len() == READDIR_SIZE,
        ReadDir::parse(v.bytes() + rest) == v,
{
    let s = v.bytes() + rest;
    wire::lemma_le_bytes_len(v.dir_id as int, 4);
    wire::lemma_le_bytes_len(v.item_type as int, 4);
    assert(s.subrange(0, 4) =~= wire::le_bytes(v.dir_id as int, 4));
    wire::law_i32_reads_back(s, 0, v.dir_id);
    assert(s.subrange(4, 8) =~= wire::le_bytes(v.item_type as int, 4));
    wire::law_u32_reads_back(s, 4, v.item_type);
}

/// The fields of a [`ReadDir`] that were read write the bytes they were read from.
pub proof fn law_read_dir_writes_back(s: Seq<u8>)
    requires
        s.len() >= READDIR_SIZE,
    ensures
        ReadDir::parse(s).bytes() == s.take(READDIR_SIZE as int),
{
    wire::law_i32_writes_back(s, 0);
    wire::law_u32_writes_back(s, 4);
    assert(ReadDir::parse(s).bytes() =~= s.take(READDIR_SIZE as int));
}

/// The fields of a [`Statfs`] read back as they were written, whatever follows.
pub proof fn law_statfs_reads_back(v: Statfs, rest: Seq<u8>)
    ensures
        v.bytes().len() == STATFS_SIZE,
        Statfs::parse(v.bytes() + rest) == v,
{
    let s = v.bytes() + rest;
    wire::lemma_le_bytes_len(v.fstype as int, 4);
    wire::lemma_le_bytes_len(v.reserved as int, 4);
    wire::lemma_le_bytes_len(v.namelen as int, 8);
    wire::lemma_le_bytes_len(v.bsize as int, 8);
    wire::lemma_le_bytes_len(v.blocks as int, 8);
    wire::lemma_le_bytes_len(v.bfree as int, 8);
    wire::lemma_le_bytes_len(v.bavail as int, 8);
    wire::lemma_le_bytes_len(v.files as int, 8);
    wire::lemma_le_bytes_len(v.ffree as int, 8);
    assert(s.subrange(0, 4) =~= wire::le_bytes(v.fstype as int, 4));
    wire::law_u32_reads_back(s, 0, v.fstype);
    assert(s.subrange(4, 8) =~= wire::le_bytes(v.reserved as int, 4));
    wire::law_u32_reads_back(s, 4, v.reserved);
    assert(s.subrange(8, 16) =~= wire::le_bytes(v.namelen as int, 8));
    wire::law_i64_reads_back(s, 8, v.namelen);
    assert(s.subrange(16, 24) =~= wire::le_bytes(v.bsize as int, 8));
    wire::law_i64_reads_back(s, 16, v.bsize);
    assert(s.subrange(24, 32) =~= wire::le_bytes(v.blocks as int, 8));
    wire::law_u64_reads_back(s, 24, v.blocks);
    assert(s.subrange(32, 40) =~= wire::le_bytes(v.bfree as int, 8));
    wire::law_u64_reads_back(s, 32, v.bfree);
    assert(s.subrange(40, 48) =~= wire::le_bytes(v.bavail as int, 8));
    wire::law_u64_reads_back(s, 40, v.bavail);
    assert(s.subrange(48, 56) =~= wire::le_bytes(v.files as int, 8));
    wire::law_u64_reads_back(s, 48, v.files);
    assert(s.subrange(56, 64) =~= wire::le_bytes(v.ffree as int, 8));
    wire::law_u64_reads_back(s, 56, v.ffree);
}

/// The fields of a [`Statfs`] that were read write the bytes they were read from.
pub proof fn law_statfs_writes_back(s: Seq<u8>)
    requires
        s.len() >= STATFS_SIZE,
    ensures
        Statfs::parse(s).bytes() == s.take(STATFS_SIZE as int),
{
    wire::law_u32_writes_back(s, 0);
    wire::law_u32_writes_back(s, 4);
    wire::law_i64_writes_back(s, 8);
    wire::law_i64_writes_back(s, 16);
    wire::law_u64_writes_back(s, 24);
    wire::law_u64_writes_back(s, 32);
    wire::law_u64_writes_back(s, 40);
    wire::law_u64_writes_back(s, 48);
    wire::law_u64_writes_back(s, 56);
    assert(Statfs::parse(s).bytes() =~= s.take(STATFS_SIZE as int));
}

/// The fields of a [`Stat`] read back as they were written, whatever follows.
pub proof fn law_stat_reads_back(v: Stat, rest: Seq<u8>)
    ensures
        v.bytes().len() == STAT_SIZE,
        Stat::parse(v.bytes() + rest) == v,
{
    let s = v.bytes() + rest;
    wire::lemma_le_bytes_len(v.dev as int, 4);
    wire::lemma_le_bytes_len(v.mode as int, 4);
    wire::lemma_le_bytes_len(v.rdev as int, 4);
    wire::lemma_le_bytes_len(v.ino as int, 2);
    wire::lemma_le_bytes_len(v.nlink as int, 2);
    wire::lemma_le_bytes_len(v.size as int, 8);
    wire::lemma_le_bytes_len(v.atim_sec as int, 8);
    wire::lemma_le_bytes_len(v.atim_nsec as int, 8);
    wire::lemma_le_bytes_len(v.mtim_sec as int, 8);
    wire::lemma_le_bytes_len(v.mtim_nsec as int, 8);
    wire::lemma_le_bytes_len(v.ctim_sec as int, 8);
    wire::lemma_le_bytes_len(v.ctim_nsec as int, 8);
    wire::lemma_le_bytes_len(v.blocks as int, 8);
    wire::lemma_le_bytes_len(v.uid as int, 2);
    wire::lemma_le_bytes_len(v.gid as int, 2);
    wire::lemma_le_bytes_len(v.blksize as int, 2);
    wire::lemma_le_bytes_len(v.reserved as int, 2);
    assert(s.subrange(0, 4) =~= wire::le_bytes(v.dev as int, 4));
    wire::law_u32_reads_back(s, 0, v.dev);
    assert(s.subrange(4, 8) =~= wire::le_bytes(v.mode as int, 4));
    wire::law_u32_reads_back(s, 4, v.mode);
    assert(s.subrange(8, 12) =~= wire::le_bytes(v.rdev as int, 4));
    wire::law_u32_reads_back(s, 8, v.rdev);
    assert(s.subrange(12, 14) =~= wire::le_bytes(v.ino as int, 2));
    wire::law_u16_reads_back(s, 12, v.ino);
    assert(s.subrange(14, 16) =~= wire::le_bytes(v.nlink as int, 2));
    wire::law_u16_reads_back(s, 14, v.nlink);
    assert(s.subrange(16, 24) =~= wire::le_bytes(v.size as int, 8));
    wire::law_i64_reads_back(s, 16, v.size);
    assert(s.subrange(24, 32) =~= wire::le_bytes(v.atim_sec as int, 8));
    wire::law_i64_reads_back(s, 24, v.atim_sec);
    assert(s.subrange(32, 40) =~= wire::le_bytes(v.atim_nsec as int, 8));
    wire::law_i64_reads_back(s, 32, v.atim_nsec);
    assert(s.subrange(40, 48) =~= wire::le_bytes(v.mtim_sec as int, 8));
    wire::law_i64_reads_back(s, 40, v.mtim_sec);
    assert(s.subrange(48, 56) =~= wire::le_bytes(v.mtim_nsec as int, 8));
    wire::law_i64_reads_back(s, 48, v.mtim_nsec);
    assert(s.subrange(56, 64) =~= wire::le_bytes(v.ctim_sec as int, 8));
    wire::law_i64_reads_back(s, 56, v.ctim_sec);
    assert(s.subrange(64, 72) =~= wire::le_bytes(v.ctim_nsec as int, 8));
    wire::law_i64_reads_back(s, 64, v.ctim_nsec);
    assert(s.subrange(72, 80) =~= wire::le_bytes(v.blocks as int, 8));
    wire::law_u64_reads_back(s, 72, v.blocks);
    assert(s.subrange(80, 82) =~= wire::le_bytes(v.uid as int, 2));
    wire::law_i16_reads_back(s, 80, v.uid);
    assert(s.subrange(82, 84) =~= wire::le_bytes(v.gid as int, 2));
    wire::law_i16_reads_back(s, 82, v.gid);
    assert(s.subrange(84, 86) =~= wire::le_bytes(v.blksize as int, 2));
    wire::law_i16_reads_back(s, 84, v.blksize);
    assert(s.subrange(86, 88) =~= wire::le_bytes(v.reserved as int, 2));
    wire::law_u16_reads_back(s, 86, v.reserved);
}

/// The fields of a [`Stat`] that were read write the bytes they were read from.
pub proof fn law_stat_writes_back(s: Seq<u8>)
    requires
        s.len() >= STAT_SIZE,
    ensures
        Stat::parse(s).bytes() == s.take(STAT_SIZE as int),
{
    wire::law_u32_writes_back(s, 0);
    wire::law_u32_writes_back(s, 4);
    wire::law_u32_writes_back(s, 8);
    wire::law_u16_writes_back(s, 12);
    wire::law_u16_writes_back(s, 14);
    wire::law_i64_writes_back(s, 16);
    wire::law_i64_writes_back(s, 24);
    wire::law_i64_writes_back(s, 32);
    wire::law_i64_writes_back(s, 40);
    wire::law_i64_writes_back(s, 48);
    wire::law_i64_writes_back(s, 56);
    wire::law_i64_writes_back(s, 64);
    wire::law_u64_writes_back(s, 72);
    wire::law_i16_writes_back(s, 80);
    wire::law_i16_writes_back(s, 82);
    wire::law_i16_writes_back(s, 84);
    wire::law_u16_writes_back(s, 86);
    assert(Stat::parse(s).bytes() =~= s.take(STAT_SIZE as int));
}

/// The fields of an [`Open`] read back as they were written, whatever follows.
pub proof fn law_open_reads_back(v: Open, rest: Seq<u8>)
    ensures
        v.bytes().len() == OPEN_SIZE,
        Open::parse(v.bytes() + rest) == v,
{
    let s = v.bytes() + rest;
    wire::lemma_le_bytes_len(v.flags as int, 4);
    wire::lemma_le_bytes_len(v.mode as int, 4);
    assert(s.subrange(0, 4) =~= wire::le_bytes(v.flags as int, 4));
    wire::law_u32_reads_back(s, 0, v.flags);
    assert(s.subrange(4, 8) =~= wire::le_bytes(v.mode as int, 4));
    wire::law_u32_reads_back(s, 4, v.mode);
}

/// The fields of a [`Seek`] read back as they were written, whatever follows.
pub proof fn law_seek_reads_back(v: Seek, rest: Seq<u8>)
    ensures
        v.bytes().len() == SEEK_SIZE,
        Seek::parse(v.bytes() + rest) == v,
{
    let s = v.bytes() + rest;
    wire::lemma_le_bytes_len(v.fd as int, 4);
    wire::lemma_le_bytes_len(v.whence as int, 4);
    wire::lemma_le_bytes_len(v.offset as int, 4);
    assert(s.subrange(0, 4) =~= wire::le_bytes(v.fd as int, 4));
    wire::law_i32_reads_back(s, 0, v.fd);
    assert(s.subrange(4, 8) =~= wire::le_bytes(v.whence as int, 4));
    wire::law_i32_reads_back(s, 4, v.whence);
    assert(s.subrange(8, 12) =~= wire::le_bytes(v.offset as int, 4));
    wire::law_i32_reads_back(s, 8, v.offset);
}

/// The fields of an [`FTruncate`] read back as they were written, whatever follows.
pub proof fn law_ftruncate_reads_back(v: FTruncate, rest: Seq<u8>)
    ensures
        v.bytes().len() == FTRUNCATE_SIZE,
        FTruncate::parse(v.bytes() + rest) == v,
{
    let s = v.bytes() + rest;
    wire::lemma_le_bytes_len(v.fd as int, 4);
    wire::lemma_le_bytes_len(v.length as int, 4);
    assert(s.subrange(0, 4) =~= wire::le_bytes(v.fd as int, 4));
    wire::law_i32_reads_back(s, 0, v.fd);
    assert(s.subrange(4, 8) =~= wire::le_bytes(v.length as int, 4));
    wire::law_i32_reads_back(s, 4, v.length);
}

/// The fields of a [`MkDir`] read back as they were written, whatever follows.
pub proof fn law_mkdir_reads_back(v: MkDir, rest: Seq<u8>)
    ensures
        v.bytes().len() == MKDIR_SIZE,
        MkDir::parse(v.bytes() + rest) == v,
{
    let s = v.bytes() + rest;
    wire::lemma_le_bytes_len(v.mode as int, 4);
    wire::lemma_le_bytes_len(v.reserved as int, 4);
    assert(s.subrange(0, 4) =~= wire::le_bytes(v.mode as int, 4));
    wire::law_u32_reads_back(s, 0, v.mode);
    assert(s.subrange(4, 8) =~= wire::le_bytes(v.reserved as int, 4));
    wire::law_u32_reads_back(s, 4, v.reserved);
}

/// The fields of a [`Chstat`] read back as they were written, whatever follows.
pub proof fn law_chstat_reads_back(v: Chstat, rest: Seq<u8>)
    ensures
        v.bytes().len() == CHSTAT_SIZE,
        Chstat::parse(v.bytes() + rest) == v,
{
    let s = v.bytes() + rest;
    wire::lemma_le_bytes_len(v.flags as int, 4);
    assert(s.subrange(0, 4) =~= wire::le_bytes(v.flags as int, 4));
    wire::law_i32_reads_back(s, 0, v.flags);
    law_stat_reads_back(v.stat, rest);
    assert(s.skip(4) =~= v.stat.bytes() + rest);
}

/// The numbers of the protocol.
pub proof fn law_numbers_of_the_protocol()
    ensures
        CMD_OPEN == 0 && CMD_CLOSE == 1 && CMD_READ == 2 && CMD_WRITE == 3 && CMD_SEEK == 4,
        CMD_SYNC == 6 && CMD_FSTAT == 8 && CMD_FTRUNCATE == 9,
        CMD_OPENDIR == 10 && CMD_READDIR == 11 && CMD_REWINDDIR == 12 && CMD_CLOSEDIR == 13,
        CMD_STATFS == 14 && CMD_UNLINK == 15 && CMD_MKDIR == 16 && CMD_RMDIR == 17,
        CMD_RENAME == 18 && CMD_STAT == 19 && CMD_FCHSTAT == 20 && CMD_CHSTAT == 21,
        O_READ == 0x1 && O_WRITE == 0x2 && O_CREAT == 0x4 && O_EXCL == 0x8 && O_APPEND == 0x10,
        O_TRUNC == 0x20 && O_NONBLOCK == 0x40 && O_SYNC == 0x80 && O_DIRECT == 0x200,
        O_DIRECTORY == 0x800 && O_NOFOLLOW == 0x1000 && O_LARGEFILE == 0x2000,
        O_NOATIME == 0x40000,
        DT_UNKNOWN == 0 && DT_FIFO == 1 && DT_CHR == 2 && DT_DIR == 4 && DT_BLK == 6,
        DT_REG == 8 && DT_LNK == 10 && DT_SOCK == 12,
        HEADER_SIZE == 16 && OPEN_SIZE == 8 && FILECONTENT_SIZE == 8 && SEEK_SIZE == 12,
        FTRUNCATE_SIZE == 8 && READDIR_SIZE == 8 && MKDIR_SIZE == 8 && STATFS_SIZE == 64,
        STAT_SIZE == 88 && CHSTAT_SIZE == 92,
{
}

/// Where the fields of a [`Stat`] stand.
pub proof fn law_stat_layout(v: Stat)
    ensures
        v.bytes().len() == 88,
        v.bytes().subrange(0, 4) == wire::le_bytes(v.dev as int, 4),
        v.bytes().subrange(4, 8) == wire::le_bytes(v.mode as int, 4),
        v.bytes().subrange(8, 12) == wire::le_bytes(v.rdev as int, 4),
        v.bytes().subrange(12, 14) == wire::le_bytes(v.ino as int, 2),
        v.bytes().subrange(14, 16) == wire::le_bytes(v.nlink as int, 2),
        v.bytes().subrange(16, 24) == wire::le_bytes(v.size as int, 8),
        v.bytes().subrange(24, 32) == wire::le_bytes(v.atim_sec as int, 8),
        v.bytes().subrange(32, 40) == wire::le_bytes(v.atim_nsec as int, 8),
        v.bytes().subrange(40, 48) == wire::le_bytes(v.mtim_sec as int, 8),
        v.bytes().subrange(48, 56) == wire::le_bytes(v.mtim_nsec as int, 8),
        v.bytes().subrange(56, 64) == wire::le_bytes(v.ctim_sec as int, 8),
        v.bytes().subrange(64, 72) == wire::le_bytes(v.ctim_nsec as int, 8),
        v.bytes().subrange(72, 80) == wire::le_bytes(v.blocks as int, 8),
        v.bytes().subrange(80, 82) == wire::le_bytes(v.uid as int, 2),
        v.bytes().subrange(82, 84) == wire::le_bytes(v.gid as int, 2),
        v.bytes().subrange(84, 86) == wire::le_bytes(v.blksize as int, 2),
        v.bytes().subrange(86, 88) == wire::le_bytes(v.reserved as int, 2),
{
    wire::lemma_le_bytes_len(v.dev as int, 4);
    wire::lemma_le_bytes_len(v.mode as int, 4);
    wire::lemma_le_bytes_len(v.rdev as int, 4);
    wire::lemma_le_bytes_len(v.ino as int, 2);
    wire::lemma_le_bytes_len(v.nlink as int, 2);
    wire::lemma_le_bytes_len(v.size as int, 8);
    wire::lemma_le_bytes_len(v.atim_sec as int, 8);
    wire::lemma_le_bytes_len(v.atim_nsec as int, 8);
    wire::lemma_le_bytes_len(v.mtim_sec as int, 8);
    wire::lemma_le_bytes_len(v.mtim_nsec as int, 8);
    wire::lemma_le_bytes_len(v.ctim_sec as int, 8);
    wire::lemma_le_bytes_len(v.ctim_nsec as int, 8);
    wire::lemma_le_bytes_len(v.blocks as int, 8);
    wire::lemma_le_bytes_len(v.uid as int, 2);
    wire::lemma_le_bytes_len(v.gid as int, 2);
    wire::lemma_le_bytes_len(v.blksize as int, 2);
    wire::lemma_le_bytes_len(v.reserved as int, 2);
}

/// Where the fields of a [`Chstat`] stand.
pub proof fn law_chstat_layout(v: Chstat)
    ensures
        v.bytes().len() == 92,
        v.bytes().subrange(0, 4) == wire::le_bytes(v.flags as int, 4),
        v.bytes().skip(4) == v.stat.bytes(),
{
    wire::lemma_le_bytes_len(v.flags as int, 4);
    law_stat_layout(v.stat);
}

/// Where the fields of a [`Statfs`] stand.
pub proof fn law_statfs_layout(v: Statfs)
    ensures
        v.bytes().len() == 64,
        v.bytes().subrange(0, 4) == wire::le_bytes(v.fstype as int, 4),
        v.bytes().subrange(4, 8) == wire::le_bytes(v.reserved as int, 4),
        v.bytes().subrange(8, 16) == wire::le_bytes(v.namelen as int, 8),
        v.bytes().subrange(16, 24) == wire::le_bytes(v.bsize as int, 8),
        v.bytes().subrange(24, 32) == wire::le_bytes(v.blocks as int, 8),
        v.bytes().subrange(32, 40) == wire::le_bytes(v.bfree as int, 8),
        v.bytes().subrange(40, 48) == wire::le_bytes(v.bavail as int, 8),
        v.bytes().subrange(48, 56) == wire::le_bytes(v.files as int, 8),
        v.bytes().subrange(56, 64) == wire::le_bytes(v.ffree as int, 8),
{
    wire::lemma_le_bytes_len(v.fstype as int, 4);
    wire::lemma_le_bytes_len(v.reserved as int, 4);
    wire::lemma_le_bytes_len(v.namelen as int, 8);
    wire::lemma_le_bytes_len(v.bsize as int, 8);
    wire::lemma_le_bytes_len(v.blocks as int, 8);
    wire::lemma_le_bytes_len(v.bfree as int, 8);
    wire::lemma_le_bytes_len(v.bavail as int, 8);
    wire::lemma_le_bytes_len(v.files as int, 8);
    wire::lemma_le_bytes_len(v.ffree as int, 8);
}

/// Where the fields of the small messages stand: one behind the other, each at four
/// bytes, with anything behind the last.
pub proof fn law_small_messages_layout(a: u32, b: u32, i: i32, j: i32, k: i32, rest: Seq<u8>)
    ensures
        Open::parse(wire::le_bytes(a as int, 4) + wire::le_bytes(b as int, 4) + rest) == (Open {
            flags: a,
            mode: b,
        }),
        MkDir::parse(wire::le_bytes(a as int, 4) + wire::le_bytes(b as int, 4) + rest) == (MkDir {
            mode: a,
            reserved: b,
        }),
        FileContent::parse(wire::le_bytes(i as int, 4) + wire::le_bytes(a as int, 4) + rest) == (
        FileContent { fd: i, content_size: a }),
        ReadDir::parse(wire::le_bytes(i as int, 4) + wire::le_bytes(a as int, 4) + rest) == (
        ReadDir { dir_id: i, item_type: a }),
        FTruncate::parse(wire::le_bytes(i as int, 4) + wire::le_bytes(j as int, 4) + rest) == (
        FTruncate { fd: i, length: j }),
        Seek::parse(
            wire::le_bytes(i as int, 4) + wire::le_bytes(j as int, 4) + wire::le_bytes(
                k as int,
                4,
            ) + rest,
        ) == (Seek { fd: i, whence: j, offset: k }),
        (FileContent { fd: i, content_size: a }).bytes() == wire::le_bytes(i as int, 4)
            + wire::le_bytes(a as int, 4),
        (ReadDir { dir_id: i, item_type: a }).bytes() == wire::le_bytes(i as int, 4)
            + wire::le_bytes(a as int, 4),
{
    law_open_reads_back(Open { flags: a, mode: b }, rest);
    law_mkdir_reads_back(MkDir { mode: a, reserved: b }, rest);
    law_file_content_reads_back(FileContent { fd: i, content_size: a }, rest);
    law_read_dir_reads_back(ReadDir { dir_id: i, item_type: a }, rest);
    law_ftruncate_reads_back(FTruncate { fd: i, length: j }, rest);
    law_seek_reads_back(Seek { fd: i, whence: j, offset: k }, rest);
}

} // verus!
