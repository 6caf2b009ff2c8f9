//! What the host did for a task, and what that comes to.

use vstd::prelude::*;
use crate::convert;
use crate::convert::{convert_file_type, convert_size, convert_stat, convert_statfs};
use crate::convert::{FileType, HostStat, HostStatfs};
use crate::host::HostConstants;
use crate::msgs::{Header, ReadDir};
use crate::reply;
use crate::reply::{bare_reply, Reply, RESULT_DO_NOT_SEND_RESPONSE};
use crate::task::{ChangeProgress, Task};

verus! {

/// A directory entry as the host has it: its kind, if the host could tell, and the
/// bytes of its name.
#[derive(PartialEq, Eq, Debug)]
pub struct DirEntry<B> {
    pub file_type: Option<FileType>,
    pub name: B,
}

/// What came of a task. `F` and `D` are the host's handles, `B` holds bytes.
#[derive(PartialEq, Eq, Debug)]
pub enum Event<F, D, B> {
    /// The host failed, with this error number.
    Failed(i32),
    /// The file is open.
    Opened(F),
    /// The directory is open.
    OpenedDir(D),
    /// The next entry of the directory; none at its end.
    Entry(Option<DirEntry<B>>),
    /// So many bytes were written.
    Written(usize),
    /// The state of the file system.
    Statfs(HostStatfs),
    /// The state of the file.
    Stat(HostStat),
    /// The task is done, and there is nothing to tell.
    Done,
}

impl<F, D> View for Event<F, D, Vec<u8>> {
    type V = Event<F, D, Seq<u8>>;

    open spec fn view(&self) -> Event<F, D, Seq<u8>> {
        match *self {
            Event::Failed(e) => Event::Failed(e),
            Event::Opened(handle) => Event::Opened(handle),
            Event::OpenedDir(handle) => Event::OpenedDir(handle),
            Event::Entry(Some(entry)) => Event::Entry(
                Some(DirEntry { file_type: entry.file_type, name: entry.name@ }),
            ),
            Event::Entry(None) => Event::Entry(None),
            Event::Written(size) => Event::Written(size),
            Event::Statfs(fs) => Event::Statfs(fs),
            Event::Stat(st) => Event::Stat(st),
            Event::Done => Event::Done,
        }
    }
}

/// The event is one that the task can come to. A read is done once nothing is
/// pending, and fails while something is. A change is done once both its calls have
/// worked, and fails with the error number of the call that failed. An error number
/// can be negated.
pub open spec fn event_fits<F, D, P, B>(task: Task<P, B>, event: Event<F, D, B>) -> bool {
    match event {
        Event::Failed(e) => {
            &&& e != i32::MIN
            &&& !(task is Settled)
            &&& task matches Task::Read(read) ==> read.pending > 0
            &&& task matches Task::ChangeStat { change, .. } ==> change.progress
                == ChangeProgress::Failed(e)
        },
        Event::Opened(_) => task is Open,
        Event::OpenedDir(_) => task is OpenDir,
        Event::Entry(_) => task is NextEntry,
        Event::Written(_) => task is Write,
        Event::Statfs(_) => task is Statfs,
        Event::Stat(_) => task is Stat,
        Event::Done => match task {
            Task::Read(read) => read.pending == 0,
            Task::ChangeStat { change, .. } => change.progress is Changed,
            _ => task is Settled || task is Seek || task is Sync || task is SetLen
                || task is Unlink || task is MkDir || task is RmDir || task is Rename,
        },
    }
}

/// What a request for the next entry of a directory comes to: the kind and the
/// name of the entry. There being none is an error.
pub open spec fn entry_outcome(
    host: HostConstants,
    dir_id: i32,
    next: Option<DirEntry<Seq<u8>>>,
) -> Result<Reply<Seq<u8>>, i32> {
    match next {
        Some(entry) => Ok(
            Reply {
                result: 0,
                data: (ReadDir {
                    dir_id,
                    item_type: convert::item_type_of(entry.file_type),
                }).bytes() + entry.name + seq![0u8],
            },
        ),
        None => Err(host.enoent),
    }
}

/// What a write request comes to: the number of bytes written, which is only sent
/// where the request has a cookie.
pub open spec fn write_reply(header: Header, size: usize) -> Reply<Seq<u8>> {
    if header.cookie != 0 {
        reply::bare(convert::cut_signed(size as int, 0x1_0000_0000) as i32)
    } else {
        reply::bare(RESULT_DO_NOT_SEND_RESPONSE)
    }
}

/// What a request for the state of a file system comes to.
pub open spec fn statfs_reply(fs: HostStatfs) -> Reply<Seq<u8>> {
    Reply { result: 0, data: convert::statfs_of(fs).bytes() }
}

/// What a request for the state of a file comes to.
pub open spec fn stat_reply(st: HostStat) -> Reply<Seq<u8>> {
    Reply { result: 0, data: convert::stat_of(st).bytes() }
}

/// Answers a request for the next entry of a directory.
pub fn finish_readdir(host: &HostConstants, dir_id: i32, next: Option<DirEntry<Vec<u8>>>) -> (r:
    Result<Reply<Vec<u8>>, i32>)
    ensures
        reply::outcome_view(r) == entry_outcome(
            *host,
            dir_id,
            match next {
                Some(entry) => Some(
                    DirEntry { file_type: entry.file_type, name: entry.name@ },
                ),
                None => None,
            },
        ),
{
    match next {
        Some(dir_entry) => {
            let item_type: u32 = convert_file_type(&dir_entry.file_type);
            let readdir_response = ReadDir { dir_id, item_type };
            let mut response = readdir_response.encode();
            let mut filename = dir_entry.name;
            response.append(&mut filename);
            response.push(0);
            assert(response@ =~= readdir_response.bytes() + dir_entry.name@ + seq![0u8]);
            Ok(Reply { result: 0, data: response })
        },
        None => Err(host.enoent),
    }
}

/// Answers a write request.
pub fn finish_write(header: &Header, size: usize) -> (r: Reply<Vec<u8>>)
    ensures
        r@ == write_reply(*header, size),
{
    if header.cookie != 0 {
        bare_reply(convert_size(size))
    } else {
        bare_reply(RESULT_DO_NOT_SEND_RESPONSE)
    }
}

/// Answers a request for the state of a file system.
pub fn finish_statfs(fs: &HostStatfs) -> (r: Reply<Vec<u8>>)
    ensures
        r@ == statfs_reply(*fs),
{
    Reply { result: 0, data: convert_statfs(fs).encode() }
}

/// Answers a request for the state of a file.
pub fn finish_stat(st: &HostStat) -> (r: Reply<Vec<u8>>)
    ensures
        r@ == stat_reply(*st),
{
    Reply { result: 0, data: convert_stat(st).encode() }
}

/// What contracts say of an event they say of its own fields: each stands in the view
/// under its own name.
pub proof fn law_view_of_an_event<F, D>(event: Event<F, D, Vec<u8>>)
    ensures
        match event {
            Event::Failed(e) => event@ matches Event::Failed(v) && v == e,
            Event::Opened(file) => event@ matches Event::Opened(v) && v == file,
            Event::OpenedDir(dir) => event@ matches Event::OpenedDir(v) && v == dir,
            Event::Entry(Some(entry)) => event@ matches Event::Entry(Some(v)) && v.file_type
                == entry.file_type && v.name == entry.name@,
            Event::Entry(None) => event@ matches Event::Entry(None),
            Event::Written(size) => event@ matches Event::Written(v) && v == size,
            Event::Statfs(fs) => event@ matches Event::Statfs(v) && v == fs,
            Event::Stat(st) => event@ matches Event::Stat(v) && v == st,
            Event::Done => event@ is Done,
        },
{
}

} // verus!
