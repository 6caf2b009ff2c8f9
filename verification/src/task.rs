//! Work for the host: what is left of a request once it has been understood.

use vstd::prelude::*;
use crate::msgs::FileContent;
use crate::reply::Reply;

verus! {

/// How a file is to be opened. `custom_flags` are flags of the host beyond those
/// that have a field of their own.
#[derive(Clone, Copy, PartialEq, Eq, Structural, Debug)]
pub struct OpenOptions {
    pub read: bool,
    pub write: bool,
    pub create: bool,
    pub append: bool,
    pub truncate: bool,
    pub custom_flags: i32,
    pub mode: u32,
}

/// Where a position in a file is to move.
#[derive(Clone, Copy, PartialEq, Eq, Structural, Debug)]
pub enum SeekTarget {
    Start(u64),
    End(i64),
    Current(i64),
}

/// What is to change about a file: first its mode, then its two times.
#[derive(Clone, Copy, PartialEq, Eq, Structural, Debug)]
pub struct StatChange {
    pub mode: u32,
    pub atime_sec: i64,
    pub atime_nsec: i64,
    pub mtime_sec: i64,
    pub mtime_nsec: i64,
}

/// How far a change of a file is: which call is due, or what came of it.
#[derive(Clone, Copy, PartialEq, Eq, Structural, Debug)]
pub enum ChangeProgress {
    /// The mode is to be set.
    Mode,
    /// The mode is set, and the times are to be.
    Times,
    /// Both are set.
    Changed,
    /// A call failed, with this error number.
    Failed(i32),
}

/// A change of a file under way.
#[derive(Clone, Copy, PartialEq, Eq, Structural, Debug)]
pub struct ChangeTask {
    pub change: StatChange,
    pub progress: ChangeProgress,
}

/// A read request under way: `pending` bytes of it are still to be sent.
#[derive(Clone, Copy, PartialEq, Eq, Structural, Debug)]
pub struct ReadTask {
    pub request: FileContent,
    pub pending: usize,
}

/// What the host has to do for a request. `P` holds paths and `B` holds bytes:
/// strings and vectors, or in contracts the sequences that they hold.
#[derive(PartialEq, Eq, Debug)]
pub enum Task<P, B> {
    /// Nothing: the request is settled.
    Settled(Reply<B>),
    /// Open the file.
    Open { path: P, options: OpenOptions },
    /// Read from the open file, a chunk at a time.
    Read(ReadTask),
    /// Write to the open file, in one go.
    Write { fd: i32, content: B },
    /// Move the position in the open file.
    Seek { fd: i32, target: SeekTarget },
    /// Bring the open file to the disk.
    Sync { fd: i32 },
    /// Set the size of the open file.
    SetLen { fd: i32, len: u64 },
    /// Start to list the directory.
    OpenDir { path: P },
    /// Take the next entry of the directory that is being listed.
    NextEntry { dir_id: i32 },
    /// Look up the state of the file system that holds the path.
    Statfs { path: P },
    /// Look up the state of the file.
    Stat { path: P },
    /// Change the state of the file, a call at a time.
    ChangeStat { path: P, change: ChangeTask },
    /// Remove the file.
    Unlink { path: P },
    /// Make the directory.
    MkDir { path: P, mode: u32 },
    /// Remove the directory.
    RmDir { path: P },
    /// Rename the file.
    Rename { from: P, to: P },
}

impl View for Task<String, Vec<u8>> {
    type V = Task<Seq<char>, Seq<u8>>;

    open spec fn view(&self) -> Task<Seq<char>, Seq<u8>> {
        match *self {
            Task::Settled(reply) => Task::Settled(reply@),
            Task::Open { path, options } => Task::Open { path: path@, options },
            Task::Read(read) => Task::Read(read),
            Task::Write { fd, content } => Task::Write { fd, content: content@ },
            Task::Seek { fd, target } => Task::Seek { fd, target },
            Task::Sync { fd } => Task::Sync { fd },
            Task::SetLen { fd, len } => Task::SetLen { fd, len },
            Task::OpenDir { path } => Task::OpenDir { path: path@ },
            Task::NextEntry { dir_id } => Task::NextEntry { dir_id },
            Task::Statfs { path } => Task::Statfs { path: path@ },
            Task::Stat { path } => Task::Stat { path: path@ },
            Task::ChangeStat { path, change } => Task::ChangeStat { path: path@, change },
            Task::Unlink { path } => Task::Unlink { path: path@ },
            Task::MkDir { path, mode } => Task::MkDir { path: path@, mode },
            Task::RmDir { path } => Task::RmDir { path: path@ },
            Task::Rename { from, to } => Task::Rename { from: from@, to: to@ },
        }
    }
}

/// No path of the task holds a NUL character.
pub open spec fn holds_no_nul(task: Task<Seq<char>, Seq<u8>>) -> bool {
    match task {
        Task::Open { path, .. } => !path.contains('\0'),
        Task::OpenDir { path } => !path.contains('\0'),
        Task::Statfs { path } => !path.contains('\0'),
        Task::Stat { path } => !path.contains('\0'),
        Task::ChangeStat { path, .. } => !path.contains('\0'),
        Task::Unlink { path } => !path.contains('\0'),
        Task::MkDir { path, .. } => !path.contains('\0'),
        Task::RmDir { path } => !path.contains('\0'),
        Task::Rename { from, to } => !from.contains('\0') && !to.contains('\0'),
        _ => true,
    }
}

/// A request that is refused holds the host's error number in place of a task.
pub open spec fn task_view(task: Result<Task<String, Vec<u8>>, i32>) -> Result<
    Task<Seq<char>, Seq<u8>>,
    i32,
> {
    match task {
        Ok(t) => Ok(t@),
        Err(e) => Err(e),
    }
}

/// What contracts say of a task they say of its own fields: each stands in the view
/// under its own name.
pub proof fn law_view_of_a_task(task: Task<String, Vec<u8>>)
    ensures
        match task {
            Task::Settled(r) => task@ matches Task::Settled(v) && v.result == r.result && v.data
                == r.data@,
            Task::Open { path, options } => task@ matches Task::Open { path: p, options: o } && p
                == path@ && o == options,
            Task::Read(read) => task@ matches Task::Read(r) && r == read,
            Task::Write { fd, content } => task@ matches Task::Write { fd: f, content: c } && f
                == fd && c == content@,
            Task::Seek { fd, target } => task@ matches Task::Seek { fd: f, target: t } && f == fd
                && t == target,
            Task::Sync { fd } => task@ matches Task::Sync { fd: f } && f == fd,
            Task::SetLen { fd, len } => task@ matches Task::SetLen { fd: f, len: l } && f == fd
                && l == len,
            Task::OpenDir { path } => task@ matches Task::OpenDir { path: p } && p == path@,
            Task::NextEntry { dir_id } => task@ matches Task::NextEntry { dir_id: d } && d
                == dir_id,
            Task::Statfs { path } => task@ matches Task::Statfs { path: p } && p == path@,
            Task::Stat { path } => task@ matches Task::Stat { path: p } && p == path@,
            Task::ChangeStat { path, change } => task@ matches Task::ChangeStat {
                path: p,
                change: c,
            } && p == path@ && c == change,
            Task::Unlink { path } => task@ matches Task::Unlink { path: p } && p == path@,
            Task::MkDir { path, mode } => task@ matches Task::MkDir { path: p, mode: m } && p
                == path@ && m == mode,
            Task::RmDir { path } => task@ matches Task::RmDir { path: p } && p == path@,
            Task::Rename { from, to } => task@ matches Task::Rename { from: f, to: t } && f
                == from@ && t == to@,
        },
        task_view(Ok(task)) == Ok::<Task<Seq<char>, Seq<u8>>, i32>(task@),
        forall|e: i32| #[trigger]
            task_view(Err(e)) == Err::<Task<Seq<char>, Seq<u8>>, i32>(e),
{
}

} // verus!
