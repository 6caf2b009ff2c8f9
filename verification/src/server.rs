//! The server: what each request means, and what its outcome is answered with.

use vstd::prelude::*;
use vstd::slice::slice_subrange;
use vstd::slice::slice_to_vec;
use vstd::utf8::*;
use crate::change;
use crate::convert;
use crate::convert::{convert_change, open_options, seek_target, unsigned_offset};
use crate::event;
use crate::event::{finish_readdir, finish_stat, finish_statfs, finish_write, Event};
use crate::handles;
use crate::handles::HandleTable;
use crate::host::host_constants;
use crate::host::HostConstants;
use crate::msgs;
use crate::msgs::{Chstat, FTruncate, FileContent, Header, MkDir, Open, ReadDir, Seek};
use crate::path;
use crate::path::{find_second_path, read_path, str_from_u8_nul_utf8};
use crate::reply;
use crate::reply::{bare_reply, respond, Reply, RESULT_DO_NOT_SEND_RESPONSE};
use crate::task;
use crate::task::{ChangeTask, ReadTask, Task};
use crate::wire;

verus! {

/// The server's state: the files and the directories that are open on behalf of
/// the other side. `F` and `D` are the host's handles for them.
pub struct Rpmsgfs<F, D> {
    host: HostConstants,
    files: HandleTable<F>,
    directories: HandleTable<D>,
}

/// The state of a server, for contracts.
#[verifier::ext_equal]
pub struct ServerState<F, D> {
    pub host: HostConstants,
    pub files: Map<i32, (F, Seq<char>)>,
    pub directories: Map<i32, (D, Seq<char>)>,
}

impl<F, D> View for Rpmsgfs<F, D> {
    type V = ServerState<F, D>;

    closed spec fn view(&self) -> ServerState<F, D> {
        ServerState { host: self.host, files: self.files@, directories: self.directories@ }
    }
}

impl<F, D> ServerState<F, D> {
    /// The host's constants are sound, ids are not negative, and the paths that are
    /// recorded hold no NUL character.
    pub open spec fn wf(self) -> bool {
        &&& self.host.wf()
        &&& handles::is_sound(self.files)
        &&& handles::is_sound(self.directories)
    }

    /// With one more open file, or one replaced.
    pub open spec fn with_file(self, id: i32, handle: F, path: Seq<char>) -> ServerState<F, D> {
        ServerState { files: self.files.insert(id, (handle, path)), ..self }
    }

    /// With one more open directory, or one replaced.
    pub open spec fn with_directory(self, id: i32, handle: D, path: Seq<char>) -> ServerState<
        F,
        D,
    > {
        ServerState { directories: self.directories.insert(id, (handle, path)), ..self }
    }

    /// Without an open directory.
    pub open spec fn without_directory(self, id: i32) -> ServerState<F, D> {
        ServerState { directories: self.directories.remove(id), ..self }
    }
}

/// `data` holds all the fields that a request with this command has.
pub open spec fn holds_fields(command: u32, data: Seq<u8>) -> bool {
    if command == msgs::CMD_OPEN {
        data.len() >= msgs::OPEN_SIZE
    } else if command == msgs::CMD_CLOSE || command == msgs::CMD_SYNC || command
        == msgs::CMD_REWINDDIR || command == msgs::CMD_CLOSEDIR {
        data.len() >= 4
    } else if command == msgs::CMD_READ {
        data.len() >= msgs::FILECONTENT_SIZE
    } else if command == msgs::CMD_WRITE {
        data.len() >= msgs::FILECONTENT_SIZE && data.len() >= msgs::FILECONTENT_SIZE
            + FileContent::parse(data).content_size
    } else if command == msgs::CMD_SEEK {
        data.len() >= msgs::SEEK_SIZE
    } else if command == msgs::CMD_FSTAT {
        data.len() >= msgs::STAT_SIZE + 4
    } else if command == msgs::CMD_FTRUNCATE {
        data.len() >= msgs::FTRUNCATE_SIZE
    } else if command == msgs::CMD_READDIR {
        data.len() >= msgs::READDIR_SIZE
    } else if command == msgs::CMD_STATFS {
        data.len() >= msgs::STATFS_SIZE
    } else if command == msgs::CMD_MKDIR {
        data.len() >= msgs::MKDIR_SIZE
    } else if command == msgs::CMD_RENAME {
        data.len() >= path::second_path_offset(data)
    } else if command == msgs::CMD_STAT {
        data.len() >= msgs::STAT_SIZE
    } else if command == msgs::CMD_FCHSTAT {
        data.len() >= msgs::CHSTAT_SIZE + 4
    } else if command == msgs::CMD_CHSTAT {
        data.len() >= msgs::CHSTAT_SIZE
    } else {
        true
    }
}

/// The packet holds a header and all the fields of its command.
pub open spec fn is_complete_request(packet: Seq<u8>) -> bool {
    &&& packet.len() >= msgs::HEADER_SIZE
    &&& holds_fields(Header::parse(packet).command, packet.skip(msgs::HEADER_SIZE as int))
}

/// The task, where the file is open.
pub open spec fn if_open<F, D>(
    s: ServerState<F, D>,
    fd: i32,
    task: Task<Seq<char>, Seq<u8>>,
) -> Result<Task<Seq<char>, Seq<u8>>, i32> {
    if s.files.contains_key(fd) {
        Ok(task)
    } else {
        Err(s.host.ebadf)
    }
}

/// The task, where the directory is open.
pub open spec fn if_directory_open<F, D>(
    s: ServerState<F, D>,
    id: i32,
    task: Task<Seq<char>, Seq<u8>>,
) -> Result<Task<Seq<char>, Seq<u8>>, i32> {
    if s.directories.contains_key(id) {
        Ok(task)
    } else {
        Err(s.host.ebadf)
    }
}

/// What an open request leaves to the host.
pub open spec fn open_task(host: HostConstants, data: Seq<u8>) -> Task<Seq<char>, Seq<u8>> {
    Task::Open {
        path: path::path_at(data, msgs::OPEN_SIZE as int),
        options: convert::options_of(Open::parse(data), host),
    }
}

/// What a read request leaves to the host.
pub open spec fn read_task(data: Seq<u8>) -> Task<Seq<char>, Seq<u8>> {
    let request = FileContent::parse(data);
    Task::Read(ReadTask { request, pending: request.content_size as usize })
}

/// What a write request leaves to the host.
pub open spec fn write_task(data: Seq<u8>) -> Task<Seq<char>, Seq<u8>> {
    let request = FileContent::parse(data);
    Task::Write {
        fd: request.fd,
        content: data.subrange(
            msgs::FILECONTENT_SIZE as int,
            msgs::FILECONTENT_SIZE + request.content_size,
        ),
    }
}

/// What a request for the state of a file system leaves to the host: an empty
/// path stands for the root.
pub open spec fn statfs_task(data: Seq<u8>) -> Task<Seq<char>, Seq<u8>> {
    let path = path::path_at(data, msgs::STATFS_SIZE as int);
    Task::Statfs {
        path: if path.len() == 0 {
            seq!['/']
        } else {
            path
        },
    }
}

/// What a seek request leaves to the host.
pub open spec fn seek_task(data: Seq<u8>) -> Task<Seq<char>, Seq<u8>> {
    let seek = Seek::parse(data);
    Task::Seek { fd: seek.fd, target: convert::target_of(seek) }
}

/// What a request for the size of a file leaves to the host. A negative size
/// stands for the large one with the same 64 bits.
pub open spec fn ftruncate_task(data: Seq<u8>) -> Task<Seq<char>, Seq<u8>> {
    let ftruncate = FTruncate::parse(data);
    Task::SetLen {
        fd: ftruncate.fd,
        len: convert::cut_unsigned(ftruncate.length as int, 0x1_0000_0000_0000_0000) as u64,
    }
}

/// What a request to make a directory leaves to the host.
pub open spec fn mkdir_task(data: Seq<u8>) -> Task<Seq<char>, Seq<u8>> {
    Task::MkDir {
        path: path::path_at(data, msgs::MKDIR_SIZE as int),
        mode: MkDir::parse(data).mode,
    }
}

/// What a rename request leaves to the host.
pub open spec fn rename_task(data: Seq<u8>) -> Task<Seq<char>, Seq<u8>> {
    Task::Rename {
        from: path::path_at_start(data),
        to: path::path_at(data, path::second_path_offset(data) as int),
    }
}

/// What a request to change the state of the file at `path` leaves to the host.
pub open spec fn chstat_task(path: Seq<char>, data: Seq<u8>) -> Task<Seq<char>, Seq<u8>> {
    Task::ChangeStat { path, change: change::not_begun(convert::change_of(Chstat::parse(data))) }
}

/// What a request means: what the host has to do for it, or the error number that
/// it is refused with.
pub open spec fn meaning<F, D>(s: ServerState<F, D>, command: u32, data: Seq<u8>) -> Result<
    Task<Seq<char>, Seq<u8>>,
    i32,
> {
    // The id that comes first in the data, and those behind the fields of the two
    // requests that are about the state of an open file.
    let id = wire::i32_at(data, 0);
    let stat_fd = wire::i32_at(data, msgs::STAT_SIZE as int);
    let chstat_fd = wire::i32_at(data, msgs::CHSTAT_SIZE as int);
    if command == msgs::CMD_OPEN {
        Ok(open_task(s.host, data))
    } else if command == msgs::CMD_CLOSE || command == msgs::CMD_CLOSEDIR {
        if_directory_open(s, id, Task::Settled(reply::bare(0)))
    } else if command == msgs::CMD_READ {
        if_open(s, id, read_task(data))
    } else if command == msgs::CMD_WRITE {
        if_open(s, id, write_task(data))
    } else if command == msgs::CMD_SEEK {
        if_open(s, id, seek_task(data))
    } else if command == msgs::CMD_SYNC {
        if_open(s, id, Task::Sync { fd: id })
    } else if command == msgs::CMD_FSTAT {
        if_open(s, stat_fd, Task::Stat { path: s.files[stat_fd].1 })
    } else if command == msgs::CMD_FTRUNCATE {
        if_open(s, id, ftruncate_task(data))
    } else if command == msgs::CMD_OPENDIR {
        Ok(Task::OpenDir { path: path::path_at_start(data) })
    } else if command == msgs::CMD_READDIR {
        if_directory_open(s, id, Task::NextEntry { dir_id: id })
    } else if command == msgs::CMD_REWINDDIR {
        if_directory_open(s, id, Task::OpenDir { path: s.directories[id].1 })
    } else if command == msgs::CMD_STATFS {
        Ok(statfs_task(data))
    } else if command == msgs::CMD_UNLINK {
        Ok(Task::Unlink { path: path::path_at_start(data) })
    } else if command == msgs::CMD_MKDIR {
        Ok(mkdir_task(data))
    } else if command == msgs::CMD_RMDIR {
        Ok(Task::RmDir { path: path::path_at_start(data) })
    } else if command == msgs::CMD_RENAME {
        Ok(rename_task(data))
    } else if command == msgs::CMD_STAT {
        Ok(Task::Stat { path: path::path_at(data, msgs::STAT_SIZE as int) })
    } else if command == msgs::CMD_FCHSTAT {
        if_open(s, chstat_fd, chstat_task(s.files[chstat_fd].1, data))
    } else if command == msgs::CMD_CHSTAT {
        Ok(chstat_task(path::path_at(data, msgs::CHSTAT_SIZE as int), data))
    } else {
        Err((-s.host.enotsup) as i32)
    }
}

/// The state once a request has been understood: the requests that close or
/// rewind take the directory with their id out of the table.
pub open spec fn after<F, D>(s: ServerState<F, D>, command: u32, data: Seq<u8>) -> ServerState<
    F,
    D,
> {
    if command == msgs::CMD_CLOSE || command == msgs::CMD_CLOSEDIR || command
        == msgs::CMD_REWINDDIR {
        s.without_directory(wire::i32_at(data, 0))
    } else {
        s
    }
}

/// Whether a packet holds a header and all the fields of its command.
pub fn is_complete(packet: &[u8]) -> (r: bool)
    ensures
        r == is_complete_request(packet@),
{
    if packet.len() < msgs::HEADER_SIZE {
        return false;
    }
    let command: u32 = Header::decode(packet).command;
    let data = slice_subrange(packet, msgs::HEADER_SIZE, packet.len());
    assert(data@ =~= packet@.skip(msgs::HEADER_SIZE as int));
    let size: usize = data.len();
    if command == msgs::CMD_OPEN {
        size >= msgs::OPEN_SIZE
    } else if command == msgs::CMD_CLOSE || command == msgs::CMD_SYNC || command
        == msgs::CMD_REWINDDIR || command == msgs::CMD_CLOSEDIR {
        size >= 4
    } else if command == msgs::CMD_READ {
        size >= msgs::FILECONTENT_SIZE
    } else if command == msgs::CMD_WRITE {
        size >= msgs::FILECONTENT_SIZE && size - msgs::FILECONTENT_SIZE >= FileContent::decode(
            data,
        ).content_size as usize
    } else if command == msgs::CMD_SEEK {
        size >= msgs::SEEK_SIZE
    } else if command == msgs::CMD_FSTAT {
        size >= msgs::STAT_SIZE + 4
    } else if command == msgs::CMD_FTRUNCATE {
        size >= msgs::FTRUNCATE_SIZE
    } else if command == msgs::CMD_READDIR {
        size >= msgs::READDIR_SIZE
    } else if command == msgs::CMD_STATFS {
        size >= msgs::STATFS_SIZE
    } else if command == msgs::CMD_MKDIR {
        size >= msgs::MKDIR_SIZE
    } else if command == msgs::CMD_RENAME {
        find_second_path(data).is_some()
    } else if command == msgs::CMD_STAT {
        size >= msgs::STAT_SIZE
    } else if command == msgs::CMD_FCHSTAT {
        size >= msgs::CHSTAT_SIZE + 4
    } else if command == msgs::CMD_CHSTAT {
        size >= msgs::CHSTAT_SIZE
    } else {
        true
    }
}

impl<F, D> Rpmsgfs<F, D> {
    /// The tables are sound, and so is the state.
    pub closed spec fn wf(&self) -> bool {
        &&& self.files.wf()
        &&& self.directories.wf()
        &&& self@.wf()
    }

    /// A server with nothing open, for a host with these constants.
    pub fn with_host(host: HostConstants) -> (r: Self)
        requires
            host.wf(),
        ensures
            r.wf(),
            r@.host == host,
            r@.files == Map::<i32, (F, Seq<char>)>::empty(),
            r@.directories == Map::<i32, (D, Seq<char>)>::empty(),
    {
        Rpmsgfs { host, files: HandleTable::new(), directories: HandleTable::new() }
    }

    /// A server with nothing open, for the host that it runs on. Which constants
    /// that host has is not said: they depend on the machine.
    pub fn new() -> (r: Self)
        ensures
            r.wf(),
            r@.host.wf(),
            r@.files == Map::<i32, (F, Seq<char>)>::empty(),
            r@.directories == Map::<i32, (D, Seq<char>)>::empty(),
    {
        Rpmsgfs::with_host(host_constants())
    }

    /// The constants of the host.
    pub fn host(&self) -> (r: &HostConstants)
        ensures
            *r == self@.host,
    {
        &self.host
    }

    /// Whether no further file can be opened, because every id is taken.
    pub fn files_full(&self) -> (r: bool)
        requires
            self.wf(),
        ensures
            r == handles::all_ids_taken(self@.files),
    {
        self.files.is_full()
    }

    /// Whether no further directory can be opened, because every id is taken.
    pub fn directories_full(&self) -> (r: bool)
        requires
            self.wf(),
        ensures
            r == handles::all_ids_taken(self@.directories),
    {
        self.directories.is_full()
    }

    /// The host's handle for an open file.
    pub fn file_mut(&mut self, fd: i32) -> (r: Option<&mut F>)
        requires
            old(self).wf(),
        ensures
            final(self).wf(),
            match r {
                Some(handle) => {
                    &&& old(self)@.files.contains_key(fd)
                    &&& *handle == old(self)@.files[fd].0
                    &&& final(self)@ == old(self)@.with_file(
                        fd,
                        *final(handle),
                        old(self)@.files[fd].1,
                    )
                },
                None => !old(self)@.files.contains_key(fd) && final(self)@ == old(self)@,
            },
    {
        proof {
            handles::lemma_other_handle_is_sound(self.files@, fd);
        }
        self.files.get_mut(fd)
    }

    /// The host's handle for an open directory.
    pub fn directory_mut(&mut self, dir_id: i32) -> (r: Option<&mut D>)
        requires
            old(self).wf(),
        ensures
            final(self).wf(),
            match r {
                Some(handle) => {
                    &&& old(self)@.directories.contains_key(dir_id)
                    &&& *handle == old(self)@.directories[dir_id].0
                    &&& final(self)@ == old(self)@.with_directory(
                        dir_id,
                        *final(handle),
                        old(self)@.directories[dir_id].1,
                    )
                },
                None => !old(self)@.directories.contains_key(dir_id) && final(self)@ == old(
                    self,
                )@,
            },
    {
        proof {
            handles::lemma_other_handle_is_sound(self.directories@, dir_id);
        }
        self.directories.get_mut(dir_id)
    }

    /// An open request: the path behind the flags and the mode.
    fn open(&self, data: &[u8]) -> (r: Task<String, Vec<u8>>)
        requires
            data@.len() >= msgs::OPEN_SIZE,
        ensures
            r@ == open_task(self@.host, data@),
    {
        let open_data = Open::decode(data);
        let path = read_path(data, msgs::OPEN_SIZE);
        Task::Open { path, options: open_options(&open_data, &self.host) }
    }

    /// Releases a directory: files stay in their table.
    fn close(&mut self, data: &[u8]) -> (r: Result<Task<String, Vec<u8>>, i32>)
        requires
            old(self).wf(),
            data@.len() >= 4,
        ensures
            final(self).wf(),
            task::task_view(r) == if_directory_open(
                old(self)@,
                wire::i32_at(data@, 0),
                Task::Settled(reply::bare(0)),
            ),
            final(self)@ == old(self)@.without_directory(wire::i32_at(data@, 0)),
    {
        let fd: i32 = wire::read_i32(data, 0);
        let removed = self.directories.remove(fd);
        assert(self@ == old(self)@.without_directory(fd));
        match removed {
            Some(_) => Ok(Task::Settled(bare_reply(0))),
            None => Err(self.host.ebadf),
        }
    }

    /// A read request for a file that is open.
    fn read(&self, data: &[u8]) -> (r: Result<Task<String, Vec<u8>>, i32>)
        requires
            data@.len() >= msgs::FILECONTENT_SIZE,
        ensures
            task::task_view(r) == if_open(self@, wire::i32_at(data@, 0), read_task(data@)),
    {
        let read_data = FileContent::decode(data);
        match self.files.path(read_data.fd) {
            Some(_) => {
                let pending: usize = read_data.content_size as usize;
                Ok(Task::Read(ReadTask { request: read_data, pending }))
            },
            None => Err(self.host.ebadf),
        }
    }

    /// A write request for a file that is open, with its content.
    fn write(&self, data: &[u8]) -> (r: Result<Task<String, Vec<u8>>, i32>)
        requires
            data@.len() >= msgs::FILECONTENT_SIZE,
            data@.len() >= msgs::FILECONTENT_SIZE + FileContent::parse(data@).content_size,
        ensures
            task::task_view(r) == if_open(self@, wire::i32_at(data@, 0), write_task(data@)),
    {
        let write_data = FileContent::decode(data);
        let behind = slice_subrange(data, msgs::FILECONTENT_SIZE, data.len());
        let content = slice_to_vec(slice_subrange(behind, 0, write_data.content_size as usize));
        assert(content@ =~= data@.subrange(
            msgs::FILECONTENT_SIZE as int,
            msgs::FILECONTENT_SIZE + write_data.content_size,
        ));
        match self.files.path(write_data.fd) {
            Some(_) => Ok(Task::Write { fd: write_data.fd, content }),
            None => Err(self.host.ebadf),
        }
    }

    /// A request to move the position in a file that is open.
    fn seek(&self, data: &[u8]) -> (r: Result<Task<String, Vec<u8>>, i32>)
        requires
            data@.len() >= msgs::SEEK_SIZE,
        ensures
            task::task_view(r) == if_open(self@, wire::i32_at(data@, 0), seek_task(data@)),
    {
        let seek_data = Seek::decode(data);
        match self.files.path(seek_data.fd) {
            Some(_) => Ok(Task::Seek { fd: seek_data.fd, target: seek_target(&seek_data) }),
            None => Err(self.host.ebadf),
        }
    }

    /// A request to bring a file that is open to the disk.
    fn sync(&self, data: &[u8]) -> (r: Result<Task<String, Vec<u8>>, i32>)
        requires
            data@.len() >= 4,
        ensures
            task::task_view(r) == ({
                let fd = wire::i32_at(data@, 0);
                if_open(self@, fd, Task::Sync { fd })
            }),
    {
        let fd: i32 = wire::read_i32(data, 0);
        match self.files.path(fd) {
            Some(_) => Ok(Task::Sync { fd }),
            None => Err(self.host.ebadf),
        }
    }

    /// A request to set the size of a file that is open.
    fn ftruncate(&self, data: &[u8]) -> (r: Result<Task<String, Vec<u8>>, i32>)
        requires
            data@.len() >= msgs::FTRUNCATE_SIZE,
        ensures
            task::task_view(r) == if_open(self@, wire::i32_at(data@, 0), ftruncate_task(data@)),
    {
        let ftruncate_data = FTruncate::decode(data);
        match self.files.path(ftruncate_data.fd) {
            Some(_) => {
                let len: u64 = unsigned_offset(ftruncate_data.length);
                Ok(Task::SetLen { fd: ftruncate_data.fd, len })
            },
            None => Err(self.host.ebadf),
        }
    }

    /// A request for the next entry of a directory that is open.
    fn readdir(&self, data: &[u8]) -> (r: Result<Task<String, Vec<u8>>, i32>)
        requires
            data@.len() >= msgs::READDIR_SIZE,
        ensures
            task::task_view(r) == ({
                let dir_id = wire::i32_at(data@, 0);
                if_directory_open(self@, dir_id, Task::NextEntry { dir_id })
            }),
    {
        let readdir_data = ReadDir::decode(data);
        match self.directories.path(readdir_data.dir_id) {
            Some(_) => Ok(Task::NextEntry { dir_id: readdir_data.dir_id }),
            None => Err(self.host.ebadf),
        }
    }

    /// A listing cannot be rewound, so the directory is released, to be opened
    /// again by its path.
    fn rewinddir(&mut self, data: &[u8]) -> (r: Result<Task<String, Vec<u8>>, i32>)
        requires
            old(self).wf(),
            data@.len() >= 4,
        ensures
            final(self).wf(),
            task::task_view(r) == ({
                let dir_id = wire::i32_at(data@, 0);
                if_directory_open(
                    old(self)@,
                    dir_id,
                    Task::OpenDir { path: old(self)@.directories[dir_id].1 },
                )
            }),
            final(self)@ == old(self)@.without_directory(wire::i32_at(data@, 0)),
    {
        let dir_id: i32 = wire::read_i32(data, 0);
        let removed = self.directories.remove(dir_id);
        assert(self@ == old(self)@.without_directory(dir_id));
        match removed {
            Some((_, path)) => Ok(Task::OpenDir { path }),
            None => Err(self.host.ebadf),
        }
    }

    /// A request for the state of a file system: that of the root, where the path is
    /// empty.
    fn statfs(data: &[u8]) -> (r: Task<String, Vec<u8>>)
        requires
            data@.len() >= msgs::STATFS_SIZE,
        ensures
            r@ == statfs_task(data@),
    {
        let path = read_path(data, msgs::STATFS_SIZE);
        proof {
            reveal_strlit("/");
        }
        assert("/"@ =~= seq!['/']);
        if path.as_str().is_empty() {
            Task::Statfs { path: "/".to_owned() }
        } else {
            Task::Statfs { path }
        }
    }

    /// A request for the state of a file that is open: it is looked up by its path.
    fn fstat(&self, data: &[u8]) -> (r: Result<Task<String, Vec<u8>>, i32>)
        requires
            data@.len() >= msgs::STAT_SIZE + 4,
        ensures
            task::task_view(r) == ({
                let fd = wire::i32_at(data@, msgs::STAT_SIZE as int);
                if_open(self@, fd, Task::Stat { path: self@.files[fd].1 })
            }),
    {
        let file_descriptor: i32 = wire::read_i32(data, msgs::STAT_SIZE);
        match self.files.path(file_descriptor) {
            Some(path) => Ok(Task::Stat { path: path.clone() }),
            None => Err(self.host.ebadf),
        }
    }

    /// A request to change the state of a file that is open, by its path.
    fn fchstat(&self, data: &[u8]) -> (r: Result<Task<String, Vec<u8>>, i32>)
        requires
            data@.len() >= msgs::CHSTAT_SIZE + 4,
        ensures
            task::task_view(r) == ({
                let fd = wire::i32_at(data@, msgs::CHSTAT_SIZE as int);
                if_open(self@, fd, chstat_task(self@.files[fd].1, data@))
            }),
    {
        let chstat_data = Chstat::decode(data);
        let file_descriptor: i32 = wire::read_i32(data, msgs::CHSTAT_SIZE);
        match self.files.path(file_descriptor) {
            Some(path) => {
                let change = ChangeTask::begin(convert_change(&chstat_data));
                Ok(Task::ChangeStat { path: path.clone(), change })
            },
            None => Err(self.host.ebadf),
        }
    }

    /// A request to change the state of the file at a path.
    fn chstat(data: &[u8]) -> (r: Task<String, Vec<u8>>)
        requires
            data@.len() >= msgs::CHSTAT_SIZE,
        ensures
            r@ == chstat_task(path::path_at(data@, msgs::CHSTAT_SIZE as int), data@),
    {
        let chstat_data = Chstat::decode(data);
        let path = read_path(data, msgs::CHSTAT_SIZE);
        Task::ChangeStat { path, change: ChangeTask::begin(convert_change(&chstat_data)) }
    }

    /// A request to make a directory.
    fn mkdir(data: &[u8]) -> (r: Task<String, Vec<u8>>)
        requires
            data@.len() >= msgs::MKDIR_SIZE,
        ensures
            r@ == mkdir_task(data@),
    {
        let mkdir_data = MkDir::decode(data);
        let path = read_path(data, msgs::MKDIR_SIZE);
        Task::MkDir { path, mode: mkdir_data.mode }
    }

    /// A rename request: two paths, the second one aligned.
    fn rename(data: &[u8]) -> (r: Task<String, Vec<u8>>)
        requires
            data@.len() >= path::second_path_offset(data@),
        ensures
            r@ == rename_task(data@),
    {
        let path_from = str_from_u8_nul_utf8(data).to_owned();
        let path_to_offset: usize = find_second_path(data).unwrap();
        let path_to = read_path(data, path_to_offset);
        Task::Rename { from: path_from, to: path_to }
    }

    /// Understands a request: gives its header, and what the host has to do for it
    /// or the error number that it is refused with.
    pub fn process_command(&mut self, packet: &[u8]) -> (r: (
        Header,
        Result<Task<String, Vec<u8>>, i32>,
    ))
        requires
            old(self).wf(),
            is_complete_request(packet@),
        ensures
            final(self).wf(),
            r.0 == Header::parse(packet@),
            task::task_view(r.1) == meaning(
                old(self)@,
                r.0.command,
                packet@.skip(msgs::HEADER_SIZE as int),
            ),
            r.1 matches Ok(t) ==> task::holds_no_nul(t@),
            r.1 matches Err(e) ==> e != i32::MIN,
            final(self)@ == after(
                old(self)@,
                r.0.command,
                packet@.skip(msgs::HEADER_SIZE as int),
            ),
    {
        let header = Header::decode(packet);
        let data = slice_subrange(packet, msgs::HEADER_SIZE, packet.len());
        assert(data@ =~= packet@.skip(msgs::HEADER_SIZE as int));
        proof {
            law_tasks_hold_no_nul(self@, header.command, data@);
        }
        let task = match header.command {
            msgs::CMD_OPEN => Ok(self.open(data)),
            msgs::CMD_CLOSE => self.close(data),
            msgs::CMD_READ => self.read(data),
            msgs::CMD_WRITE => self.write(data),
            msgs::CMD_SEEK => self.seek(data),
            msgs::CMD_SYNC => self.sync(data),
            msgs::CMD_FSTAT => self.fstat(data),
            msgs::CMD_FTRUNCATE => self.ftruncate(data),
            msgs::CMD_OPENDIR => Ok(Task::OpenDir { path: str_from_u8_nul_utf8(data).to_owned() }),
            msgs::CMD_READDIR => self.readdir(data),
            msgs::CMD_REWINDDIR => self.rewinddir(data),
            msgs::CMD_CLOSEDIR => self.close(data),
            msgs::CMD_STATFS => Ok(Self::statfs(data)),
            msgs::CMD_UNLINK => Ok(Task::Unlink { path: str_from_u8_nul_utf8(data).to_owned() }),
            msgs::CMD_MKDIR => Ok(Self::mkdir(data)),
            msgs::CMD_RMDIR => Ok(Task::RmDir { path: str_from_u8_nul_utf8(data).to_owned() }),
            msgs::CMD_RENAME => Ok(Self::rename(data)),
            msgs::CMD_STAT => Ok(Task::Stat { path: read_path(data, msgs::STAT_SIZE) }),
            msgs::CMD_FCHSTAT => self.fchstat(data),
            msgs::CMD_CHSTAT => Ok(Self::chstat(data)),
            _ => Err(-self.host.enotsup),
        };
        (header, task)
    }

    /// Takes what the host did for a task, and gives the packet to answer the request
    /// with, if one is to be sent.
    pub fn finish(
        &mut self,
        header: &Header,
        task: Task<String, Vec<u8>>,
        event: Event<F, D, Vec<u8>>,
    ) -> (r: Option<Vec<u8>>)
        requires
            old(self).wf(),
            event::event_fits(task, event),
            task::holds_no_nul(task@),
            event is Opened ==> !handles::all_ids_taken(old(self)@.files),
            event is OpenedDir ==> !handles::all_ids_taken(old(self)@.directories),
        ensures
            final(self).wf(),
            final(self)@ == after_event(old(self)@, task@, event@),
            match r {
                Some(packet) => response(old(self)@, *header, task@, event@) == Some(packet@),
                None => response(old(self)@, *header, task@, event@) is None,
            },
    {
        proof {
            law_state_stays_sound(self@, task@, event@);
        }
        let outcome = match (task, event) {
            (_, Event::Failed(e)) => Err(e),
            (Task::Open { path, .. }, Event::Opened(file)) => Ok(
                bare_reply(self.files.add(file, path)),
            ),
            (Task::OpenDir { path }, Event::OpenedDir(dir)) => Ok(
                bare_reply(self.directories.add(dir, path)),
            ),
            (Task::NextEntry { dir_id }, Event::Entry(next)) => finish_readdir(
                &self.host,
                dir_id,
                next,
            ),
            (_, Event::Written(size)) => Ok(finish_write(header, size)),
            (_, Event::Statfs(fs)) => Ok(finish_statfs(&fs)),
            (_, Event::Stat(st)) => Ok(finish_stat(&st)),
            (Task::Settled(reply), _) => Ok(reply),
            (Task::Read(_), _) => Ok(bare_reply(RESULT_DO_NOT_SEND_RESPONSE)),
            _ => Ok(bare_reply(0)),
        };
        respond(header, outcome)
    }
}

/// What a request comes to, given what the host did for its task.
pub open spec fn outcome<F, D>(
    s: ServerState<F, D>,
    header: Header,
    task: Task<Seq<char>, Seq<u8>>,
    event: Event<F, D, Seq<u8>>,
) -> Result<Reply<Seq<u8>>, i32> {
    match (task, event) {
        (_, Event::Failed(e)) => Err(e),
        (Task::Open { .. }, Event::Opened(_)) => Ok(reply::bare(handles::first_free(s.files))),
        (Task::OpenDir { .. }, Event::OpenedDir(_)) => Ok(
            reply::bare(handles::first_free(s.directories)),
        ),
        (Task::NextEntry { dir_id }, Event::Entry(next)) => event::entry_outcome(
            s.host,
            dir_id,
            next,
        ),
        (_, Event::Written(size)) => Ok(event::write_reply(header, size)),
        (_, Event::Statfs(fs)) => Ok(event::statfs_reply(fs)),
        (_, Event::Stat(st)) => Ok(event::stat_reply(st)),
        (Task::Settled(reply), _) => Ok(reply),
        (Task::Read(_), _) => Ok(reply::bare(RESULT_DO_NOT_SEND_RESPONSE)),
        _ => Ok(reply::bare(0)),
    }
}

/// The packet that answers a request, given what the host did for its task.
pub open spec fn response<F, D>(
    s: ServerState<F, D>,
    header: Header,
    task: Task<Seq<char>, Seq<u8>>,
    event: Event<F, D, Seq<u8>>,
) -> Option<Seq<u8>> {
    reply::response_of(header, outcome(s, header, task, event))
}

/// The state once the host has done its task: what it opened is in the table, under
/// the smallest free id.
pub open spec fn after_event<F, D>(
    s: ServerState<F, D>,
    task: Task<Seq<char>, Seq<u8>>,
    event: Event<F, D, Seq<u8>>,
) -> ServerState<F, D> {
    match (task, event) {
        (Task::Open { path, .. }, Event::Opened(file)) => s.with_file(
            handles::first_free(s.files),
            file,
            path,
        ),
        (Task::OpenDir { path }, Event::OpenedDir(dir)) => s.with_directory(
            handles::first_free(s.directories),
            dir,
            path,
        ),
        _ => s,
    }
}

/// The state of a sound server is sound: ids are not negative, so a negative result
/// is always an error number, and recorded paths hold no NUL character.
pub proof fn law_state_of_a_server_is_sound<F, D>(server: Rpmsgfs<F, D>)
    requires
        server.wf(),
    ensures
        server@.wf(),
        server@.host.ebadf > 0 && server@.host.enoent > 0 && server@.host.enotsup > 0,
        forall|id: i32| #[trigger]
            server@.files.contains_key(id) ==> 0 <= id && !server@.files[id].1.contains('\0'),
        forall|id: i32| #[trigger]
            server@.directories.contains_key(id) ==> 0 <= id
                && !server@.directories[id].1.contains('\0'),
{
}

/// No task that a request comes to has a path with a NUL character.
pub proof fn law_tasks_hold_no_nul<F, D>(s: ServerState<F, D>, command: u32, data: Seq<u8>)
    requires
        s.wf(),
    ensures
        meaning(s, command, data) matches Ok(t) ==> task::holds_no_nul(t),
        meaning(s, command, data) matches Ok(Task::Open { path, .. }) ==> !path.contains('\0'),
        meaning(s, command, data) matches Ok(Task::OpenDir { path }) ==> !path.contains('\0'),
{
    path::law_path_holds_no_nul(data);
    path::law_path_holds_no_nul(data.skip(msgs::OPEN_SIZE as int));
    path::law_path_holds_no_nul(data.skip(msgs::STATFS_SIZE as int));
    path::law_path_holds_no_nul(data.skip(msgs::STAT_SIZE as int));
    path::law_path_holds_no_nul(data.skip(msgs::CHSTAT_SIZE as int));
    path::law_path_holds_no_nul(data.skip(path::second_path_offset(data) as int));
    char_u32_cast('\0', 0);
    assert('/' as u32 == 0x2f);
    assert(!seq!['/'].contains('\0'));
}

/// A sound state stays sound when a request is understood.
pub proof fn law_state_stays_sound_after_a_request<F, D>(
    s: ServerState<F, D>,
    command: u32,
    data: Seq<u8>,
)
    requires
        s.wf(),
    ensures
        after(s, command, data).wf(),
{
}

/// A sound state stays sound when a task is finished.
pub proof fn law_state_stays_sound<F, D>(
    s: ServerState<F, D>,
    task: Task<Seq<char>, Seq<u8>>,
    event: Event<F, D, Seq<u8>>,
)
    requires
        s.wf(),
        task::holds_no_nul(task),
        event is Opened ==> !handles::all_ids_taken(s.files),
        event is OpenedDir ==> !handles::all_ids_taken(s.directories),
    ensures
        after_event(s, task, event).wf(),
{
    if event is Opened {
        handles::lemma_first_free_exists(s.files);
    }
    if event is OpenedDir {
        handles::lemma_first_free_exists(s.directories);
    }
}

} // verus!
