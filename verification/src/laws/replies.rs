//! What each outcome is answered with, as the other side reads it: the header of the
//! reply and the data behind it.

use vstd::prelude::*;
use crate::convert;
use crate::convert::{HostStat, HostStatfs};
use crate::event;
use crate::event::{DirEntry, Event};
use crate::handles;
use crate::msgs;
use crate::msgs::{FileContent, Header, Stat, Statfs};
use crate::read;
use crate::reply;
use crate::reply::Reply;
use crate::server;
use crate::server::ServerState;
use crate::task;
use crate::task::{ChangeProgress, ReadTask, Task};
use crate::wire;

verus! {

/// What is sent is a packet that answers the request with this header: it has the
/// request's command and cookie, this result, and this data.
pub open spec fn answers(
    sent: Option<Seq<u8>>,
    header: Header,
    result: int,
    data: Seq<u8>,
) -> bool {
    &&& sent matches Some(packet)
    &&& packet == wire::le_bytes(header.command as int, 4) + wire::le_bytes(result, 4)
        + wire::le_bytes(header.cookie as int, 8) + data
    &&& Header::parse(packet).command == header.command
    &&& Header::parse(packet).result == result
    &&& Header::parse(packet).cookie == header.cookie
    &&& packet.skip(16) == data
}

proof fn lemma_answers(header: Header, result: i32, data: Seq<u8>)
    ensures
        answers(Some(reply::packet_of(header, result, data)), header, result as int, data),
{
    reply::law_packet_reads_back(header, result, data);
}

/// An outcome with a result is answered with that result and its data, unless the result
/// is the number that stands for "send nothing". A failure is always answered, with the
/// negated error number and no data.
pub proof fn law_outcomes_are_answered(
    header: Header,
    outcome: Result<Reply<Seq<u8>>, i32>,
)
    requires
        outcome != Err::<Reply<Seq<u8>>, i32>(i32::MIN),
    ensures
        match outcome {
            Ok(reply) => if reply.result == 0xAAAA {
                reply::response_of(header, outcome) is None
            } else {
                answers(
                    reply::response_of(header, outcome),
                    header,
                    reply.result as int,
                    reply.data,
                )
            },
            Err(e) => answers(reply::response_of(header, outcome), header, -e, Seq::empty()),
        },
{
    match outcome {
        Ok(reply) => {
            lemma_answers(header, reply.result, reply.data);
        },
        Err(e) => {
            lemma_answers(header, (-e) as i32, Seq::empty());
        },
    }
}

/// Whatever the task, a failure of the host is answered with the negated error number
/// and no data, and changes nothing. It can come of every task but a settled one.
pub proof fn law_failure_of_the_host_is_answered<F, D>(
    s: ServerState<F, D>,
    header: Header,
    task: Task<Seq<char>, Seq<u8>>,
    e: i32,
)
    requires
        e != i32::MIN,
    ensures
        answers(
            server::response(s, header, task, Event::<F, D, Seq<u8>>::Failed(e)),
            header,
            -e,
            Seq::empty(),
        ),
        server::after_event(s, task, Event::<F, D, Seq<u8>>::Failed(e)) == s,
        event::event_fits(task, Event::<F, D, Seq<u8>>::Failed(e)) <==> match task {
            Task::Settled(_) => false,
            Task::Read(read) => read.pending > 0,
            Task::ChangeStat { change, .. } => change.progress == ChangeProgress::Failed(e),
            _ => true,
        },
{
    lemma_answers(header, (-e) as i32, Seq::empty());
}

/// A task that has nothing to tell once it is done is answered with 0 and no data.
pub proof fn law_done_is_answered_with_zero<F, D>(
    s: ServerState<F, D>,
    header: Header,
    task: Task<Seq<char>, Seq<u8>>,
)
    requires
        task is Seek || task is Sync || task is SetLen || task is Unlink || task is MkDir
            || task is RmDir || task is Rename || task is ChangeStat,
    ensures
        answers(
            server::response(s, header, task, Event::<F, D, Seq<u8>>::Done),
            header,
            0,
            Seq::empty(),
        ),
        server::after_event(s, task, Event::<F, D, Seq<u8>>::Done) == s,
        event::event_fits(task, Event::<F, D, Seq<u8>>::Done) <==> match task {
            Task::ChangeStat { change, .. } => change.progress is Changed,
            _ => true,
        },
{
    lemma_answers(header, 0, Seq::empty());
}

/// A request that was settled at once is answered as it was settled.
pub proof fn law_settled_is_answered_as_settled<F, D>(
    s: ServerState<F, D>,
    header: Header,
    result: i32,
    data: Seq<u8>,
)
    requires
        result != 0xAAAA,
    ensures
        ({
            let task = Task::<Seq<char>, Seq<u8>>::Settled(Reply { result, data });
            let event = Event::<F, D, Seq<u8>>::Done;
            &&& event::event_fits(task, event)
            &&& answers(server::response(s, header, task, event), header, result as int, data)
            &&& server::after_event(s, task, event) == s
        }),
{
    lemma_answers(header, result, data);
}

/// A read is over once nothing is pending, and then nothing more is sent: its chunks
/// were the answer.
pub proof fn law_read_sends_nothing_more<F, D>(
    s: ServerState<F, D>,
    header: Header,
    read: ReadTask,
)
    ensures
        ({
            let task = Task::<Seq<char>, Seq<u8>>::Read(read);
            let event = Event::<F, D, Seq<u8>>::Done;
            &&& event::event_fits(task, event) <==> read.pending == 0
            &&& server::response(s, header, task, event) is None
            &&& server::after_event(s, task, event) == s
        }),
{
}

/// Each chunk of a read is answered with its size, with the fields of the request and
/// the chunk for data.
pub proof fn law_chunk_is_answered(header: Header, request: FileContent, chunk: Seq<u8>)
    requires
        chunk.len() <= 200,
    ensures
        answers(
            Some(read::chunk_packet(header, request, chunk)),
            header,
            chunk.len() as int,
            wire::le_bytes(request.fd as int, 4) + wire::le_bytes(request.content_size as int, 4)
                + chunk,
        ),
{
    let data = wire::le_bytes(request.fd as int, 4) + wire::le_bytes(
        request.content_size as int,
        4,
    ) + chunk;
    lemma_answers(header, chunk.len() as i32, data);
}

/// A file that was opened is put under the smallest free id, with the path that was
/// asked for, and that id is the answer. Nothing else changes.
pub proof fn law_opened_file_is_answered_with_its_id<F, D>(
    s: ServerState<F, D>,
    header: Header,
    path: Seq<char>,
    options: task::OpenOptions,
    file: F,
    id: i32,
)
    requires
        0 <= id,
        !s.files.contains_key(id),
        forall|lower: i32| 0 <= lower < id ==> #[trigger] s.files.contains_key(lower),
    ensures
        ({
            let task = Task::<Seq<char>, Seq<u8>>::Open { path, options };
            let event = Event::<F, D, Seq<u8>>::Opened(file);
            let after = server::after_event(s, task, event);
            let sent = server::response(s, header, task, event);
            &&& event::event_fits(task, event)
            &&& !handles::all_ids_taken(s.files)
            &&& id != 0xAAAA ==> answers(sent, header, id as int, Seq::empty())
            &&& id == 0xAAAA ==> sent is None
            &&& after.files == s.files.insert(id, (file, path))
            &&& after.directories == s.directories
            &&& after.host == s.host
        }),
{
    assert(handles::is_first_free(s.files, id));
    handles::lemma_first_free(s.files, id);
    lemma_answers(header, id, Seq::empty());
}

/// A directory that was opened is put under the smallest free id, with the path that was
/// asked for, and that id is the answer. Nothing else changes.
pub proof fn law_opened_directory_is_answered_with_its_id<F, D>(
    s: ServerState<F, D>,
    header: Header,
    path: Seq<char>,
    dir: D,
    id: i32,
)
    requires
        0 <= id,
        !s.directories.contains_key(id),
        forall|lower: i32| 0 <= lower < id ==> #[trigger] s.directories.contains_key(lower),
    ensures
        ({
            let task = Task::<Seq<char>, Seq<u8>>::OpenDir { path };
            let event = Event::<F, D, Seq<u8>>::OpenedDir(dir);
            let after = server::after_event(s, task, event);
            let sent = server::response(s, header, task, event);
            &&& event::event_fits(task, event)
            &&& !handles::all_ids_taken(s.directories)
            &&& id != 0xAAAA ==> answers(sent, header, id as int, Seq::empty())
            &&& id == 0xAAAA ==> sent is None
            &&& after.directories == s.directories.insert(id, (dir, path))
            &&& after.files == s.files
            &&& after.host == s.host
        }),
{
    assert(handles::is_first_free(s.directories, id));
    handles::lemma_first_free(s.directories, id);
    lemma_answers(header, id, Seq::empty());
}

/// A write is answered with the number of bytes that were written, as far as a result
/// can hold it, where the request has a cookie; and not at all where it has none.
pub proof fn law_write_is_answered_with_its_size<F, D>(
    s: ServerState<F, D>,
    header: Header,
    fd: i32,
    content: Seq<u8>,
    size: usize,
    result: i32,
)
    requires
        (size - result) % 0x1_0000_0000 == 0,
    ensures
        ({
            let task = Task::<Seq<char>, Seq<u8>>::Write { fd, content };
            let event = Event::<F, D, Seq<u8>>::Written(size);
            let sent = server::response(s, header, task, event);
            &&& event::event_fits(task, event)
            &&& header.cookie == 0 || result == 0xAAAA ==> sent is None
            &&& header.cookie != 0 && result != 0xAAAA ==> answers(
                sent,
                header,
                result as int,
                Seq::empty(),
            )
            &&& size <= i32::MAX ==> result == size
            &&& server::after_event(s, task, event) == s
        }),
{
    convert::law_cut_signed_keeps_the_low_bits(size as int, 0x1_0000_0000);
    let cut = convert::cut_signed(size as int, 0x1_0000_0000);
    assert(cut == result);
    lemma_answers(header, result, Seq::empty());
}

/// The next entry of a directory is answered with the id of the directory, the number
/// of its kind, and its name with a NUL byte behind it, whatever bytes the name has.
/// That there is none is answered with the host's "no such entry", negated.
pub proof fn law_entry_is_answered<F, D>(
    s: ServerState<F, D>,
    header: Header,
    dir_id: i32,
    entry: DirEntry<Seq<u8>>,
)
    requires
        s.host.wf(),
    ensures
        ({
            let task = Task::<Seq<char>, Seq<u8>>::NextEntry { dir_id };
            let given = Event::<F, D, Seq<u8>>::Entry(Some(entry));
            let none = Event::<F, D, Seq<u8>>::Entry(None);
            &&& event::event_fits(task, given)
            &&& event::event_fits(task, none)
            &&& answers(
                server::response(s, header, task, given),
                header,
                0,
                wire::le_bytes(dir_id as int, 4) + wire::le_bytes(
                    convert::item_type_of(entry.file_type) as int,
                    4,
                ) + entry.name + seq![0u8],
            )
            &&& answers(
                server::response(s, header, task, none),
                header,
                -s.host.enoent,
                Seq::empty(),
            )
            &&& server::after_event(s, task, given) == s
            &&& server::after_event(s, task, none) == s
        }),
{
    let data = wire::le_bytes(dir_id as int, 4) + wire::le_bytes(
        convert::item_type_of(entry.file_type) as int,
        4,
    ) + entry.name + seq![0u8];
    lemma_answers(header, 0, data);
    lemma_answers(header, (-s.host.enoent) as i32, Seq::empty());
}

/// The state of a file is answered with its fields: those that the protocol has at full
/// width as the host told them, and the others as far as they fit.
pub proof fn law_stat_is_answered<F, D>(
    s: ServerState<F, D>,
    header: Header,
    path: Seq<char>,
    st: HostStat,
)
    ensures
        ({
            let task = Task::<Seq<char>, Seq<u8>>::Stat { path };
            let event = Event::<F, D, Seq<u8>>::Stat(st);
            &&& event::event_fits(task, event)
            &&& server::after_event(s, task, event) == s
            &&& server::response(s, header, task, event) matches Some(packet)
            &&& packet.len() == 16 + 88
            &&& answers(Some(packet), header, 0, packet.skip(16))
            &&& Stat::parse(packet.skip(16)).mode == st.mode
            &&& Stat::parse(packet.skip(16)).size == st.size
            &&& Stat::parse(packet.skip(16)).atim_sec == st.atime
            &&& Stat::parse(packet.skip(16)).atim_nsec == st.atime_nsec
            &&& Stat::parse(packet.skip(16)).mtim_sec == st.mtime
            &&& Stat::parse(packet.skip(16)).mtim_nsec == st.mtime_nsec
            &&& Stat::parse(packet.skip(16)).ctim_sec == st.ctime
            &&& Stat::parse(packet.skip(16)).ctim_nsec == st.ctime_nsec
            &&& (st.dev - Stat::parse(packet.skip(16)).dev) % 0x1_0000_0000 == 0
            &&& (st.rdev - Stat::parse(packet.skip(16)).rdev) % 0x1_0000_0000 == 0
            &&& (st.ino - Stat::parse(packet.skip(16)).ino) % 0x1_0000 == 0
            &&& (st.nlink - Stat::parse(packet.skip(16)).nlink) % 0x1_0000 == 0
            &&& (st.blocks - Stat::parse(packet.skip(16)).blocks) % 0x1_0000_0000_0000_0000 == 0
            &&& (st.uid - Stat::parse(packet.skip(16)).uid) % 0x1_0000 == 0
            &&& (st.gid - Stat::parse(packet.skip(16)).gid) % 0x1_0000 == 0
            &&& (st.blksize - Stat::parse(packet.skip(16)).blksize) % 0x1_0000 == 0
            &&& Stat::parse(packet.skip(16)).reserved == 0
        }),
{
    let stat = convert::stat_of(st);
    let data = stat.bytes();
    lemma_answers(header, 0, data);
    msgs::law_stat_reads_back(stat, Seq::empty());
    assert(data + Seq::<u8>::empty() =~= data);
    convert::law_state_of_a_file_is_kept(st);
    assert(reply::packet_of(header, 0, data).skip(16) == data);
}

/// The state of a file system is answered with its fields as the host told them, but for
/// a type that takes more than 32 bits, which is answered with 0.
pub proof fn law_statfs_is_answered<F, D>(
    s: ServerState<F, D>,
    header: Header,
    path: Seq<char>,
    fs: HostStatfs,
)
    ensures
        ({
            let task = Task::<Seq<char>, Seq<u8>>::Statfs { path };
            let event = Event::<F, D, Seq<u8>>::Statfs(fs);
            &&& event::event_fits(task, event)
            &&& server::after_event(s, task, event) == s
            &&& server::response(s, header, task, event) matches Some(packet)
            &&& packet.len() == 16 + 64
            &&& answers(Some(packet), header, 0, packet.skip(16))
            &&& 0 <= fs.fstype < 0x1_0000_0000 ==> Statfs::parse(packet.skip(16)).fstype
                == fs.fstype
            &&& fs.fstype < 0 || fs.fstype >= 0x1_0000_0000 ==> Statfs::parse(
                packet.skip(16),
            ).fstype == 0
            &&& Statfs::parse(packet.skip(16)).reserved == 0
            &&& Statfs::parse(packet.skip(16)).namelen == fs.namelen
            &&& Statfs::parse(packet.skip(16)).bsize == fs.bsize
            &&& Statfs::parse(packet.skip(16)).blocks == fs.blocks
            &&& Statfs::parse(packet.skip(16)).bfree == fs.bfree
            &&& Statfs::parse(packet.skip(16)).bavail == fs.bavail
            &&& Statfs::parse(packet.skip(16)).files == fs.files
            &&& Statfs::parse(packet.skip(16)).ffree == fs.ffree
        }),
{
    let statfs = convert::statfs_of(fs);
    let data = statfs.bytes();
    lemma_answers(header, 0, data);
    msgs::law_statfs_reads_back(statfs, Seq::empty());
    assert(data + Seq::<u8>::empty() =~= data);
    convert::law_state_of_a_file_system_is_kept(fs);
    assert(reply::packet_of(header, 0, data).skip(16) == data);
}

/// An event comes only of the tasks that it tells of.
pub proof fn law_events_come_of_their_tasks<F, D>(
    task: Task<Seq<char>, Seq<u8>>,
    event: Event<F, D, Seq<u8>>,
)
    requires
        event::event_fits(task, event),
    ensures
        event is Opened ==> task is Open,
        event is OpenedDir ==> task is OpenDir,
        event is Entry ==> task is NextEntry,
        event is Written ==> task is Write,
        event is Statfs ==> task is Statfs,
        event is Stat ==> task is Stat,
        task is Open ==> event is Opened || event is Failed,
        task is OpenDir ==> event is OpenedDir || event is Failed,
        task is NextEntry ==> event is Entry || event is Failed,
        task is Write ==> event is Written || event is Failed,
        task is Statfs ==> event is Statfs || event is Failed,
        task is Stat ==> event is Stat || event is Failed,
        task is Settled ==> event is Done,
{
}

} // verus!
