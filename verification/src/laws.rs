//! What holds of the server as a whole.

use vstd::prelude::*;
use vstd::utf8::*;
use crate::change;
use crate::convert;
use crate::convert::HostStat;
use crate::convert::HostStatfs;
use crate::event;
use crate::event::{DirEntry, Event};
use crate::handles;
use crate::host::HostConstants;
use crate::msgs;
use crate::msgs::{Chstat, FTruncate, FileContent, Header, MkDir, Open};
use crate::msgs::{ReadDir, Seek, Stat, Statfs};
use crate::path;
use crate::reply;
use crate::reply::{Reply, RESULT_DO_NOT_SEND_RESPONSE};
use crate::server;
use crate::server::ServerState;
use crate::task::{ReadTask, StatChange, Task};
use crate::wire;

pub mod replies;
pub mod requests;

verus! {

/// The server knows what to do for this command.
pub open spec fn is_supported(command: u32) -> bool {
    ||| command == msgs::CMD_OPEN
    ||| command == msgs::CMD_CLOSE
    ||| command == msgs::CMD_READ
    ||| command == msgs::CMD_WRITE
    ||| command == msgs::CMD_SEEK
    ||| command == msgs::CMD_SYNC
    ||| command == msgs::CMD_FSTAT
    ||| command == msgs::CMD_FTRUNCATE
    ||| command == msgs::CMD_OPENDIR
    ||| command == msgs::CMD_READDIR
    ||| command == msgs::CMD_REWINDDIR
    ||| command == msgs::CMD_CLOSEDIR
    ||| command == msgs::CMD_STATFS
    ||| command == msgs::CMD_UNLINK
    ||| command == msgs::CMD_MKDIR
    ||| command == msgs::CMD_RMDIR
    ||| command == msgs::CMD_RENAME
    ||| command == msgs::CMD_STAT
    ||| command == msgs::CMD_FCHSTAT
    ||| command == msgs::CMD_CHSTAT
}

/// The command is about the open file whose id comes first in the data.
pub open spec fn names_file(command: u32) -> bool {
    ||| command == msgs::CMD_READ
    ||| command == msgs::CMD_WRITE
    ||| command == msgs::CMD_SEEK
    ||| command == msgs::CMD_SYNC
    ||| command == msgs::CMD_FTRUNCATE
}

/// The command is about the open directory whose id comes first in the data.
pub open spec fn names_directory(command: u32) -> bool {
    ||| command == msgs::CMD_CLOSE
    ||| command == msgs::CMD_READDIR
    ||| command == msgs::CMD_REWINDDIR
    ||| command == msgs::CMD_CLOSEDIR
}

/// A request with an unknown command leaves the server as it is and is answered
/// with the host's "not supported", as a positive number.
pub proof fn law_unknown_command_is_refused<F, D>(
    s: ServerState<F, D>,
    header: Header,
    data: Seq<u8>,
)
    requires
        s.host.wf(),
        !is_supported(header.command),
    ensures
        server::after(s, header.command, data) == s,
        server::meaning(s, header.command, data) matches Err(e) && reply::response_of(
            header,
            Err(e),
        ) == Some(reply::packet_of(header, s.host.enotsup, Seq::empty())),
{
}

/// A request about a file that is not open is refused with the host's "bad file
/// number", and the server stays as it is.
pub proof fn law_file_that_is_not_open_is_refused<F, D>(
    s: ServerState<F, D>,
    command: u32,
    data: Seq<u8>,
)
    requires
        ({
            ||| names_file(command) && !s.files.contains_key(wire::i32_at(data, 0))
            ||| command == msgs::CMD_FSTAT && !s.files.contains_key(
                wire::i32_at(data, msgs::STAT_SIZE as int),
            )
            ||| command == msgs::CMD_FCHSTAT && !s.files.contains_key(
                wire::i32_at(data, msgs::CHSTAT_SIZE as int),
            )
        }),
    ensures
        server::meaning(s, command, data) == Err::<Task<Seq<char>, Seq<u8>>, i32>(s.host.ebadf),
        server::after(s, command, data) == s,
{
}

/// A request about a directory that is not open is refused with the host's "bad
/// file number", and the server stays as it is.
pub proof fn law_directory_that_is_not_open_is_refused<F, D>(
    s: ServerState<F, D>,
    command: u32,
    data: Seq<u8>,
)
    requires
        names_directory(command),
        !s.directories.contains_key(wire::i32_at(data, 0)),
    ensures
        server::meaning(s, command, data) == Err::<Task<Seq<char>, Seq<u8>>, i32>(s.host.ebadf),
        server::after(s, command, data) == s,
{
    assert(s.directories.remove(wire::i32_at(data, 0)) =~= s.directories);
}

/// No request closes a file: files stay open under their ids, with their paths,
/// whatever else is requested.
pub proof fn law_open_files_stay_open<F, D>(
    s: ServerState<F, D>,
    command: u32,
    data: Seq<u8>,
    task: Task<Seq<char>, Seq<u8>>,
    event: Event<F, D, Seq<u8>>,
    id: i32,
)
    requires
        s.files.contains_key(id),
        event is Opened ==> !handles::all_ids_taken(s.files),
    ensures
        server::after(s, command, data).files == s.files,
        server::after_event(s, task, event).files.contains_key(id),
        server::after_event(s, task, event).files[id] == s.files[id],
{
    if event is Opened {
        handles::lemma_first_free_exists(s.files);
    }
}

/// A directory stays open under its id until a request closes or rewinds it.
pub proof fn law_open_directories_stay_open<F, D>(
    s: ServerState<F, D>,
    command: u32,
    data: Seq<u8>,
    task: Task<Seq<char>, Seq<u8>>,
    event: Event<F, D, Seq<u8>>,
    id: i32,
)
    requires
        s.directories.contains_key(id),
        event is OpenedDir ==> !handles::all_ids_taken(s.directories),
    ensures
        server::after_event(s, task, event).directories.contains_key(id),
        server::after_event(s, task, event).directories[id] == s.directories[id],
        server::after(s, command, data).directories.contains_key(id) <==> !((command
            == msgs::CMD_CLOSE || command == msgs::CMD_CLOSEDIR || command == msgs::CMD_REWINDDIR)
            && id == wire::i32_at(data, 0)),
        server::after(s, command, data).directories.contains_key(id) ==> server::after(
            s,
            command,
            data,
        ).directories[id] == s.directories[id],
{
    if event is OpenedDir {
        handles::lemma_first_free_exists(s.directories);
    }
}

/// A file that was opened is found again: its id was free, and a request for the
/// state of the file with that id looks up the path that it was opened by.
pub proof fn law_opened_file_is_found<F, D>(
    s: ServerState<F, D>,
    header: Header,
    open_data: Seq<u8>,
    file: F,
    fstat_data: Seq<u8>,
)
    requires
        !handles::all_ids_taken(s.files),
        wire::i32_at(fstat_data, msgs::STAT_SIZE as int) == handles::first_free(s.files),
    ensures
        ({
            let task = server::open_task(s.host, open_data);
            let event = Event::<F, D, Seq<u8>>::Opened(file);
            let id = handles::first_free(s.files);
            let opened = server::after_event(s, task, event);
            &&& !s.files.contains_key(id)
            &&& 0 <= id
            &&& server::outcome(s, header, task, event) == Ok::<reply::Reply<Seq<u8>>, i32>(
                reply::bare(id),
            )
            &&& opened.files.contains_key(id)
            &&& opened.files[id].0 == file
            &&& server::meaning(opened, msgs::CMD_FSTAT, fstat_data) == Ok::<
                Task<Seq<char>, Seq<u8>>,
                i32,
            >(Task::Stat { path: path::path_at(open_data, msgs::OPEN_SIZE as int) })
        }),
{
    handles::lemma_first_free_exists(s.files);
}

/// The state of an open file is the state of the file at the path that it was opened
/// by: the request by id means the same as the request by path. What stands in the
/// place of the fields has no influence on either, nor has what follows the id or the
/// NUL byte that ends the path.
pub proof fn law_stat_by_id_is_stat_by_path<F, D>(
    s: ServerState<F, D>,
    fd: i32,
    fields: Seq<u8>,
    other_fields: Seq<u8>,
    rest: Seq<u8>,
    other_rest: Seq<u8>,
)
    requires
        s.wf(),
        s.files.contains_key(fd),
        fields.len() == msgs::STAT_SIZE,
        other_fields.len() == msgs::STAT_SIZE,
        other_rest.len() == 0 || other_rest[0] == 0,
    ensures
        ({
            let path = s.files[fd].1;
            let by_id = fields + wire::le_bytes(fd as int, 4) + rest;
            let by_path = other_fields + encode_utf8(path) + other_rest;
            &&& server::holds_fields(msgs::CMD_FSTAT, by_id)
            &&& server::holds_fields(msgs::CMD_STAT, by_path)
            &&& server::meaning(s, msgs::CMD_FSTAT, by_id) == Ok::<Task<Seq<char>, Seq<u8>>, i32>(
                Task::Stat { path },
            )
            &&& server::meaning(s, msgs::CMD_FSTAT, by_id) == server::meaning(
                s,
                msgs::CMD_STAT,
                by_path,
            )
            &&& server::after(s, msgs::CMD_FSTAT, by_id) == s
            &&& server::after(s, msgs::CMD_STAT, by_path) == s
        }),
{
    let path = s.files[fd].1;
    let by_id = fields + wire::le_bytes(fd as int, 4) + rest;
    let at = msgs::STAT_SIZE as int;
    wire::lemma_le_bytes_len(fd as int, 4);
    assert(by_id.subrange(at, at + 4) =~= wire::le_bytes(fd as int, 4));
    wire::law_i32_reads_back(by_id, at, fd);
    path::law_path_behind_fields_reads_back(other_fields, path, other_rest);
}

/// A request to change the state of an open file holds its fields and the id.
pub proof fn lemma_chstat_by_id(chstat: Chstat, fd: i32, rest: Seq<u8>)
    ensures
        ({
            let data = chstat.bytes() + wire::le_bytes(fd as int, 4) + rest;
            &&& data.len() >= 96
            &&& Chstat::parse(data) == chstat
            &&& wire::i32_at(data, 92) == fd
        }),
{
    let id = wire::le_bytes(fd as int, 4);
    let data = chstat.bytes() + id + rest;
    assert(Chstat::parse(data) == chstat && chstat.bytes().len() == 92 && id.len() == 4) by {
        wire::lemma_le_bytes_len(fd as int, 4);
        assert(data =~= chstat.bytes() + (id + rest));
        msgs::law_chstat_reads_back(chstat, id + rest);
    }
    assert(data.subrange(92, 96) =~= id);
    wire::law_i32_reads_back(data, 92, fd);
}

/// To change the state of an open file is to change that of the file at the path that
/// it was opened by: the request by id means the same as the request by path.
pub proof fn law_chstat_by_id_is_chstat_by_path<F, D>(
    s: ServerState<F, D>,
    fd: i32,
    chstat: Chstat,
    rest: Seq<u8>,
    other_rest: Seq<u8>,
)
    requires
        s.wf(),
        s.files.contains_key(fd),
        other_rest.len() == 0 || other_rest[0] == 0,
    ensures
        ({
            let path = s.files[fd].1;
            let by_id = chstat.bytes() + wire::le_bytes(fd as int, 4) + rest;
            let by_path = chstat.bytes() + encode_utf8(path) + other_rest;
            &&& server::holds_fields(msgs::CMD_FCHSTAT, by_id)
            &&& server::holds_fields(msgs::CMD_CHSTAT, by_path)
            &&& server::meaning(s, msgs::CMD_FCHSTAT, by_id) == Ok::<
                Task<Seq<char>, Seq<u8>>,
                i32,
            >(
                Task::ChangeStat {
                    path,
                    change: change::not_begun(convert::change_of(chstat)),
                },
            )
            &&& server::meaning(s, msgs::CMD_FCHSTAT, by_id) == server::meaning(
                s,
                msgs::CMD_CHSTAT,
                by_path,
            )
            &&& server::after(s, msgs::CMD_FCHSTAT, by_id) == s
            &&& server::after(s, msgs::CMD_CHSTAT, by_path) == s
        }),
{
    let path = s.files[fd].1;
    let by_id = chstat.bytes() + wire::le_bytes(fd as int, 4) + rest;
    lemma_chstat_by_id(chstat, fd, rest);
    assert(server::meaning(s, msgs::CMD_FCHSTAT, by_id) == Ok::<Task<Seq<char>, Seq<u8>>, i32>(
        Task::ChangeStat { path, change: change::not_begun(convert::change_of(chstat)) },
    ));
    law_chstat_request_reads_back(s, chstat, path, other_rest);
}

/// A change of a file is answered with 0 exactly where both its calls have worked,
/// and else with the negated error number of the call that failed.
pub proof fn law_change_is_answered<F, D>(
    s: ServerState<F, D>,
    header: Header,
    path: Seq<char>,
    change: StatChange,
    mode: Result<(), i32>,
    times: Result<(), i32>,
    event: Event<F, D, Seq<u8>>,
)
    requires
        event::event_fits(
            (Task::ChangeStat {
                path,
                change: change::run(change::not_begun(change), seq![mode, times]).1,
            }),
            event,
        ),
    ensures
        ({
            let end = change::run(change::not_begun(change), seq![mode, times]).1;
            let task = Task::<Seq<char>, Seq<u8>>::ChangeStat { path, change: end };
            let sent = server::response(s, header, task, event);
            &&& mode is Ok && times is Ok ==> event is Done && sent == Some(
                reply::packet_of(header, 0, Seq::empty()),
            )
            &&& mode matches Err(e) ==> event == Event::<F, D, Seq<u8>>::Failed(e) && sent == Some(
                reply::packet_of(header, (-e) as i32, Seq::empty()),
            )
            &&& mode is Ok ==> (times matches Err(e) ==> event == Event::<F, D, Seq<u8>>::Failed(e)
                && sent == Some(reply::packet_of(header, (-e) as i32, Seq::empty())))
            &&& server::after_event(s, task, event) == s
        }),
{
    change::law_change_takes_both_calls(change, mode, times);
}

/// The outcome of one request for the next entry of a directory, and the state that it
/// leaves, where the host gives `next` and its handle is `handle` from then on.
pub open spec fn listing_step<F, D>(
    s: ServerState<F, D>,
    header: Header,
    data: Seq<u8>,
    handle: D,
    next: Option<DirEntry<Seq<u8>>>,
) -> (Result<Reply<Seq<u8>>, i32>, ServerState<F, D>) {
    let understood = server::after(s, msgs::CMD_READDIR, data);
    match server::meaning(s, msgs::CMD_READDIR, data) {
        Ok(task) => {
            let dir_id = wire::i32_at(data, 0);
            let moved = understood.with_directory(dir_id, handle, s.directories[dir_id].1);
            let event = Event::Entry(next);
            (
                server::outcome(moved, header, task, event),
                server::after_event(moved, task, event),
            )
        },
        Err(e) => (Err(e), understood),
    }
}

/// The outcomes of a row of such requests, and the state that they leave. To the
/// request with header `requests[i].0` and data `requests[i].1` the host gives
/// `given[i].1`, and its handle is `given[i].0` from then on.
pub open spec fn listing<F, D>(
    s: ServerState<F, D>,
    requests: Seq<(Header, Seq<u8>)>,
    given: Seq<(D, Option<DirEntry<Seq<u8>>>)>,
) -> (Seq<Result<Reply<Seq<u8>>, i32>>, ServerState<F, D>)
    decreases requests.len(),
{
    if requests.len() == 0 {
        (Seq::empty(), s)
    } else {
        let step = listing_step(s, requests[0].0, requests[0].1, given[0].0, given[0].1);
        let rest = listing(step.1, requests.drop_first(), given.drop_first());
        (seq![step.0] + rest.0, rest.1)
    }
}

/// Each request of a row is answered with what the host gave to it, and the directory
/// stays open by its path, with the host's last handle. Nothing else changes.
pub proof fn law_listing_follows_the_host<F, D>(
    s: ServerState<F, D>,
    dir_id: i32,
    requests: Seq<(Header, Seq<u8>)>,
    given: Seq<(D, Option<DirEntry<Seq<u8>>>)>,
)
    requires
        s.directories.contains_key(dir_id),
        requests.len() == given.len(),
        forall|i: int|
            0 <= i < requests.len() ==> wire::i32_at((#[trigger] requests[i]).1, 0) == dir_id,
    ensures
        ({
            let (outcomes, end) = listing(s, requests, given);
            &&& outcomes.len() == requests.len()
            &&& forall|i: int|
                0 <= i < outcomes.len() ==> #[trigger] outcomes[i] == event::entry_outcome(
                    s.host,
                    dir_id,
                    given[i].1,
                )
            &&& requests.len() == 0 ==> end == s
            &&& requests.len() > 0 ==> end == s.with_directory(
                dir_id,
                given.last().0,
                s.directories[dir_id].1,
            )
        }),
    decreases requests.len(),
{
    let (outcomes, end) = listing(s, requests, given);
    if requests.len() > 0 {
        let next = listing_step(s, requests[0].0, requests[0].1, given[0].0, given[0].1).1;
        let later = requests.drop_first();
        let later_given = given.drop_first();
        assert(wire::i32_at(requests[0].1, 0) == dir_id);
        assert(next == s.with_directory(dir_id, given[0].0, s.directories[dir_id].1));
        assert forall|i: int| 0 <= i < later.len() implies wire::i32_at(
            (#[trigger] later[i]).1,
            0,
        ) == dir_id by {
            assert(later[i] == requests[i + 1]);
        }
        law_listing_follows_the_host(next, dir_id, later, later_given);
        let rest = listing(next, later, later_given);
        assert forall|i: int| 0 <= i < outcomes.len() implies #[trigger] outcomes[i]
            == event::entry_outcome(s.host, dir_id, given[i].1) by {
            if i > 0 {
                assert(outcomes[i] == rest.0[i - 1]);
                assert(later_given[i - 1] == given[i]);
            }
        }
        if later.len() > 0 {
            assert(later_given.last() == given.last());
            assert(s.directories.insert(dir_id, (given[0].0, s.directories[dir_id].1)).insert(
                dir_id,
                (given.last().0, s.directories[dir_id].1),
            ) =~= s.directories.insert(
                dir_id,
                (given.last().0, s.directories[dir_id].1),
            ));
        }
        assert(end == s.with_directory(dir_id, given.last().0, s.directories[dir_id].1));
    }
}

/// A whole listing: where the host gives the entries of a directory one by one and then
/// has none left, the first requests are answered with the entries, each once and in
/// order, and the one behind them with the host's "no such entry". The directory is
/// still open then.
pub proof fn law_directory_is_listed<F, D>(
    s: ServerState<F, D>,
    dir_id: i32,
    requests: Seq<(Header, Seq<u8>)>,
    entries: Seq<DirEntry<Seq<u8>>>,
    cursors: Seq<D>,
)
    requires
        s.directories.contains_key(dir_id),
        requests.len() == entries.len() + 1,
        cursors.len() == entries.len() + 1,
        forall|i: int|
            0 <= i < requests.len() ==> wire::i32_at((#[trigger] requests[i]).1, 0) == dir_id,
    ensures
        ({
            let given = Seq::new(
                requests.len(),
                |i: int|
                    (
                        cursors[i],
                        if i < entries.len() {
                            Some(entries[i])
                        } else {
                            None
                        },
                    ),
            );
            let (outcomes, end) = listing(s, requests, given);
            &&& outcomes.len() == entries.len() + 1
            &&& forall|i: int|
                0 <= i < entries.len() ==> #[trigger] outcomes[i] == Ok::<
                    Reply<Seq<u8>>,
                    i32,
                >(
                    Reply {
                        result: 0,
                        data: (ReadDir {
                            dir_id,
                            item_type: convert::item_type_of(entries[i].file_type),
                        }).bytes() + entries[i].name + seq![0u8],
                    },
                )
            &&& outcomes.last() == Err::<Reply<Seq<u8>>, i32>(s.host.enoent)
            &&& end.directories.contains_key(dir_id)
            &&& end.directories[dir_id].1 == s.directories[dir_id].1
            &&& end == s.with_directory(dir_id, cursors.last(), s.directories[dir_id].1)
        }),
{
    let given = Seq::new(
        requests.len(),
        |i: int|
            (
                cursors[i],
                if i < entries.len() {
                    Some(entries[i])
                } else {
                    None
                },
            ),
    );
    law_listing_follows_the_host(s, dir_id, requests, given);
}

/// Closing a directory works once: the second time there is none.
pub proof fn law_directory_closes_once<F, D>(
    s: ServerState<F, D>,
    command: u32,
    again: u32,
    data: Seq<u8>,
)
    requires
        command == msgs::CMD_CLOSE || command == msgs::CMD_CLOSEDIR,
        again == msgs::CMD_CLOSE || again == msgs::CMD_CLOSEDIR,
        s.directories.contains_key(wire::i32_at(data, 0)),
    ensures
        server::meaning(s, command, data) == Ok::<Task<Seq<char>, Seq<u8>>, i32>(
            Task::Settled(reply::bare(0)),
        ),
        server::meaning(server::after(s, command, data), again, data) == Err::<
            Task<Seq<char>, Seq<u8>>,
            i32,
        >(s.host.ebadf),
{
}

/// Closing a directory undoes opening it.
pub proof fn law_closing_undoes_opening<F, D>(
    s: ServerState<F, D>,
    path: Seq<char>,
    dir: D,
    close_data: Seq<u8>,
)
    requires
        !handles::all_ids_taken(s.directories),
        wire::i32_at(close_data, 0) == handles::first_free(s.directories),
    ensures
        server::after(
            server::after_event(
                s,
                Task::OpenDir { path },
                Event::<F, D, Seq<u8>>::OpenedDir(dir),
            ),
            msgs::CMD_CLOSEDIR,
            close_data,
        ) == s,
{
    handles::lemma_first_free_exists(s.directories);
    let id = handles::first_free(s.directories);
    assert(s.directories.insert(id, (dir, path)).remove(id) =~= s.directories);
}

/// Rewinding a directory opens the path that it was opened by, and puts it under
/// an id that is no larger. No other directory is touched.
pub proof fn law_rewinding_keeps_the_path<F, D>(s: ServerState<F, D>, data: Seq<u8>, dir: D)
    requires
        s.directories.contains_key(wire::i32_at(data, 0)),
        0 <= wire::i32_at(data, 0),
    ensures
        ({
            let old_id = wire::i32_at(data, 0);
            let path = s.directories[old_id].1;
            let task = Task::<Seq<char>, Seq<u8>>::OpenDir { path };
            let released = server::after(s, msgs::CMD_REWINDDIR, data);
            let new_id = handles::first_free(released.directories);
            let rewound = server::after_event(
                released,
                task,
                Event::<F, D, Seq<u8>>::OpenedDir(dir),
            );
            &&& server::meaning(s, msgs::CMD_REWINDDIR, data) == Ok::<
                Task<Seq<char>, Seq<u8>>,
                i32,
            >(task)
            &&& !handles::all_ids_taken(released.directories)
            &&& new_id <= old_id
            &&& rewound.directories == s.directories.remove(old_id).insert(new_id, (dir, path))
            &&& forall|id: i32|
                s.directories.contains_key(id) && id != old_id
                    ==> #[trigger] rewound.directories.contains_key(id)
                    && rewound.directories[id] == s.directories[id]
        }),
{
    let old_id = wire::i32_at(data, 0);
    let released = server::after(s, msgs::CMD_REWINDDIR, data);
    assert(!released.directories.contains_key(old_id));
    handles::lemma_first_free_exists(released.directories);
}

/// Every reply carries the command and the cookie of its request.
pub proof fn law_reply_matches_its_request<F, D>(
    s: ServerState<F, D>,
    header: Header,
    task: Task<Seq<char>, Seq<u8>>,
    event: Event<F, D, Seq<u8>>,
)
    ensures
        server::response(s, header, task, event) matches Some(packet) ==> Header::parse(
            packet,
        ).command == header.command && Header::parse(packet).cookie == header.cookie,
{
    match server::outcome(s, header, task, event) {
        Ok(reply) => {
            reply::law_packet_reads_back(header, reply.result, reply.data);
        },
        Err(e) => {
            reply::law_packet_reads_back(header, (-e) as i32, Seq::empty());
        },
    }
}

/// A request is left without an answer exactly where it was a read that went well,
/// whose chunks were the answer; where it was a write without a cookie; and where
/// the id or the size to be sent happens to be the number that stands for "send
/// nothing".
pub proof fn law_when_nothing_is_sent<F, D>(
    s: ServerState<F, D>,
    header: Header,
    task: Task<Seq<char>, Seq<u8>>,
    event: Event<F, D, Seq<u8>>,
)
    requires
        event::event_fits(task, event),
        task matches Task::Settled(reply) ==> reply == reply::bare(0),
    ensures
        server::response(s, header, task, event) is None <==> {
            ||| task is Read && event is Done
            ||| event matches Event::Written(size) && (header.cookie == 0 || convert::cut_signed(
                size as int,
                0x1_0000_0000,
            ) == RESULT_DO_NOT_SEND_RESPONSE)
            ||| event is Opened && handles::first_free(s.files) == RESULT_DO_NOT_SEND_RESPONSE
            ||| event is OpenedDir && handles::first_free(s.directories)
                == RESULT_DO_NOT_SEND_RESPONSE
        },
{
}

/// The content of a write request comes out of it as it went in, whatever follows.
pub proof fn law_written_content_reads_back(request: FileContent, content: Seq<u8>, rest: Seq<u8>)
    requires
        request.content_size == content.len(),
    ensures
        ({
            let data = request.bytes() + content + rest;
            &&& server::holds_fields(msgs::CMD_WRITE, data)
            &&& server::write_task(data) == Task::<Seq<char>, Seq<u8>>::Write {
                fd: request.fd,
                content,
            }
        }),
{
    let data = request.bytes() + content + rest;
    assert(data =~= request.bytes() + (content + rest));
    msgs::law_file_content_reads_back(request, content + rest);
    assert(data.subrange(
        msgs::FILECONTENT_SIZE as int,
        msgs::FILECONTENT_SIZE + request.content_size,
    ) =~= content);
}

/// An open request means what was put into it: the path, and the options that its
/// flags and its mode stand for.
pub proof fn law_open_request_reads_back<F, D>(
    s: ServerState<F, D>,
    open: Open,
    path: Seq<char>,
    rest: Seq<u8>,
)
    requires
        !path.contains('\0'),
        rest.len() == 0 || rest[0] == 0,
    ensures
        ({
            let data = open.bytes() + encode_utf8(path) + rest;
            &&& server::holds_fields(msgs::CMD_OPEN, data)
            &&& server::meaning(s, msgs::CMD_OPEN, data) == Ok::<Task<Seq<char>, Seq<u8>>, i32>(
                Task::Open { path, options: convert::options_of(open, s.host) },
            )
        }),
{
    assert(open.bytes() + encode_utf8(path) + rest =~= open.bytes() + (encode_utf8(path) + rest));
    msgs::law_open_reads_back(open, encode_utf8(path) + rest);
    path::law_path_behind_fields_reads_back(open.bytes(), path, rest);
}

/// A request to make a directory means what was put into it.
pub proof fn law_mkdir_request_reads_back<F, D>(
    s: ServerState<F, D>,
    mkdir: MkDir,
    path: Seq<char>,
    rest: Seq<u8>,
)
    requires
        !path.contains('\0'),
        rest.len() == 0 || rest[0] == 0,
    ensures
        ({
            let data = mkdir.bytes() + encode_utf8(path) + rest;
            &&& server::holds_fields(msgs::CMD_MKDIR, data)
            &&& server::meaning(s, msgs::CMD_MKDIR, data) == Ok::<Task<Seq<char>, Seq<u8>>, i32>(
                Task::MkDir { path, mode: mkdir.mode },
            )
        }),
{
    assert(mkdir.bytes() + encode_utf8(path) + rest =~= mkdir.bytes() + (encode_utf8(path)
        + rest));
    msgs::law_mkdir_reads_back(mkdir, encode_utf8(path) + rest);
    path::law_path_behind_fields_reads_back(mkdir.bytes(), path, rest);
}

/// A request to change the state of a file means what was put into it.
pub proof fn law_chstat_request_reads_back<F, D>(
    s: ServerState<F, D>,
    chstat: Chstat,
    path: Seq<char>,
    rest: Seq<u8>,
)
    requires
        !path.contains('\0'),
        rest.len() == 0 || rest[0] == 0,
    ensures
        ({
            let data = chstat.bytes() + encode_utf8(path) + rest;
            &&& server::holds_fields(msgs::CMD_CHSTAT, data)
            &&& server::meaning(s, msgs::CMD_CHSTAT, data) == Ok::<Task<Seq<char>, Seq<u8>>, i32>(
                Task::ChangeStat { path, change: change::not_begun(convert::change_of(chstat)) },
            )
        }),
{
    assert(chstat.bytes() + encode_utf8(path) + rest =~= chstat.bytes() + (encode_utf8(path)
        + rest));
    msgs::law_chstat_reads_back(chstat, encode_utf8(path) + rest);
    path::law_path_behind_fields_reads_back(chstat.bytes(), path, rest);
}

/// A read request for an open file means what was put into it: all that it asks for
/// is still to be sent.
pub proof fn law_read_request_reads_back<F, D>(
    s: ServerState<F, D>,
    request: FileContent,
    rest: Seq<u8>,
)
    requires
        s.files.contains_key(request.fd),
    ensures
        server::meaning(s, msgs::CMD_READ, request.bytes() + rest) == Ok::<
            Task<Seq<char>, Seq<u8>>,
            i32,
        >((Task::Read(ReadTask { request, pending: request.content_size as usize }))),
{
    msgs::law_file_content_reads_back(request, rest);
}

/// A seek request for an open file means what was put into it.
pub proof fn law_seek_request_reads_back<F, D>(s: ServerState<F, D>, seek: Seek, rest: Seq<u8>)
    requires
        s.files.contains_key(seek.fd),
    ensures
        server::meaning(s, msgs::CMD_SEEK, seek.bytes() + rest) == Ok::<
            Task<Seq<char>, Seq<u8>>,
            i32,
        >((Task::Seek { fd: seek.fd, target: convert::target_of(seek) })),
{
    msgs::law_seek_reads_back(seek, rest);
}

/// A request for the size of an open file means what was put into it.
pub proof fn law_ftruncate_request_reads_back<F, D>(
    s: ServerState<F, D>,
    ftruncate: FTruncate,
    rest: Seq<u8>,
)
    requires
        s.files.contains_key(ftruncate.fd),
    ensures
        server::meaning(s, msgs::CMD_FTRUNCATE, ftruncate.bytes() + rest) == Ok::<
            Task<Seq<char>, Seq<u8>>,
            i32,
        >(
            (Task::SetLen {
                fd: ftruncate.fd,
                len: convert::cut_unsigned(ftruncate.length as int, 0x1_0000_0000_0000_0000) as u64,
            }),
        ),
{
    msgs::law_ftruncate_reads_back(ftruncate, rest);
}

/// The reply for a directory entry reads back as the id, the kind and the name.
pub proof fn law_entry_reads_back(
    host: HostConstants,
    dir_id: i32,
    entry: DirEntry<Seq<u8>>,
    name: Seq<char>,
)
    requires
        entry.name == encode_utf8(name),
        !name.contains('\0'),
    ensures
        event::entry_outcome(host, dir_id, Some(entry)) matches Ok(reply) && reply.result == 0
            && ReadDir::parse(reply.data) == (ReadDir {
            dir_id,
            item_type: convert::item_type_of(entry.file_type),
        }) && path::path_at(reply.data, msgs::READDIR_SIZE as int) == name,
{
    let fields = ReadDir { dir_id, item_type: convert::item_type_of(entry.file_type) };
    let data = fields.bytes() + entry.name + seq![0u8];
    assert(data =~= fields.bytes() + (entry.name + seq![0u8]));
    msgs::law_read_dir_reads_back(fields, entry.name + seq![0u8]);
    path::law_path_behind_fields_reads_back(fields.bytes(), name, seq![0u8]);
}

/// The reply for the state of a file reads back, and what fits the protocol is as
/// the host told it.
pub proof fn law_stat_reads_back(st: HostStat)
    ensures
        ({
            let stat = Stat::parse(event::stat_reply(st).data);
            &&& stat == convert::stat_of(st)
            &&& st.dev <= u32::MAX ==> stat.dev == st.dev
            &&& st.rdev <= u32::MAX ==> stat.rdev == st.rdev
            &&& st.ino <= u16::MAX ==> stat.ino == st.ino
            &&& st.nlink <= u16::MAX ==> stat.nlink == st.nlink
            &&& 0 <= st.blocks ==> stat.blocks == st.blocks
            &&& st.uid <= i16::MAX ==> stat.uid == st.uid
            &&& st.gid <= i16::MAX ==> stat.gid == st.gid
            &&& i16::MIN <= st.blksize <= i16::MAX ==> stat.blksize == st.blksize
        }),
{
    let stat = convert::stat_of(st);
    msgs::law_stat_reads_back(stat, Seq::empty());
    assert(stat.bytes() + Seq::<u8>::empty() =~= stat.bytes());
}

/// The reply for the state of a file system reads back.
pub proof fn law_statfs_reads_back(fs: HostStatfs)
    ensures
        Statfs::parse(event::statfs_reply(fs).data) == convert::statfs_of(fs),
{
    let statfs = convert::statfs_of(fs);
    msgs::law_statfs_reads_back(statfs, Seq::empty());
    assert(statfs.bytes() + Seq::<u8>::empty() =~= statfs.bytes());
}

} // verus!
