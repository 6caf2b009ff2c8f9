//! What each request means, from the bytes of its packet: numbers and text go in, and
//! a task for the host comes out.

use vstd::prelude::*;
use vstd::utf8::*;
use crate::convert;
use crate::event::Event;
use crate::handles;
use crate::laws;
use crate::msgs;
use crate::msgs::{Chstat, FTruncate, FileContent, Header, MkDir, Open, ReadDir, Seek};
use crate::path;
use crate::server;
use crate::server::ServerState;
use crate::task::{OpenOptions, SeekTarget, Task};
use crate::wire;

verus! {

/// `text`, which a NUL byte or the end of the packet ends, spells `path`: text that is
/// no valid UTF-8 spells the empty path.
pub open spec fn spells(text: Seq<u8>, rest: Seq<u8>, path: Seq<char>) -> bool {
    &&& !text.contains(0u8)
    &&& rest.len() == 0 || rest[0] == 0
    &&& valid_utf8(text) ==> path == decode_utf8(text)
    &&& !valid_utf8(text) ==> path == Seq::<char>::empty()
}

/// Every path without a NUL character can be spelled: by its encoding.
pub proof fn law_every_path_can_be_spelled(path: Seq<char>, rest: Seq<u8>)
    requires
        !path.contains('\0'),
        rest.len() == 0 || rest[0] == 0,
    ensures
        spells(encode_utf8(path), rest, path),
{
    path::law_text_is_its_encoding(path);
}

proof fn lemma_spelled_behind(fields: Seq<u8>, text: Seq<u8>, rest: Seq<u8>, path: Seq<char>)
    requires
        spells(text, rest, path),
    ensures
        path::path_at(fields + text + rest, fields.len() as int) == path,
{
    path::law_path_is_the_text_before_the_nul(fields, text, rest);
    let found = path::path_at(fields + text + rest, fields.len() as int);
    assert(found =~= path);
}

proof fn lemma_spelled_first(text: Seq<u8>, rest: Seq<u8>, path: Seq<char>)
    requires
        spells(text, rest, path),
    ensures
        path::path_at_start(text + rest) == path,
{
    path::law_first_path_is_the_text_before_the_nul(text, rest);
    assert(path::path_at_start(text + rest) =~= path);
}

proof fn lemma_id_first(id: i32, rest: Seq<u8>)
    ensures
        wire::i32_at(wire::le_bytes(id as int, 4) + rest, 0) == id,
        (wire::le_bytes(id as int, 4) + rest).len() == 4 + rest.len(),
{
    let data = wire::le_bytes(id as int, 4) + rest;
    wire::lemma_le_bytes_len(id as int, 4);
    assert(data.subrange(0, 4) =~= wire::le_bytes(id as int, 4));
    wire::law_i32_reads_back(data, 0, id);
}

/// A packet is a header of a command, a result and a cookie, and the data behind it.
pub proof fn law_packet_is_a_header_and_data(
    command: u32,
    result: i32,
    cookie: u64,
    data: Seq<u8>,
)
    ensures
        ({
            let packet = wire::le_bytes(command as int, 4) + wire::le_bytes(result as int, 4)
                + wire::le_bytes(cookie as int, 8) + data;
            &&& Header::parse(packet).command == command
            &&& Header::parse(packet).result == result
            &&& Header::parse(packet).cookie == cookie
            &&& packet.skip(16) == data
            &&& packet.skip(msgs::HEADER_SIZE as int) == data
            &&& server::is_complete_request(packet) <==> server::holds_fields(command, data)
        }),
{
    let header = Header { command, result, cookie };
    let packet = wire::le_bytes(command as int, 4) + wire::le_bytes(result as int, 4)
        + wire::le_bytes(cookie as int, 8) + data;
    msgs::law_header_reads_back(header, data);
    assert(packet =~= header.bytes() + data);
    assert(packet.skip(16) =~= data);
}

/// A request to open a file at a path: each option depends on a bit of its own, whatever
/// other bits are set, and a bit of the host's flags is set exactly where it belongs to
/// a flag of the host that one of the bits asks for.
pub proof fn law_open_request<F, D>(
    s: ServerState<F, D>,
    flags: u32,
    mode: u32,
    text: Seq<u8>,
    rest: Seq<u8>,
    path: Seq<char>,
)
    requires
        spells(text, rest, path),
    ensures
        ({
            let data = wire::le_bytes(flags as int, 4) + wire::le_bytes(mode as int, 4) + text
                + rest;
            &&& server::holds_fields(msgs::CMD_OPEN, data)
            &&& server::meaning(s, msgs::CMD_OPEN, data) matches Ok(Task::Open {
                path: opened,
                options,
            })
            &&& opened == path
            &&& options.read <==> flags & 0x1 != 0
            &&& options.write <==> flags & 0x2 != 0
            &&& options.create <==> flags & 0x4 != 0
            &&& options.append <==> flags & 0x10 != 0
            &&& options.truncate <==> flags & 0x20 != 0
            &&& options.mode == mode
            &&& forall|bit: i32| #[trigger]
                (options.custom_flags & bit) != 0 <==> {
                    ||| flags & 0x8 != 0 && s.host.o_excl & bit != 0
                    ||| flags & 0x40 != 0 && s.host.o_nonblock & bit != 0
                    ||| flags & 0x80 != 0 && s.host.o_sync & bit != 0
                    ||| flags & 0x200 != 0 && s.host.o_direct & bit != 0
                    ||| flags & 0x800 != 0 && s.host.o_directory & bit != 0
                    ||| flags & 0x1000 != 0 && s.host.o_nofollow & bit != 0
                    ||| flags & 0x2000 != 0 && s.host.o_largefile & bit != 0
                    ||| flags & 0x40000 != 0 && s.host.o_noatime & bit != 0
                }
        }),
{
    let open = Open { flags, mode };
    let data = wire::le_bytes(flags as int, 4) + wire::le_bytes(mode as int, 4) + text + rest;
    assert(data =~= open.bytes() + (text + rest));
    msgs::law_open_reads_back(open, text + rest);
    lemma_spelled_behind(open.bytes(), text, rest, path);
    convert::law_each_option_has_its_own_bit(open, s.host);
}

/// A request to close, by either command, releases the directory with its id and is
/// settled with 0 and no data. Where no such directory is open it is refused. Files
/// stay open, whatever their ids.
pub proof fn law_close_request<F, D>(
    s: ServerState<F, D>,
    command: u32,
    id: i32,
    rest: Seq<u8>,
)
    requires
        command == msgs::CMD_CLOSE || command == msgs::CMD_CLOSEDIR,
    ensures
        ({
            let data = wire::le_bytes(id as int, 4) + rest;
            let after = server::after(s, command, data);
            &&& server::holds_fields(command, data)
            &&& after.files == s.files
            &&& after.host == s.host
            &&& after.directories == s.directories.remove(id)
            &&& match server::meaning(s, command, data) {
                Ok(task) => s.directories.contains_key(id) && (task matches Task::Settled(reply)
                    && reply.result == 0 && reply.data == Seq::<u8>::empty()),
                Err(e) => !s.directories.contains_key(id) && e == s.host.ebadf,
            }
        }),
{
    lemma_id_first(id, rest);
}

/// A request to read from a file: the file with its id is read, and as many bytes as it
/// asks for are to be sent, with the fields of the request repeated.
pub proof fn law_read_request<F, D>(
    s: ServerState<F, D>,
    fd: i32,
    content_size: u32,
    rest: Seq<u8>,
)
    ensures
        ({
            let data = wire::le_bytes(fd as int, 4) + wire::le_bytes(content_size as int, 4)
                + rest;
            &&& server::holds_fields(msgs::CMD_READ, data)
            &&& match server::meaning(s, msgs::CMD_READ, data) {
                Ok(task) => s.files.contains_key(fd) && (task matches Task::Read(read)
                    && read.pending == content_size && read.request.fd == fd
                    && read.request.content_size == content_size),
                Err(e) => !s.files.contains_key(fd) && e == s.host.ebadf,
            }
        }),
{
    let request = FileContent { fd, content_size };
    let data = wire::le_bytes(fd as int, 4) + wire::le_bytes(content_size as int, 4) + rest;
    assert(data =~= request.bytes() + rest);
    msgs::law_file_content_reads_back(request, rest);
}

/// A request to write to a file: the content goes to the file with its id, all of it
/// and nothing that follows it.
pub proof fn law_write_request<F, D>(
    s: ServerState<F, D>,
    fd: i32,
    content: Seq<u8>,
    rest: Seq<u8>,
)
    requires
        content.len() <= u32::MAX,
    ensures
        ({
            let data = wire::le_bytes(fd as int, 4) + wire::le_bytes(content.len() as int, 4)
                + content + rest;
            &&& server::holds_fields(msgs::CMD_WRITE, data)
            &&& s.files.contains_key(fd) ==> server::meaning(s, msgs::CMD_WRITE, data) == Ok::<
                Task<Seq<char>, Seq<u8>>,
                i32,
            >(Task::Write { fd, content })
            &&& !s.files.contains_key(fd) ==> server::meaning(s, msgs::CMD_WRITE, data) == Err::<
                Task<Seq<char>, Seq<u8>>,
                i32,
            >(s.host.ebadf)
        }),
{
    let request = FileContent { fd, content_size: content.len() as u32 };
    let data = wire::le_bytes(fd as int, 4) + wire::le_bytes(content.len() as int, 4) + content
        + rest;
    assert(data =~= request.bytes() + (content + rest));
    msgs::law_file_content_reads_back(request, content + rest);
    assert(data.subrange(8, 8 + content.len() as int) =~= content);
}

/// A write request in terms of its fields.
pub proof fn law_write_request_reads_back<F, D>(
    s: ServerState<F, D>,
    request: FileContent,
    content: Seq<u8>,
    rest: Seq<u8>,
)
    requires
        s.files.contains_key(request.fd),
        request.content_size == content.len(),
    ensures
        server::meaning(s, msgs::CMD_WRITE, request.bytes() + content + rest) == Ok::<
            Task<Seq<char>, Seq<u8>>,
            i32,
        >((Task::Write { fd: request.fd, content })),
{
    law_write_request(s, request.fd, content, rest);
}

/// What is written under the id that an open request was answered with goes to the file
/// that was opened, and what is read under it comes from there.
pub proof fn law_opened_file_is_read_and_written<F, D>(
    s: ServerState<F, D>,
    path: Seq<char>,
    options: OpenOptions,
    file: F,
    id: i32,
    content: Seq<u8>,
    rest: Seq<u8>,
)
    requires
        0 <= id,
        !s.files.contains_key(id),
        forall|lower: i32| 0 <= lower < id ==> #[trigger] s.files.contains_key(lower),
        content.len() <= u32::MAX,
    ensures
        ({
            let opened = server::after_event(
                s,
                Task::Open { path, options },
                Event::<F, D, Seq<u8>>::Opened(file),
            );
            let fields = wire::le_bytes(id as int, 4) + wire::le_bytes(content.len() as int, 4);
            &&& opened.files[id] == (file, path)
            &&& server::meaning(opened, msgs::CMD_WRITE, fields + content + rest) == Ok::<
                Task<Seq<char>, Seq<u8>>,
                i32,
            >(Task::Write { fd: id, content })
            &&& server::meaning(opened, msgs::CMD_READ, fields + rest) matches Ok(Task::Read(read))
            &&& read.request.fd == id
            &&& read.pending == content.len()
        }),
{
    let opened = server::after_event(
        s,
        Task::Open { path, options },
        Event::<F, D, Seq<u8>>::Opened(file),
    );
    assert(handles::is_first_free(s.files, id));
    handles::lemma_first_free(s.files, id);
    law_write_request(opened, id, content, rest);
    law_read_request(opened, id, content.len() as u32, rest);
}

/// A request to move the position in a file: 0 counts from the start and 2 from the
/// end, and every other number counts from the current position. From the start a
/// negative offset stands for the number that differs from it by 2 to the 64th.
pub proof fn law_seek_request<F, D>(
    s: ServerState<F, D>,
    fd: i32,
    whence: i32,
    offset: i32,
    rest: Seq<u8>,
)
    ensures
        ({
            let data = wire::le_bytes(fd as int, 4) + wire::le_bytes(whence as int, 4)
                + wire::le_bytes(offset as int, 4) + rest;
            &&& server::holds_fields(msgs::CMD_SEEK, data)
            &&& match server::meaning(s, msgs::CMD_SEEK, data) {
                Ok(task) => s.files.contains_key(fd) && (task matches Task::Seek {
                    fd: moved,
                    target,
                } && moved == fd && match target {
                    SeekTarget::Start(at) => whence == 0 && (at - offset)
                        % 0x1_0000_0000_0000_0000 == 0,
                    SeekTarget::End(by) => whence == 2 && by == offset,
                    SeekTarget::Current(by) => whence != 0 && whence != 2 && by == offset,
                }),
                Err(e) => !s.files.contains_key(fd) && e == s.host.ebadf,
            }
        }),
{
    let seek = Seek { fd, whence, offset };
    let data = wire::le_bytes(fd as int, 4) + wire::le_bytes(whence as int, 4) + wire::le_bytes(
        offset as int,
        4,
    ) + rest;
    assert(data =~= seek.bytes() + rest);
    msgs::law_seek_reads_back(seek, rest);
    convert::law_seek_goes_where_it_was_asked(seek);
}

/// A request to bring a file to the disk: the file with its id.
pub proof fn law_sync_request<F, D>(s: ServerState<F, D>, fd: i32, rest: Seq<u8>)
    ensures
        ({
            let data = wire::le_bytes(fd as int, 4) + rest;
            &&& server::holds_fields(msgs::CMD_SYNC, data)
            &&& match server::meaning(s, msgs::CMD_SYNC, data) {
                Ok(task) => s.files.contains_key(fd) && (task matches Task::Sync { fd: synced }
                    && synced == fd),
                Err(e) => !s.files.contains_key(fd) && e == s.host.ebadf,
            }
        }),
{
    lemma_id_first(fd, rest);
}

/// A request to set the size of a file: the file with its id. A negative size stands
/// for the number that differs from it by 2 to the 64th.
pub proof fn law_ftruncate_request<F, D>(
    s: ServerState<F, D>,
    fd: i32,
    length: i32,
    rest: Seq<u8>,
)
    ensures
        ({
            let data = wire::le_bytes(fd as int, 4) + wire::le_bytes(length as int, 4) + rest;
            &&& server::holds_fields(msgs::CMD_FTRUNCATE, data)
            &&& match server::meaning(s, msgs::CMD_FTRUNCATE, data) {
                Ok(task) => s.files.contains_key(fd) && (task matches Task::SetLen {
                    fd: set,
                    len,
                } && set == fd && (len - length) % 0x1_0000_0000_0000_0000 == 0),
                Err(e) => !s.files.contains_key(fd) && e == s.host.ebadf,
            }
        }),
{
    let ftruncate = FTruncate { fd, length };
    let data = wire::le_bytes(fd as int, 4) + wire::le_bytes(length as int, 4) + rest;
    assert(data =~= ftruncate.bytes() + rest);
    msgs::law_ftruncate_reads_back(ftruncate, rest);
}

/// The requests that are a path and nothing else: list the directory there, remove the
/// file there, and remove the directory there.
pub proof fn law_requests_that_are_a_path<F, D>(
    s: ServerState<F, D>,
    text: Seq<u8>,
    rest: Seq<u8>,
    path: Seq<char>,
)
    requires
        spells(text, rest, path),
    ensures
        server::holds_fields(msgs::CMD_OPENDIR, text + rest),
        server::holds_fields(msgs::CMD_UNLINK, text + rest),
        server::holds_fields(msgs::CMD_RMDIR, text + rest),
        server::meaning(s, msgs::CMD_OPENDIR, text + rest) == Ok::<
            Task<Seq<char>, Seq<u8>>,
            i32,
        >((Task::OpenDir { path })),
        server::meaning(s, msgs::CMD_UNLINK, text + rest) == Ok::<Task<Seq<char>, Seq<u8>>, i32>(
            (Task::Unlink { path }),
        ),
        server::meaning(s, msgs::CMD_RMDIR, text + rest) == Ok::<Task<Seq<char>, Seq<u8>>, i32>(
            (Task::RmDir { path }),
        ),
{
    lemma_spelled_first(text, rest, path);
}

/// A request for the next entry of a directory: the directory with its id. What the
/// request says of the kind of an entry has no influence.
pub proof fn law_readdir_request<F, D>(
    s: ServerState<F, D>,
    dir_id: i32,
    item_type: u32,
    rest: Seq<u8>,
)
    ensures
        ({
            let data = wire::le_bytes(dir_id as int, 4) + wire::le_bytes(item_type as int, 4)
                + rest;
            &&& server::holds_fields(msgs::CMD_READDIR, data)
            &&& match server::meaning(s, msgs::CMD_READDIR, data) {
                Ok(task) => s.directories.contains_key(dir_id) && (task matches Task::NextEntry {
                    dir_id: listed,
                } && listed == dir_id),
                Err(e) => !s.directories.contains_key(dir_id) && e == s.host.ebadf,
            }
        }),
{
    let readdir = ReadDir { dir_id, item_type };
    let data = wire::le_bytes(dir_id as int, 4) + wire::le_bytes(item_type as int, 4) + rest;
    assert(data =~= readdir.bytes() + rest);
    msgs::law_read_dir_reads_back(readdir, rest);
}

/// A request to rewind a directory: the one with its id is released, and the path that
/// it was opened by is to be opened again.
pub proof fn law_rewinddir_request<F, D>(s: ServerState<F, D>, id: i32, rest: Seq<u8>)
    ensures
        ({
            let data = wire::le_bytes(id as int, 4) + rest;
            let after = server::after(s, msgs::CMD_REWINDDIR, data);
            &&& server::holds_fields(msgs::CMD_REWINDDIR, data)
            &&& after.files == s.files
            &&& after.host == s.host
            &&& after.directories == s.directories.remove(id)
            &&& match server::meaning(s, msgs::CMD_REWINDDIR, data) {
                Ok(task) => s.directories.contains_key(id) && (task matches Task::OpenDir { path }
                    && path == s.directories[id].1),
                Err(e) => !s.directories.contains_key(id) && e == s.host.ebadf,
            }
        }),
{
    lemma_id_first(id, rest);
}

/// A request for the state of the file system that holds a path; the empty path stands
/// for the root. What stands in the place of the fields has no influence.
pub proof fn law_statfs_request<F, D>(
    s: ServerState<F, D>,
    fields: Seq<u8>,
    text: Seq<u8>,
    rest: Seq<u8>,
    path: Seq<char>,
)
    requires
        fields.len() == 64,
        spells(text, rest, path),
    ensures
        ({
            let data = fields + text + rest;
            &&& server::holds_fields(msgs::CMD_STATFS, data)
            &&& server::meaning(s, msgs::CMD_STATFS, data) matches Ok(Task::Statfs {
                path: looked_up,
            })
            &&& path.len() > 0 ==> looked_up == path
            &&& path.len() == 0 ==> looked_up == seq!['/']
        }),
{
    lemma_spelled_behind(fields, text, rest, path);
}

/// A request to make a directory at a path, with a mode.
pub proof fn law_mkdir_request<F, D>(
    s: ServerState<F, D>,
    mode: u32,
    reserved: u32,
    text: Seq<u8>,
    rest: Seq<u8>,
    path: Seq<char>,
)
    requires
        spells(text, rest, path),
    ensures
        ({
            let data = wire::le_bytes(mode as int, 4) + wire::le_bytes(reserved as int, 4) + text
                + rest;
            &&& server::holds_fields(msgs::CMD_MKDIR, data)
            &&& server::meaning(s, msgs::CMD_MKDIR, data) == Ok::<Task<Seq<char>, Seq<u8>>, i32>(
                Task::MkDir { path, mode },
            )
        }),
{
    let mkdir = MkDir { mode, reserved };
    let data = wire::le_bytes(mode as int, 4) + wire::le_bytes(reserved as int, 4) + text + rest;
    assert(data =~= mkdir.bytes() + (text + rest));
    msgs::law_mkdir_reads_back(mkdir, text + rest);
    lemma_spelled_behind(mkdir.bytes(), text, rest, path);
}

/// A rename request: the second path stands at the first multiple of eight behind the
/// first path and one more byte. A first path that is no valid UTF-8 counts as empty.
pub proof fn law_rename_request<F, D>(
    s: ServerState<F, D>,
    data: Seq<u8>,
    text: Seq<u8>,
    rest: Seq<u8>,
    from: Seq<char>,
    at: int,
    second_text: Seq<u8>,
    second_rest: Seq<u8>,
    to: Seq<char>,
)
    requires
        data == text + rest,
        spells(text, rest, from),
        at % 8 == 0,
        encode_utf8(from).len() < at <= encode_utf8(from).len() + 8,
    ensures
        server::holds_fields(msgs::CMD_RENAME, data) <==> at <= data.len(),
        at <= data.len() && data.skip(at) == second_text + second_rest && spells(
            second_text,
            second_rest,
            to,
        ) ==> server::meaning(s, msgs::CMD_RENAME, data) == Ok::<Task<Seq<char>, Seq<u8>>, i32>(
            (Task::Rename { from, to }),
        ),
{
    lemma_spelled_first(text, rest, from);
    path::law_second_path_is_aligned(data);
    assert(path::second_path_offset(data) == at);
    if spells(second_text, second_rest, to) {
        lemma_spelled_first(second_text, second_rest, to);
    }
}

/// A rename request renames the first path to the second: the first one is filled up
/// with NUL bytes, at least one, to a multiple of eight.
pub proof fn law_rename_takes_the_first_path_to_the_second<F, D>(
    s: ServerState<F, D>,
    first: Seq<char>,
    padding: Seq<u8>,
    second: Seq<char>,
    rest: Seq<u8>,
)
    requires
        !first.contains('\0'),
        !second.contains('\0'),
        1 <= padding.len() <= 8,
        padding[0] == 0,
        (encode_utf8(first).len() + padding.len()) % 8 == 0,
        rest.len() == 0 || rest[0] == 0,
    ensures
        ({
            let data = encode_utf8(first) + padding + encode_utf8(second) + rest;
            &&& server::holds_fields(msgs::CMD_RENAME, data)
            &&& server::meaning(s, msgs::CMD_RENAME, data) == Ok::<Task<Seq<char>, Seq<u8>>, i32>(
                Task::Rename { from: first, to: second },
            )
        }),
{
    let text = encode_utf8(first);
    let second_text = encode_utf8(second);
    let behind = padding + second_text + rest;
    let data = text + padding + second_text + rest;
    let at = (text.len() + padding.len()) as int;
    law_every_path_can_be_spelled(first, behind);
    law_every_path_can_be_spelled(second, rest);
    assert(data =~= text + behind);
    assert(data.skip(at) =~= second_text + rest);
    law_rename_request(s, data, text, behind, first, at, second_text, rest, second);
}

/// A request for the state of the file at a path, and one for the state of an open file,
/// which is looked up by the path that it was opened by. What stands in the place of the
/// fields has no influence.
pub proof fn law_stat_requests<F, D>(
    s: ServerState<F, D>,
    fields: Seq<u8>,
    text: Seq<u8>,
    rest: Seq<u8>,
    path: Seq<char>,
    fd: i32,
)
    requires
        fields.len() == 88,
        spells(text, rest, path),
    ensures
        server::holds_fields(msgs::CMD_STAT, fields + text + rest),
        server::meaning(s, msgs::CMD_STAT, fields + text + rest) == Ok::<
            Task<Seq<char>, Seq<u8>>,
            i32,
        >((Task::Stat { path })),
        ({
            let by_id = fields + wire::le_bytes(fd as int, 4) + rest;
            &&& server::holds_fields(msgs::CMD_FSTAT, by_id)
            &&& match server::meaning(s, msgs::CMD_FSTAT, by_id) {
                Ok(task) => s.files.contains_key(fd) && (task matches Task::Stat {
                    path: looked_up,
                } && looked_up == s.files[fd].1),
                Err(e) => !s.files.contains_key(fd) && e == s.host.ebadf,
            }
        }),
{
    lemma_spelled_behind(fields, text, rest, path);
    let by_id = fields + wire::le_bytes(fd as int, 4) + rest;
    wire::lemma_le_bytes_len(fd as int, 4);
    assert(by_id.subrange(88, 92) =~= wire::le_bytes(fd as int, 4));
    wire::law_i32_reads_back(by_id, 88, fd);
}

/// A request to change the state of the file at a path: the mode where it has no bit
/// beyond the twelve that a mode can have, and else 0; and the first two times. Nothing
/// of it has been done yet.
pub proof fn law_chstat_request<F, D>(
    s: ServerState<F, D>,
    chstat: Chstat,
    text: Seq<u8>,
    rest: Seq<u8>,
    path: Seq<char>,
)
    requires
        spells(text, rest, path),
    ensures
        ({
            let data = chstat.bytes() + text + rest;
            &&& server::holds_fields(msgs::CMD_CHSTAT, data)
            &&& server::meaning(s, msgs::CMD_CHSTAT, data) matches Ok(Task::ChangeStat {
                path: changed,
                change,
            })
            &&& changed == path
            &&& change.progress is Mode
            &&& chstat.stat.mode & !0o7777u32 == 0 ==> change.change.mode == chstat.stat.mode
            &&& chstat.stat.mode & !0o7777u32 != 0 ==> change.change.mode == 0
            &&& change.change.atime_sec == chstat.stat.atim_sec
            &&& change.change.atime_nsec == chstat.stat.atim_nsec
            &&& change.change.mtime_sec == chstat.stat.mtim_sec
            &&& change.change.mtime_nsec == chstat.stat.mtim_nsec
        }),
{
    let data = chstat.bytes() + text + rest;
    assert(data =~= chstat.bytes() + (text + rest));
    msgs::law_chstat_reads_back(chstat, text + rest);
    lemma_spelled_behind(chstat.bytes(), text, rest, path);
    convert::law_change_is_what_was_asked(chstat);
}

/// A request to change the state of an open file: the same, at the path that the file
/// was opened by.
pub proof fn law_fchstat_request<F, D>(
    s: ServerState<F, D>,
    chstat: Chstat,
    fd: i32,
    rest: Seq<u8>,
)
    ensures
        ({
            let data = chstat.bytes() + wire::le_bytes(fd as int, 4) + rest;
            &&& server::holds_fields(msgs::CMD_FCHSTAT, data)
            &&& match server::meaning(s, msgs::CMD_FCHSTAT, data) {
                Ok(task) => {
                    &&& s.files.contains_key(fd)
                    &&& task matches Task::ChangeStat { path, change }
                    &&& path == s.files[fd].1
                    &&& change.progress is Mode
                    &&& chstat.stat.mode & !0o7777u32 == 0 ==> change.change.mode
                        == chstat.stat.mode
                    &&& chstat.stat.mode & !0o7777u32 != 0 ==> change.change.mode == 0
                    &&& change.change.atime_sec == chstat.stat.atim_sec
                    &&& change.change.atime_nsec == chstat.stat.atim_nsec
                    &&& change.change.mtime_sec == chstat.stat.mtim_sec
                    &&& change.change.mtime_nsec == chstat.stat.mtim_nsec
                },
                Err(e) => !s.files.contains_key(fd) && e == s.host.ebadf,
            }
        }),
{
    laws::lemma_chstat_by_id(chstat, fd, rest);
    convert::law_change_is_what_was_asked(chstat);
}

/// No request but those that close or rewind changes the server when it is understood.
pub proof fn law_other_requests_change_nothing<F, D>(
    s: ServerState<F, D>,
    command: u32,
    data: Seq<u8>,
)
    requires
        command != msgs::CMD_CLOSE,
        command != msgs::CMD_CLOSEDIR,
        command != msgs::CMD_REWINDDIR,
    ensures
        server::after(s, command, data) == s,
{
}

/// A request with an unknown command has no fields, so that it is complete whatever
/// follows its header, and it is refused with the host's "not supported", negated.
pub proof fn law_unknown_request<F, D>(s: ServerState<F, D>, command: u32, data: Seq<u8>)
    requires
        s.host.wf(),
        command == 5 || command == 7 || command > 21,
    ensures
        server::holds_fields(command, data),
        server::meaning(s, command, data) matches Err(e) && e == -s.host.enotsup,
        server::after(s, command, data) == s,
{
}

/// A packet that ends before the fields of its command do is not complete.
pub proof fn law_short_requests_are_not_complete(command: u32, data: Seq<u8>)
    requires
        ({
            ||| command == msgs::CMD_OPEN && data.len() < 8
            ||| command == msgs::CMD_CLOSE && data.len() < 4
            ||| command == msgs::CMD_READ && data.len() < 8
            ||| command == msgs::CMD_WRITE && data.len() < 8
            ||| command == msgs::CMD_WRITE && data.len() < 8 + wire::u32_at(data, 4)
            ||| command == msgs::CMD_SEEK && data.len() < 12
            ||| command == msgs::CMD_SYNC && data.len() < 4
            ||| command == msgs::CMD_FSTAT && data.len() < 92
            ||| command == msgs::CMD_FTRUNCATE && data.len() < 8
            ||| command == msgs::CMD_READDIR && data.len() < 8
            ||| command == msgs::CMD_REWINDDIR && data.len() < 4
            ||| command == msgs::CMD_CLOSEDIR && data.len() < 4
            ||| command == msgs::CMD_STATFS && data.len() < 64
            ||| command == msgs::CMD_MKDIR && data.len() < 8
            ||| command == msgs::CMD_RENAME && data.len() < 8
            ||| command == msgs::CMD_STAT && data.len() < 88
            ||| command == msgs::CMD_FCHSTAT && data.len() < 96
            ||| command == msgs::CMD_CHSTAT && data.len() < 92
        }),
    ensures
        !server::holds_fields(command, data),
{
}

} // verus!
