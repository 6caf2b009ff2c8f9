use rpmsgfs::change::ChangeCall;
use rpmsgfs::convert::{FileType, HostStat, HostStatfs};
use rpmsgfs::event::{DirEntry, Event};
use rpmsgfs::host::HostConstants;
use rpmsgfs::msgs;
use rpmsgfs::msgs::{FileContent, Header, Stat};
use rpmsgfs::path::str_from_u8_nul_utf8;
use rpmsgfs::read::MAX_CONTENT_SIZE;
use rpmsgfs::reply::{bare_reply, frame, respond, RESULT_DO_NOT_SEND_RESPONSE};
use rpmsgfs::server::{is_complete, Rpmsgfs};
use rpmsgfs::task::{ChangeProgress, ChangeTask, OpenOptions, ReadTask, SeekTarget, StatChange, Task};

const EBADF: i32 = 9;
const ENOENT: i32 = 2;
const ENOTSUP: i32 = 95;

const CHANGE: StatChange =
    StatChange { mode: 0o755, atime_sec: 1, atime_nsec: 2, mtime_sec: 3, mtime_nsec: 4 };

type Server = Rpmsgfs<u8, char>;

fn server() -> Server {
    Rpmsgfs::with_host(HostConstants {
        o_nofollow: 0x1,
        o_excl: 0x2,
        o_nonblock: 0x4,
        o_sync: 0x8,
        o_direct: 0x10,
        o_directory: 0x20,
        o_largefile: 0x40,
        o_noatime: 0x80,
        ebadf: EBADF,
        enoent: ENOENT,
        enotsup: ENOTSUP,
    })
}

fn packet(command: u32, cookie: u64, parts: &[&[u8]]) -> Vec<u8> {
    let mut bytes = Header { command, result: 0, cookie }.encode();
    for part in parts {
        bytes.extend_from_slice(part);
    }
    bytes
}

fn ask(server: &mut Server, command: u32, parts: &[&[u8]]) -> (Header, Result<Task<String, Vec<u8>>, i32>) {
    let bytes = packet(command, 0x77, parts);
    assert!(is_complete(&bytes));
    server.process_command(&bytes)
}

fn answer(packet: Option<Vec<u8>>) -> (i32, Vec<u8>) {
    let packet = packet.unwrap();
    (Header::decode(&packet).result, packet[16..].to_vec())
}

fn open_file(server: &mut Server, path: &str, handle: u8) -> i32 {
    let (header, task) = ask(server, msgs::CMD_OPEN, &[&[0; 8], path.as_bytes(), &[0]]);
    answer(server.finish(&header, task.unwrap(), Event::Opened(handle))).0
}

fn open_directory(server: &mut Server, path: &str, handle: char) -> i32 {
    let (header, task) = ask(server, msgs::CMD_OPENDIR, &[path.as_bytes(), &[0]]);
    answer(server.finish(&header, task.unwrap(), Event::OpenedDir(handle))).0
}

#[test]
fn open_is_understood() {
    let mut s = server();
    let flags: u32 = msgs::O_READ | msgs::O_WRITE | msgs::O_NOFOLLOW;
    let (header, task) =
        ask(&mut s, msgs::CMD_OPEN, &[&flags.to_le_bytes(), &0o600u32.to_le_bytes(), b"/tmp/x\0junk"]);
    assert_eq!(header, Header { command: msgs::CMD_OPEN, result: 0, cookie: 0x77 });
    assert_eq!(
        task,
        Ok(Task::Open {
            path: "/tmp/x".to_string(),
            options: OpenOptions {
                read: true,
                write: true,
                create: false,
                append: false,
                truncate: false,
                custom_flags: 0x1,
                mode: 0o600,
            },
        })
    );
}

#[test]
fn opened_files_get_ids() {
    let mut s = server();
    assert_eq!(open_file(&mut s, "/a", 1), 0);
    assert_eq!(open_file(&mut s, "/b", 2), 1);
    assert_eq!(s.file_mut(0), Some(&mut 1));
    assert_eq!(s.file_mut(1), Some(&mut 2));
    assert_eq!(s.file_mut(2), None);
    assert!(!s.files_full());
}

#[test]
fn failed_open_is_answered_with_the_error() {
    let mut s = server();
    let (header, task) = ask(&mut s, msgs::CMD_OPEN, &[&[0; 8], b"/a\0"]);
    assert_eq!(answer(s.finish(&header, task.unwrap(), Event::Failed(13))), (-13, vec![]));
    assert_eq!(s.file_mut(0), None);
}

#[test]
fn close_releases_a_directory_and_no_file() {
    let mut s = server();
    open_file(&mut s, "/a", 1);
    let id = [0; 4];
    assert_eq!(ask(&mut s, msgs::CMD_CLOSE, &[&id]).1, Err(EBADF));
    assert_eq!(s.file_mut(0), Some(&mut 1));
    assert_eq!(open_directory(&mut s, "/d", 'd'), 0);
    let (header, task) = ask(&mut s, msgs::CMD_CLOSE, &[&id]);
    assert_eq!(task, Ok(Task::Settled(bare_reply(0))));
    assert_eq!(answer(s.finish(&header, task.unwrap(), Event::Done)), (0, vec![]));
    assert_eq!(s.directory_mut(0), None);
    assert_eq!(ask(&mut s, msgs::CMD_CLOSE, &[&id]).1, Err(EBADF));
    assert_eq!(s.file_mut(0), Some(&mut 1));
}

#[test]
fn closing_undoes_opening() {
    let mut s = server();
    open_directory(&mut s, "/a", 'a');
    assert_eq!(open_directory(&mut s, "/b", 'b'), 1);
    let (_, task) = ask(&mut s, msgs::CMD_CLOSEDIR, &[&1i32.to_le_bytes()]);
    assert_eq!(task, Ok(Task::Settled(bare_reply(0))));
    assert_eq!(s.directory_mut(0), Some(&mut 'a'));
    assert_eq!(s.directory_mut(1), None);
    assert_eq!(ask(&mut s, msgs::CMD_CLOSEDIR, &[&1i32.to_le_bytes()]).1, Err(EBADF));
    assert!(!s.directories_full());
}

#[test]
fn read_sends_chunks() {
    let mut s = server();
    open_file(&mut s, "/a", 1);
    let request = FileContent { fd: 0, content_size: 450 };
    let (header, task) = ask(&mut s, msgs::CMD_READ, &[&request.encode()]);
    assert_eq!(task, Ok(Task::Read(ReadTask { request, pending: 450 })));
    let mut read = match task {
        Ok(Task::Read(read)) => read,
        _ => panic!(),
    };
    let file: Vec<u8> = (0..=255).chain(0..=255).collect();
    let mut at = 0;
    let mut results = Vec::new();
    let mut content = Vec::new();
    while let Some(n) = read.next_chunk() {
        assert!(n <= MAX_CONTENT_SIZE);
        let sent = read.advance(&header, file[at..at + n].to_vec());
        at += n;
        let reply = Header::decode(&sent);
        assert_eq!((reply.command, reply.cookie), (msgs::CMD_READ, 0x77));
        assert_eq!(FileContent::decode(&sent[16..]), request);
        assert!(reply.result > 0);
        results.push(reply.result);
        content.extend_from_slice(&sent[24..]);
    }
    assert_eq!(results, vec![200, 200, 50]);
    assert_eq!(content, file[..450].to_vec());
    assert_eq!(s.finish(&header, Task::Read(read), Event::Done), None);
}

#[test]
fn read_ends_at_the_end_of_the_file() {
    let header = Header { command: msgs::CMD_READ, result: 0, cookie: 1 };
    let request = FileContent { fd: 0, content_size: 300 };
    let mut read = ReadTask { request, pending: 300 };
    assert_eq!(read.next_chunk(), Some(200));
    read.advance(&header, vec![7; 90]);
    assert_eq!(read.next_chunk(), Some(200));
    read.advance(&header, vec![7; 200]);
    assert_eq!(read.next_chunk(), Some(10));
    let last = read.advance(&header, vec![]);
    assert_eq!(Header::decode(&last).result, 0);
    assert_eq!(last.len(), 24);
    assert_eq!(read.next_chunk(), None);
}

#[test]
fn read_of_nothing_sends_nothing() {
    let mut s = server();
    open_file(&mut s, "/a", 1);
    let (header, task) = ask(&mut s, msgs::CMD_READ, &[&[0; 8]]);
    match &task {
        Ok(Task::Read(read)) => assert_eq!(read.next_chunk(), None),
        _ => panic!(),
    }
    assert_eq!(s.finish(&header, task.unwrap(), Event::Done), None);
}

#[test]
fn failed_read_is_answered_with_the_error() {
    let mut s = server();
    open_file(&mut s, "/a", 1);
    let (header, task) = ask(&mut s, msgs::CMD_READ, &[&[0, 0, 0, 0, 9, 0, 0, 0]]);
    assert_eq!(answer(s.finish(&header, task.unwrap(), Event::Failed(5))), (-5, vec![]));
}

#[test]
fn write_takes_its_content() {
    let mut s = server();
    open_file(&mut s, "/a", 1);
    let (header, task) = ask(&mut s, msgs::CMD_WRITE, &[&[0, 0, 0, 0, 3, 0, 0, 0], b"abcdef"]);
    assert_eq!(task, Ok(Task::Write { fd: 0, content: b"abc".to_vec() }));
    assert_eq!(answer(s.finish(&header, task.unwrap(), Event::Written(2))), (2, vec![]));
}

#[test]
fn write_without_a_cookie_is_silent() {
    let mut s = server();
    open_file(&mut s, "/a", 1);
    let bytes = packet(msgs::CMD_WRITE, 0, &[&[0, 0, 0, 0, 1, 0, 0, 0], b"a"]);
    let (header, task) = s.process_command(&bytes);
    assert_eq!(s.finish(&header, task.unwrap(), Event::Written(1)), None);
    let (header, task) = s.process_command(&bytes);
    assert_eq!(answer(s.finish(&header, task.unwrap(), Event::Failed(28))), (-28, vec![]));
}

#[test]
fn seek_sync_and_truncate() {
    let mut s = server();
    open_file(&mut s, "/a", 1);
    let (header, task) = ask(&mut s, msgs::CMD_SEEK, &[&[0, 0, 0, 0, 2, 0, 0, 0, 0xff, 0xff, 0xff, 0xff]]);
    assert_eq!(task, Ok(Task::Seek { fd: 0, target: SeekTarget::End(-1) }));
    assert_eq!(answer(s.finish(&header, task.unwrap(), Event::Done)), (0, vec![]));
    assert_eq!(ask(&mut s, msgs::CMD_SYNC, &[&[0; 4]]).1, Ok(Task::Sync { fd: 0 }));
    assert_eq!(
        ask(&mut s, msgs::CMD_FTRUNCATE, &[&[0, 0, 0, 0, 5, 0, 0, 0]]).1,
        Ok(Task::SetLen { fd: 0, len: 5 })
    );
    assert_eq!(
        ask(&mut s, msgs::CMD_FTRUNCATE, &[&[0, 0, 0, 0, 0xff, 0xff, 0xff, 0xff]]).1,
        Ok(Task::SetLen { fd: 0, len: u64::MAX })
    );
}

#[test]
fn files_that_are_not_open_are_refused() {
    let mut s = server();
    open_directory(&mut s, "/d", 'd');
    for command in [msgs::CMD_READ, msgs::CMD_WRITE, msgs::CMD_SEEK, msgs::CMD_SYNC, msgs::CMD_FTRUNCATE] {
        let (header, task) = ask(&mut s, command, &[&[0; 12]]);
        assert_eq!(task, Err(EBADF));
        assert_eq!(answer(respond(&header, Err(EBADF))), (-9, vec![]));
    }
    assert_eq!(ask(&mut s, msgs::CMD_FSTAT, &[&[0; 92]]).1, Err(EBADF));
    assert_eq!(ask(&mut s, msgs::CMD_FCHSTAT, &[&[0; 96]]).1, Err(EBADF));
}

#[test]
fn directories_that_are_not_open_are_refused() {
    let mut s = server();
    open_file(&mut s, "/a", 1);
    for command in [msgs::CMD_CLOSE, msgs::CMD_CLOSEDIR, msgs::CMD_READDIR, msgs::CMD_REWINDDIR] {
        assert_eq!(ask(&mut s, command, &[&[0; 8]]).1, Err(EBADF));
    }
    assert_eq!(s.file_mut(0), Some(&mut 1));
}

#[test]
fn directory_entries_are_answered() {
    let mut s = server();
    open_directory(&mut s, "/d", 'd');
    let (header, task) = ask(&mut s, msgs::CMD_READDIR, &[&[0; 8]]);
    assert_eq!(task, Ok(Task::NextEntry { dir_id: 0 }));
    let entry = DirEntry {
        file_type: Some(FileType {
            is_file: false,
            is_char_device: false,
            is_block_device: false,
            is_dir: true,
            is_symlink: false,
            is_fifo: false,
            is_socket: false,
        }),
        name: b"sub".to_vec(),
    };
    let (result, data) = answer(s.finish(&header, task.unwrap(), Event::Entry(Some(entry))));
    assert_eq!(result, 0);
    assert_eq!(data, vec![0, 0, 0, 0, 4, 0, 0, 0, b's', b'u', b'b', 0]);
    assert_eq!(str_from_u8_nul_utf8(&data[8..]), "sub");

    let (header, task) = ask(&mut s, msgs::CMD_READDIR, &[&[0; 8]]);
    let nameless: Event<u8, char, Vec<u8>> =
        Event::Entry(Some(DirEntry { file_type: None, name: vec![] }));
    assert_eq!(
        answer(s.finish(&header, task.unwrap(), nameless)),
        (0, vec![0, 0, 0, 0, 0, 0, 0, 0, 0])
    );
}

#[test]
fn the_end_of_a_directory_is_an_error() {
    let mut s = server();
    open_directory(&mut s, "/d", 'd');
    let (header, task) = ask(&mut s, msgs::CMD_READDIR, &[&[0; 8]]);
    assert_eq!(answer(s.finish(&header, task.unwrap(), Event::Entry(None))), (-ENOENT, vec![]));
    let (header, task) = ask(&mut s, msgs::CMD_READDIR, &[&[0; 8]]);
    assert_eq!(answer(s.finish(&header, task.unwrap(), Event::Failed(5))), (-5, vec![]));
}

#[test]
fn rewinding_opens_the_path_again() {
    let mut s = server();
    open_directory(&mut s, "/a", 'a');
    open_directory(&mut s, "/b", 'b');
    let (header, task) = ask(&mut s, msgs::CMD_REWINDDIR, &[&1i32.to_le_bytes()]);
    assert_eq!(task, Ok(Task::OpenDir { path: "/b".to_string() }));
    assert_eq!(s.directory_mut(1), None);
    assert_eq!(answer(s.finish(&header, task.unwrap(), Event::OpenedDir('c'))), (1, vec![]));
    assert_eq!(s.directory_mut(0), Some(&mut 'a'));
    assert_eq!(s.directory_mut(1), Some(&mut 'c'));
}

#[test]
fn failed_rewind_loses_the_directory() {
    let mut s = server();
    open_directory(&mut s, "/a", 'a');
    let (header, task) = ask(&mut s, msgs::CMD_REWINDDIR, &[&[0; 4]]);
    assert_eq!(answer(s.finish(&header, task.unwrap(), Event::Failed(2))), (-2, vec![]));
    assert_eq!(s.directory_mut(0), None);
}

#[test]
fn statfs_of_the_empty_path_is_that_of_the_root() {
    let mut s = server();
    assert_eq!(
        ask(&mut s, msgs::CMD_STATFS, &[&[0; 64], b"/mnt\0"]).1,
        Ok(Task::Statfs { path: "/mnt".to_string() })
    );
    let (header, task) = ask(&mut s, msgs::CMD_STATFS, &[&[0; 64]]);
    assert_eq!(task, Ok(Task::Statfs { path: "/".to_string() }));
    let fs = HostStatfs {
        fstype: 1,
        namelen: 2,
        bsize: 3,
        blocks: 4,
        bfree: 5,
        bavail: 6,
        files: 7,
        ffree: 8,
    };
    let (result, data) = answer(s.finish(&header, task.unwrap(), Event::Statfs(fs)));
    assert_eq!(result, 0);
    assert_eq!(data.len(), 64);
    assert_eq!(&data[..9], &[1, 0, 0, 0, 0, 0, 0, 0, 2]);
    assert_eq!(data[56], 8);
}

#[test]
fn stat_by_path_and_by_id() {
    let mut s = server();
    open_file(&mut s, "/a", 1);
    let (header, by_path) = ask(&mut s, msgs::CMD_STAT, &[&[0; 88], b"/b\0"]);
    assert_eq!(by_path, Ok(Task::Stat { path: "/b".to_string() }));
    let (_, by_id) = ask(&mut s, msgs::CMD_FSTAT, &[&[0; 92]]);
    assert_eq!(by_id, Ok(Task::Stat { path: "/a".to_string() }));
    let st = HostStat {
        dev: 1,
        mode: 0o100600,
        rdev: 0,
        ino: 4,
        nlink: 5,
        size: 6,
        atime: 7,
        atime_nsec: 8,
        mtime: 9,
        mtime_nsec: 10,
        ctime: 11,
        ctime_nsec: 12,
        blocks: 13,
        uid: 14,
        gid: 15,
        blksize: 16,
    };
    let (result, data) = answer(s.finish(&header, by_id.unwrap(), Event::Stat(st)));
    assert_eq!(result, 0);
    let stat = Stat::decode(&data);
    assert_eq!((stat.dev, stat.mode, stat.ino, stat.nlink, stat.size), (1, 0o100600, 4, 5, 6));
    assert_eq!((stat.blocks, stat.uid, stat.gid, stat.blksize, stat.reserved), (13, 14, 15, 16, 0));
}

fn stat_with_the_change() -> Stat {
    Stat {
        dev: 0,
        mode: 0o755,
        rdev: 0,
        ino: 0,
        nlink: 0,
        size: 0,
        atim_sec: 1,
        atim_nsec: 2,
        mtim_sec: 3,
        mtim_nsec: 4,
        ctim_sec: 0,
        ctim_nsec: 0,
        blocks: 0,
        uid: 0,
        gid: 0,
        blksize: 0,
        reserved: 0,
    }
}

#[test]
fn chstat_by_path_and_by_id() {
    let mut s = server();
    open_file(&mut s, "/a", 1);
    let stat = stat_with_the_change();
    let change = ChangeTask::begin(CHANGE);
    assert_eq!(change, ChangeTask { change: CHANGE, progress: ChangeProgress::Mode });
    assert_eq!(
        ask(&mut s, msgs::CMD_CHSTAT, &[&[0; 4], &stat.encode(), b"/b\0"]).1,
        Ok(Task::ChangeStat { path: "/b".to_string(), change })
    );
    assert_eq!(
        ask(&mut s, msgs::CMD_FCHSTAT, &[&[0; 4], &stat.encode(), &[0; 4]]).1,
        Ok(Task::ChangeStat { path: "/a".to_string(), change })
    );
}

#[test]
fn stat_by_id_means_stat_by_path() {
    let mut s = server();
    open_file(&mut s, "/a", 1);
    let fd = open_file(&mut s, "/b/\u{e9}", 2).to_le_bytes();
    let by_id = ask(&mut s, msgs::CMD_FSTAT, &[&[7; 88], &fd, b"behind"]).1;
    assert_eq!(by_id, Ok(Task::Stat { path: "/b/\u{e9}".to_string() }));
    assert_eq!(by_id, ask(&mut s, msgs::CMD_STAT, &[&[9; 88], "/b/\u{e9}".as_bytes(), &[0, 1]]).1);
    let fields = [3; 92];
    let by_id = ask(&mut s, msgs::CMD_FCHSTAT, &[&fields, &fd]).1;
    assert!(matches!(by_id, Ok(Task::ChangeStat { .. })));
    assert_eq!(by_id, ask(&mut s, msgs::CMD_CHSTAT, &[&fields, "/b/\u{e9}".as_bytes(), &[0]]).1);
}

fn begun_change(s: &mut Server) -> (Header, ChangeTask) {
    let stat = stat_with_the_change().encode();
    match ask(s, msgs::CMD_CHSTAT, &[&[0; 4], &stat, b"/b\0"]) {
        (header, Ok(Task::ChangeStat { change, .. })) => (header, change),
        _ => panic!(),
    }
}

const SET_MODE: ChangeCall = ChangeCall::SetMode { mode: 0o755 };

const SET_TIMES: ChangeCall =
    ChangeCall::SetTimes { atime_sec: 1, atime_nsec: 2, mtime_sec: 3, mtime_nsec: 4 };

#[test]
fn change_sets_the_mode_and_then_the_times() {
    let mut s = server();
    let (header, mut change) = begun_change(&mut s);
    assert_eq!(change.next_call(), Some(SET_MODE));
    change.advance(Ok(()));
    assert_eq!(change.progress, ChangeProgress::Times);
    assert_eq!(change.next_call(), Some(SET_TIMES));
    change.advance(Ok(()));
    assert_eq!(change.next_call(), None);
    assert_eq!(change.result(), Ok(()));
    let task = Task::ChangeStat { path: "/b".to_string(), change };
    assert_eq!(answer(s.finish(&header, task, Event::Done)), (0, vec![]));
}

#[test]
fn change_stops_at_a_mode_that_cannot_be_set() {
    let mut s = server();
    let (header, mut change) = begun_change(&mut s);
    change.advance(Err(1));
    assert_eq!(change.next_call(), None);
    assert_eq!(change.result(), Err(1));
    let task = Task::ChangeStat { path: "/b".to_string(), change };
    assert_eq!(answer(s.finish(&header, task, Event::Failed(1))), (-1, vec![]));
}

#[test]
fn change_fails_where_the_times_cannot_be_set() {
    let mut s = server();
    let (header, mut change) = begun_change(&mut s);
    change.advance(Ok(()));
    change.advance(Err(30));
    assert_eq!(change.next_call(), None);
    assert_eq!(change.progress, ChangeProgress::Failed(30));
    assert_eq!(change.result(), Err(30));
    let task = Task::ChangeStat { path: "/b".to_string(), change };
    assert_eq!(answer(s.finish(&header, task, Event::Failed(30))), (-30, vec![]));
}

#[test]
fn a_directory_is_listed_to_its_end() {
    let mut s = server();
    open_directory(&mut s, "/a", 'a');
    let dir_id = open_directory(&mut s, "/d", 'd').to_le_bytes();
    let mut listed = Vec::new();
    for name in ["x", "y", "x"] {
        let (header, task) = ask(&mut s, msgs::CMD_READDIR, &[&dir_id, &[0; 4]]);
        let entry = DirEntry { file_type: None, name: name.as_bytes().to_vec() };
        let (result, data) = answer(s.finish(&header, task.unwrap(), Event::Entry(Some(entry))));
        assert_eq!((result, &data[..4]), (0, &dir_id[..]));
        listed.push(str_from_u8_nul_utf8(&data[8..]).to_string());
    }
    assert_eq!(listed, vec!["x", "y", "x"]);
    let (header, task) = ask(&mut s, msgs::CMD_READDIR, &[&dir_id, &[0; 4]]);
    assert_eq!(answer(s.finish(&header, task.unwrap(), Event::Entry(None))), (-ENOENT, vec![]));
    assert_eq!(s.directory_mut(1), Some(&mut 'd'));
    assert_eq!(s.directory_mut(0), Some(&mut 'a'));
}

#[test]
fn paths_that_are_recorded_hold_no_nul() {
    let mut s = server();
    let (header, task) = ask(&mut s, msgs::CMD_OPENDIR, &[b"/d\0/e\0"]);
    assert_eq!(task, Ok(Task::OpenDir { path: "/d".to_string() }));
    s.finish(&header, task.unwrap(), Event::OpenedDir('d'));
    let (_, task) = ask(&mut s, msgs::CMD_REWINDDIR, &[&[0; 4]]);
    assert_eq!(task, Ok(Task::OpenDir { path: "/d".to_string() }));
}

#[test]
fn requests_with_paths() {
    let mut s = server();
    assert_eq!(ask(&mut s, msgs::CMD_UNLINK, &[b"/a\0"]).1, Ok(Task::Unlink { path: "/a".to_string() }));
    assert_eq!(ask(&mut s, msgs::CMD_RMDIR, &[b"/b\0"]).1, Ok(Task::RmDir { path: "/b".to_string() }));
    assert_eq!(ask(&mut s, msgs::CMD_OPENDIR, &[b"/c\0"]).1, Ok(Task::OpenDir { path: "/c".to_string() }));
    assert_eq!(
        ask(&mut s, msgs::CMD_MKDIR, &[&0o750u32.to_le_bytes(), &[0; 4], b"/d\0"]).1,
        Ok(Task::MkDir { path: "/d".to_string(), mode: 0o750 })
    );
    assert_eq!(
        ask(&mut s, msgs::CMD_RENAME, &[b"/old/name\0\0\0\0\0\0\0", b"/new\0"]).1,
        Ok(Task::Rename { from: "/old/name".to_string(), to: "/new".to_string() })
    );
}

#[test]
fn unknown_commands_are_answered_with_a_positive_number() {
    let mut s = server();
    for command in [5, 7, 22, u32::MAX] {
        let (header, task) = ask(&mut s, command, &[]);
        assert_eq!(task, Err(-ENOTSUP));
        assert_eq!(answer(respond(&header, Err(-ENOTSUP))), (ENOTSUP, vec![]));
    }
}

#[test]
fn short_packets_are_not_complete() {
    assert!(!is_complete(&[]));
    assert!(!is_complete(&[0; 15]));
    assert!(is_complete(&packet(99, 0, &[])));
    let sizes = [
        (msgs::CMD_OPEN, 8),
        (msgs::CMD_CLOSE, 4),
        (msgs::CMD_READ, 8),
        (msgs::CMD_WRITE, 8),
        (msgs::CMD_SEEK, 12),
        (msgs::CMD_SYNC, 4),
        (msgs::CMD_FSTAT, 92),
        (msgs::CMD_FTRUNCATE, 8),
        (msgs::CMD_OPENDIR, 0),
        (msgs::CMD_READDIR, 8),
        (msgs::CMD_REWINDDIR, 4),
        (msgs::CMD_CLOSEDIR, 4),
        (msgs::CMD_STATFS, 64),
        (msgs::CMD_UNLINK, 0),
        (msgs::CMD_MKDIR, 8),
        (msgs::CMD_RMDIR, 0),
        (msgs::CMD_RENAME, 8),
        (msgs::CMD_STAT, 88),
        (msgs::CMD_FCHSTAT, 96),
        (msgs::CMD_CHSTAT, 92),
    ];
    for (command, size) in sizes {
        let zeros = vec![0; size];
        assert!(is_complete(&packet(command, 0, &[&zeros])));
        if size > 0 {
            assert!(!is_complete(&packet(command, 0, &[&zeros[1..]])));
        }
    }
    assert!(is_complete(&packet(msgs::CMD_WRITE, 0, &[&[0, 0, 0, 0, 2, 0, 0, 0, 1, 1]])));
    assert!(!is_complete(&packet(msgs::CMD_WRITE, 0, &[&[0, 0, 0, 0, 2, 0, 0, 0, 1]])));
}

#[test]
fn replies_are_framed() {
    let header = Header { command: 3, result: 0, cookie: 4 };
    assert_eq!(
        frame(&header, -1, vec![8, 9]),
        vec![3, 0, 0, 0, 0xff, 0xff, 0xff, 0xff, 4, 0, 0, 0, 0, 0, 0, 0, 8, 9]
    );
    assert_eq!(respond(&header, Ok(bare_reply(6))), Some(frame(&header, 6, vec![])));
    assert_eq!(respond(&header, Ok(bare_reply(RESULT_DO_NOT_SEND_RESPONSE))), None);
    assert_eq!(respond(&header, Err(17)), Some(frame(&header, -17, vec![])));
}

#[test]
fn a_size_that_means_send_nothing_is_not_sent() {
    let mut s = server();
    open_file(&mut s, "/a", 1);
    let (header, task) = ask(&mut s, msgs::CMD_WRITE, &[&[0; 8]]);
    assert_eq!(s.finish(&header, task.unwrap(), Event::Written(0xAAAA)), None);
}
