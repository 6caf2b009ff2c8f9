# rpmsgfs

A file server for a remote processor: the other side of NuttX's rpmsgfs, which
sends file system requests over an rpmsg channel and expects the host to carry
them out.

- `src/` is the core of the server, verified with Verus: the wire format, the
  tables of open files and directories, what each request means, and what its
  outcome is answered with. It does no input or output: it hands out tasks and
  takes back events.
- `app/` does the work on a Linux host: it moves packets through the rpmsg
  character device and carries the tasks out on the file system.
- `tests/` runs the core on concrete packets.

## Layout of `src/`

| module    | what it holds                                                    |
|-----------|------------------------------------------------------------------|
| `wire`    | fixed-width little-endian integers, by way of bincode            |
| `msgs`    | the messages: their fields, sizes and numbers                    |
| `path`    | paths in packets: UTF-8 up to a NUL byte                         |
| `handles` | tables of open handles under small ids                           |
| `host`    | the host's constants and its file modes, by way of nix           |
| `convert` | between the numbers of the protocol and those of the host        |
| `task`    | what the host has to do                                          |
| `event`   | what the host did                                                |
| `reply`   | replies and the packets that carry them                          |
| `read`    | reads, a chunk at a time                                         |
| `change`  | changes of a file's state, a call at a time                      |
| `server`  | the server: from request to task, and from event to reply        |
| `laws`    | what holds of the server as a whole                              |

## What is believed without proof

That bincode encodes and decodes integers as `wire` says, that
`str::from_utf8` accepts exactly valid UTF-8, that nix accepts exactly the
twelve permission bits as a mode, and that the error numbers of the C library
are positive.
