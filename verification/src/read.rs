//! Reading a file in chunks: one packet for each, until all that was asked for
//! has been sent or the file has ended.

use vstd::prelude::*;
use crate::msgs;
use crate::msgs::{FileContent, Header, FILECONTENT_SIZE, HEADER_SIZE};
use crate::reply;
use crate::reply::frame;
use crate::task::ReadTask;

verus! {

/// The most content that one packet carries.
pub const MAX_CONTENT_SIZE: usize = 200;

/// How much to read next while `pending` bytes are to be sent.
pub open spec fn chunk_size(pending: int) -> int {
    if pending < MAX_CONTENT_SIZE {
        pending
    } else {
        MAX_CONTENT_SIZE as int
    }
}

/// What is left to be sent after a chunk of `n` bytes. An empty chunk is the end
/// of the file, and ends the request.
pub open spec fn pending_after(pending: int, n: int) -> int {
    if n == 0 {
        0
    } else {
        pending - n
    }
}

/// The packet for one chunk: it repeats the request, and its result is the size
/// of the chunk.
pub open spec fn chunk_packet(header: Header, request: FileContent, chunk: Seq<u8>) -> Seq<u8> {
    reply::packet_of(header, chunk.len() as i32, request.bytes() + chunk)
}

impl ReadTask {
    /// How much to read next; nothing once the request is done with.
    pub fn next_chunk(&self) -> (r: Option<usize>)
        ensures
            match r {
                Some(n) => self.pending > 0 && n == chunk_size(self.pending as int),
                None => self.pending == 0,
            },
    {
        if self.pending > 0 {
            if self.pending < MAX_CONTENT_SIZE {
                Some(self.pending)
            } else {
                Some(MAX_CONTENT_SIZE)
            }
        } else {
            None
        }
    }

    /// Takes a chunk that was read, and gives the packet to send for it.
    pub fn advance(&mut self, header: &Header, chunk: Vec<u8>) -> (packet: Vec<u8>)
        requires
            old(self).pending > 0,
            chunk@.len() <= chunk_size(old(self).pending as int),
        ensures
            packet@ == chunk_packet(*header, old(self).request, chunk@),
            final(self).request == old(self).request,
            final(self).pending == pending_after(old(self).pending as int, chunk@.len() as int),
    {
        let bytes_read: usize = chunk.len();
        let mut content = chunk;
        let mut response = self.request.encode();
        response.append(&mut content);
        self.pending = self.pending - bytes_read;
        if bytes_read == 0 {
            self.pending = 0;
        }
        frame(header, bytes_read as i32, response)
    }
}

/// The chunks that a read request for `pending` bytes takes from a file that has
/// `rest` to give and always gives as much as it can.
pub open spec fn delivered(pending: int, rest: Seq<u8>) -> Seq<Seq<u8>>
    decreases pending,
{
    if pending <= 0 {
        Seq::empty()
    } else {
        let n = if chunk_size(pending) <= rest.len() {
            chunk_size(pending)
        } else {
            rest.len() as int
        };
        seq![rest.take(n)] + delivered(pending_after(pending, n), rest.skip(n))
    }
}

/// A read request delivers the file from its position on, in order: all that was
/// asked for, or up to the end of the file. Each packet carries at most
/// [`MAX_CONTENT_SIZE`] bytes of it, and no more than is asked for at its turn.
pub proof fn law_read_delivers_the_file(pending: int, rest: Seq<u8>)
    requires
        pending >= 0,
    ensures
        delivered(pending, rest).flatten() == rest.take(
            if pending <= rest.len() {
                pending
            } else {
                rest.len() as int
            },
        ),
        forall|i: int|
            0 <= i < delivered(pending, rest).len() ==> (#[trigger] delivered(
                pending,
                rest,
            )[i]).len() <= MAX_CONTENT_SIZE,
        may_be_read(pending, delivered(pending, rest)),
        left_after(pending, delivered(pending, rest)) == 0,
    decreases pending,
{
    let chunks = delivered(pending, rest);
    let total = if pending <= rest.len() {
        pending
    } else {
        rest.len() as int
    };
    if pending == 0 {
        assert(chunks.flatten() =~= rest.take(0));
    } else {
        let n = if chunk_size(pending) <= rest.len() {
            chunk_size(pending)
        } else {
            rest.len() as int
        };
        let left = pending_after(pending, n);
        let tail = delivered(left, rest.skip(n));
        law_read_delivers_the_file(left, rest.skip(n));
        assert(chunks.drop_first() =~= tail);
        assert(chunks.flatten() == rest.take(n) + tail.flatten());
        assert(chunks.flatten() =~= rest.take(total));
    }
}

/// A read request that the file cannot fill ends with an empty chunk; one that it
/// can fill has none.
pub proof fn law_read_ends_with_an_empty_chunk_at_the_end_of_the_file(pending: int, rest: Seq<u8>)
    requires
        pending > 0,
    ensures
        delivered(pending, rest).len() > 0,
        delivered(pending, rest).last().len() == 0 <==> rest.len() < pending,
    decreases pending,
{
    let n = if chunk_size(pending) <= rest.len() {
        chunk_size(pending)
    } else {
        rest.len() as int
    };
    let left = pending_after(pending, n);
    let tail = delivered(left, rest.skip(n));
    if left > 0 {
        law_read_ends_with_an_empty_chunk_at_the_end_of_the_file(left, rest.skip(n));
        assert(delivered(pending, rest).last() == tail.last());
    } else {
        assert(tail.len() == 0);
        assert(delivered(pending, rest).last() == rest.take(n));
    }
}

/// The chunks are such as a file may give to a read request for `pending` bytes:
/// none while nothing is pending, and none larger than was asked for.
pub open spec fn may_be_read(pending: int, chunks: Seq<Seq<u8>>) -> bool
    decreases chunks.len(),
{
    chunks.len() > 0 ==> {
        &&& pending > 0
        &&& chunks[0].len() <= chunk_size(pending)
        &&& may_be_read(pending_after(pending, chunks[0].len() as int), chunks.drop_first())
    }
}

/// What is left to be sent after all these chunks.
pub open spec fn left_after(pending: int, chunks: Seq<Seq<u8>>) -> int
    decreases chunks.len(),
{
    if chunks.len() == 0 {
        pending
    } else {
        left_after(pending_after(pending, chunks[0].len() as int), chunks.drop_first())
    }
}

/// A read request that is done has sent all that was asked for, or its last chunk was
/// empty: the file had ended.
pub proof fn law_read_that_is_done_sent_all_there_was(pending: int, chunks: Seq<Seq<u8>>)
    requires
        pending >= 0,
        may_be_read(pending, chunks),
        left_after(pending, chunks) == 0,
    ensures
        chunks.flatten().len() == pending || chunks.len() > 0 && chunks.last().len() == 0,
    decreases chunks.len(),
{
    if chunks.len() > 0 {
        let rest = chunks.drop_first();
        let left = pending_after(pending, chunks[0].len() as int);
        assert(may_be_read(left, rest));
        law_read_that_is_done_sent_all_there_was(left, rest);
        assert(chunks.flatten().len() == chunks[0].len() + rest.flatten().len());
        if rest.len() > 0 {
            assert(left > 0);
            assert(chunks.last() == rest.last());
        }
    }
}

/// Whatever the file gives, a read request sends no more than was asked for.
pub proof fn law_read_sends_no_more_than_asked(pending: int, chunks: Seq<Seq<u8>>)
    requires
        pending >= 0,
        may_be_read(pending, chunks),
    ensures
        chunks.flatten().len() <= pending,
    decreases chunks.len(),
{
    if chunks.len() > 0 {
        law_read_sends_no_more_than_asked(
            pending_after(pending, chunks[0].len() as int),
            chunks.drop_first(),
        );
    }
}

/// The packet for a chunk reads back as the header of the request with the size
/// of the chunk for its result, the fields of the request, and the chunk.
pub proof fn law_chunk_packet_reads_back(header: Header, request: FileContent, chunk: Seq<u8>)
    requires
        chunk.len() <= MAX_CONTENT_SIZE,
    ensures
        ({
            let packet = chunk_packet(header, request, chunk);
            let data = packet.skip(HEADER_SIZE as int);
            &&& Header::parse(packet) == Header {
                command: header.command,
                result: chunk.len() as i32,
                cookie: header.cookie,
            }
            &&& FileContent::parse(data) == request
            &&& data.skip(FILECONTENT_SIZE as int) == chunk
        }),
{
    let packet = chunk_packet(header, request, chunk);
    reply::law_packet_reads_back(header, chunk.len() as i32, request.bytes() + chunk);
    msgs::law_file_content_reads_back(request, chunk);
    assert(packet.skip(HEADER_SIZE as int).skip(FILECONTENT_SIZE as int) =~= chunk);
}

/// Whatever the file gives, a read request ends: each step leaves less to send.
pub proof fn law_read_ends(pending: int, n: int)
    requires
        pending > 0,
        0 <= n <= chunk_size(pending),
    ensures
        0 <= pending_after(pending, n) < pending,
{
}

/// A chunk is as large as it may be: all that is pending, or else as much as one packet
/// carries.
pub proof fn law_chunks_are_as_large_as_may_be(pending: int)
    requires
        pending > 0,
    ensures
        0 < chunk_size(pending) <= pending,
        chunk_size(pending) <= 200,
        chunk_size(pending) == pending || chunk_size(pending) == 200,
{
}

/// A chunk takes its own size off what is pending, and an empty one takes all.
pub proof fn law_chunk_takes_its_size_off(pending: int, n: int)
    requires
        0 <= n <= pending,
    ensures
        n > 0 ==> pending_after(pending, n) + n == pending,
        n == 0 ==> pending_after(pending, n) == 0,
{
}

} // verus!
