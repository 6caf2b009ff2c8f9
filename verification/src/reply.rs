//! Replies: what a request comes to, and the packet that says so.

use vstd::prelude::*;
use crate::msgs;
use crate::msgs::{Header, HEADER_SIZE};

verus! {

/// The result that stands for "send nothing".
pub const RESULT_DO_NOT_SEND_RESPONSE: i32 = 0xAAAA;

/// What a request came to: the result for the header of the reply, and the data
/// behind the header. `B` holds the data: bytes, or in contracts their sequence.
#[derive(PartialEq, Eq, Debug)]
pub struct Reply<B> {
    pub result: i32,
    pub data: B,
}

impl View for Reply<Vec<u8>> {
    type V = Reply<Seq<u8>>;

    open spec fn view(&self) -> Reply<Seq<u8>> {
        Reply { result: self.result, data: self.data@ }
    }
}

/// A result with no data.
pub open spec fn bare(result: i32) -> Reply<Seq<u8>> {
    Reply { result, data: Seq::empty() }
}

/// A request that failed holds the host's error number in place of a reply.
pub open spec fn outcome_view(outcome: Result<Reply<Vec<u8>>, i32>) -> Result<Reply<Seq<u8>>, i32> {
    match outcome {
        Ok(reply) => Ok(reply@),
        Err(e) => Err(e),
    }
}

/// The packet that answers the request with this header.
pub open spec fn packet_of(header: Header, result: i32, data: Seq<u8>) -> Seq<u8> {
    (Header { command: header.command, result, cookie: header.cookie }).bytes() + data
}

/// The packet to send for an outcome, if one is to be sent.
pub open spec fn response_of(header: Header, outcome: Result<Reply<Seq<u8>>, i32>) -> Option<
    Seq<u8>,
> {
    match outcome {
        Ok(reply) => if reply.result == RESULT_DO_NOT_SEND_RESPONSE {
            None
        } else {
            Some(packet_of(header, reply.result, reply.data))
        },
        Err(e) => Some(packet_of(header, (-e) as i32, Seq::empty())),
    }
}

/// A result with no data.
pub fn bare_reply(result: i32) -> (r: Reply<Vec<u8>>)
    ensures
        r@ == bare(result),
{
    Reply { result, data: Vec::new() }
}

/// The packet that answers the request with this header: the header with the
/// result filled in, then the data.
pub fn frame(header: &Header, result: i32, data: Vec<u8>) -> (r: Vec<u8>)
    ensures
        r@ == packet_of(*header, result, data@),
{
    let reply_header = Header { command: header.command, result, cookie: header.cookie };
    let mut packet = reply_header.encode();
    let mut rest = data;
    packet.append(&mut rest);
    packet
}

/// The packet to send for an outcome: none where the result says so; the
/// negated error number where the request failed.
pub fn respond(header: &Header, outcome: Result<Reply<Vec<u8>>, i32>) -> (r: Option<Vec<u8>>)
    requires
        outcome != Err::<Reply<Vec<u8>>, i32>(i32::MIN),
    ensures
        match r {
            Some(packet) => response_of(*header, outcome_view(outcome)) == Some(packet@),
            None => response_of(*header, outcome_view(outcome)) is None,
        },
{
    match outcome {
        Ok(reply) => {
            if reply.result != RESULT_DO_NOT_SEND_RESPONSE {
                Some(frame(header, reply.result, reply.data))
            } else {
                None
            }
        },
        Err(e) => Some(frame(header, -e, Vec::new())),
    }
}

/// A reply reads back as the header of the request with the result filled in, and
/// the data.
pub proof fn law_packet_reads_back(header: Header, result: i32, data: Seq<u8>)
    ensures
        ({
            let packet = packet_of(header, result, data);
            &&& packet.len() == HEADER_SIZE + data.len()
            &&& Header::parse(packet) == Header {
                command: header.command,
                result,
                cookie: header.cookie,
            }
            &&& packet.skip(HEADER_SIZE as int) == data
        }),
{
    let reply_header = Header { command: header.command, result, cookie: header.cookie };
    msgs::law_header_reads_back(reply_header, data);
    assert(packet_of(header, result, data).skip(HEADER_SIZE as int) =~= data);
}

/// A request that failed is always answered: with the negated error number, and
/// no data.
pub proof fn law_failure_is_answered(header: Header, e: i32)
    requires
        e != i32::MIN,
    ensures
        response_of(header, Err(e)) matches Some(packet) && Header::parse(packet) == (Header {
            command: header.command,
            result: (-e) as i32,
            cookie: header.cookie,
        }) && packet.len() == HEADER_SIZE,
{
    law_packet_reads_back(header, (-e) as i32, Seq::empty());
}

/// What contracts say of a reply they say of its own fields.
pub proof fn law_view_of_a_reply(reply: Reply<Vec<u8>>)
    ensures
        reply@.result == reply.result,
        reply@.data == reply.data@,
        outcome_view(Ok(reply)) == Ok::<Reply<Seq<u8>>, i32>(reply@),
        forall|e: i32| #[trigger] outcome_view(Err(e)) == Err::<Reply<Seq<u8>>, i32>(e),
{
}

} // verus!
