//! Messages on a byte stream: each is preceded by its length, in eight bytes, the least
//! significant first.

use vstd::bytes::{
    lemma_auto_spec_u64_to_from_le_bytes, spec_u64_from_le_bytes, spec_u64_to_le_bytes,
    spec_u64_to_le_bytes_to_open, u64_from_le_bytes, u64_to_le_bytes,
};
use vstd::prelude::*;

verus! {

/// The number of bytes that hold a message's length.
pub const HEADER_LEN: usize = 8;

/// The bytes that carry a message.
pub open spec fn frame(message: Seq<u8>) -> Seq<u8> {
    spec_u64_to_le_bytes(message.len() as u64) + message
}

/// The bytes that carry several messages, one behind the other.
pub open spec fn frames(messages: Seq<Seq<u8>>) -> Seq<u8>
    decreases messages.len(),
{
    if messages.len() == 0 {
        Seq::empty()
    } else {
        frame(messages[0]) + frames(messages.drop_first())
    }
}

/// What the receiver waits for.
#[derive(Clone, Copy, Debug, PartialEq, Eq, Structural)]
pub enum ReadStage {
    /// The length of the next message.
    Header,
    /// The message itself, of this length.
    Body(usize),
}

/// A connection on which whole messages are sent and received.
pub struct AsyncTcpConnection {
    pub stage: ReadStage,
}

/// How many bytes the receiver waits for.
pub open spec fn bytes_wanted(stage: ReadStage) -> int {
    match stage {
        ReadStage::Header => HEADER_LEN as int,
        ReadStage::Body(len) => len as int,
    }
}

/// What the receiver waits for when it got the bytes it waited for, and the message that has
/// come to its end.
pub open spec fn stage_after(stage: ReadStage, bytes: Seq<u8>) -> (ReadStage, Option<Seq<u8>>) {
    match stage {
        ReadStage::Header => (ReadStage::Body(spec_u64_from_le_bytes(bytes) as usize), None),
        ReadStage::Body(_) => (ReadStage::Header, Some(bytes)),
    }
}

impl AsyncTcpConnection {
    /// A connection on which nothing has been received yet.
    pub fn new() -> (r: Self)
        ensures
            r.stage == ReadStage::Header,
    {
        AsyncTcpConnection { stage: ReadStage::Header }
    }

    /// The bytes to write in order to send a message.
    pub fn send(&self, request: &[u8]) -> (r: Vec<u8>)
        ensures
            r@ == frame(request@),
    {
        let len = request.len();
        let mut r = u64_to_le_bytes(len as u64);
        r.extend_from_slice(request);
        assert(r@ =~= frame(request@));
        r
    }

    /// How many bytes to read next, exactly.
    pub fn wanted(&self) -> (r: usize)
        ensures
            r == bytes_wanted(self.stage),
    {
        match self.stage {
            ReadStage::Header => HEADER_LEN,
            ReadStage::Body(len) => len,
        }
    }

    /// Takes the bytes that were read, as many as were wanted, and hands out the message that
    /// they complete.
    pub fn receive(&mut self, bytes: Vec<u8>) -> (r: Option<Vec<u8>>)
        requires
            bytes@.len() == bytes_wanted(old(self).stage),
        ensures
            final(self).stage == stage_after(old(self).stage, bytes@).0,
            match (r, stage_after(old(self).stage, bytes@).1) {
                (Some(message), Some(body)) => message@ == body,
                (None, None) => true,
                _ => false,
            },
    {
        match self.stage {
            ReadStage::Header => {
                let len = u64_from_le_bytes(bytes.as_slice());
                self.stage = ReadStage::Body(len as usize);
                None
            },
            ReadStage::Body(_) => {
                self.stage = ReadStage::Header;
                Some(bytes)
            },
        }
    }
}

/// The messages that a receiver hands out, waiting for `stage`, from the bytes of a stream, as
/// far as they come to their end.
pub open spec fn received(stage: ReadStage, stream: Seq<u8>) -> Seq<Seq<u8>>
    decreases stream.len(), (if stage is Header { 0nat } else { 1nat }),
{
    let wanted = bytes_wanted(stage);
    if stream.len() < wanted || wanted < 0 {
        Seq::empty()
    } else {
        let (next, message) = stage_after(stage, stream.take(wanted));
        let rest = received(next, stream.skip(wanted));
        match message {
            Some(message) => seq![message] + rest,
            None => rest,
        }
    }
}

/// A receiver hands out exactly the messages that were sent, in their order, whatever follows
/// them on the stream.
pub proof fn law_receive_gives_back_what_was_sent(messages: Seq<Seq<u8>>, tail: Seq<u8>)
    requires
        forall|i: int|
            0 <= i < messages.len() ==> (#[trigger] messages[i]).len() <= usize::MAX,
    ensures
        received(ReadStage::Header, frames(messages) + tail) == messages + received(
            ReadStage::Header,
            tail,
        ),
    decreases messages.len(),
{
    if messages.len() == 0 {
        assert(frames(messages) + tail =~= tail);
        assert(messages + received(ReadStage::Header, tail) =~= received(ReadStage::Header, tail));
    } else {
        lemma_auto_spec_u64_to_from_le_bytes();
        let m = messages[0];
        let rest = messages.drop_first();
        let stream = frames(messages) + tail;
        let header = spec_u64_to_le_bytes(m.len() as u64);
        assert(header.len() == HEADER_LEN);
        assert(stream.take(HEADER_LEN as int) =~= header);
        let body = stream.skip(HEADER_LEN as int);
        assert(spec_u64_from_le_bytes(header) as usize == m.len());
        let stage = ReadStage::Body(m.len() as usize);
        assert(stage_after(ReadStage::Header, header).0 == stage);
        assert(body.take(m.len() as int) =~= m);
        assert(body.skip(m.len() as int) =~= frames(rest) + tail);
        assert forall|i: int| 0 <= i < rest.len() implies (#[trigger] rest[i]).len()
            <= usize::MAX by {
            assert(rest[i] == messages[i + 1]);
        }
        law_receive_gives_back_what_was_sent(rest, tail);
        assert(received(ReadStage::Header, stream) == received(stage, body));
        assert(received(stage, body) == seq![m] + received(ReadStage::Header, frames(rest) + tail));
        assert(seq![m] + (rest + received(ReadStage::Header, tail)) =~= messages + received(
            ReadStage::Header,
            tail,
        ));
    }
}

/// A message is carried by eight bytes and its own: the eight hold its length, the least
/// significant byte first.
pub proof fn law_frame_holds_the_length_and_the_message(message: Seq<u8>)
    requires
        message.len() <= u64::MAX,
    ensures
        frame(message).len() == 8 + message.len(),
        frame(message).skip(8) == message,
        forall|k: int|
            0 <= k < 8 ==> #[trigger] frame(message)[k] == ((message.len() as u64) >> ((8
                * k) as u64) & 0xff) as u8,
{
    let len = message.len() as u64;
    lemma_auto_spec_u64_to_from_le_bytes();
    spec_u64_to_le_bytes_to_open(len);
    assert(len >> 0u64 == len) by (bit_vector);
    assert(frame(message).skip(8) =~= message);
}

} // verus!
