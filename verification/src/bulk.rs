//! Recovery of a bulk upload from a recorded session.
//!
//! The chunks of the bulk transfers sent in a session, taken in the order
//! in which they were sent, form one stream of bytes. A number of bytes at
//! the front of that stream may be dropped; the rest is what gets written.

use crate::command::{decode_command, decoded, Command, CommandView};
use crate::session::{views, MessageView, RecordedMessage};
use vstd::prelude::*;
use vstd::slice::slice_subrange;

verus! {

/// The bytes that one message adds to the stream: the payload of the bulk
/// transfer it decodes to, and nothing for any other message.
pub open spec fn chunk_of(message: MessageView) -> Seq<u8> {
    match decoded(message) {
        Some(CommandView::BulkTransfer { payload }) => payload,
        _ => Seq::empty(),
    }
}

/// The stream of a session: the chunks of its messages, one after the
/// other, in the order of the messages.
pub open spec fn bulk_stream(messages: Seq<MessageView>) -> Seq<u8>
    decreases messages.len(),
{
    if messages.len() == 0 {
        Seq::empty()
    } else {
        bulk_stream(messages.drop_last()) + chunk_of(messages.last())
    }
}

/// What is left of a stream once the requested number of bytes has been
/// dropped from its front. A stream shorter than that number leaves
/// nothing.
pub open spec fn after_skip(stream: Seq<u8>, skip: Option<usize>) -> Seq<u8> {
    match skip {
        Some(count) => if count <= stream.len() {
            stream.skip(count as int)
        } else {
            Seq::empty()
        },
        None => stream,
    }
}

/// How many bytes are still to be dropped once a stream of `len` bytes
/// has passed.
pub open spec fn after_skip_left(len: nat, skip: Option<usize>) -> nat {
    match skip {
        Some(count) => if count <= len {
            0
        } else {
            (count - len) as nat
        },
        None => 0,
    }
}

/// How many of the next `len` bytes a sink drops that still has
/// `remaining` bytes to drop.
pub open spec fn dropped(remaining: nat, len: nat) -> nat {
    if remaining <= len {
        remaining
    } else {
        len
    }
}

/// A sink that drops a fixed number of bytes from the front of what passes
/// through it and lets everything after them through.
#[derive(Clone, Copy, Debug)]
pub struct SkipSink {
    remaining: usize,
}

impl SkipSink {
    /// The number of bytes that the sink will still drop.
    pub closed spec fn remaining(&self) -> nat {
        self.remaining as nat
    }

    /// A sink that drops the first `skip` bytes, or none when no count is
    /// given.
    pub fn new(skip: Option<usize>) -> (sink: SkipSink)
        ensures
            sink.remaining() == match skip {
                Some(count) => count as nat,
                None => 0,
            },
    {
        match skip {
            Some(count) => SkipSink { remaining: count },
            None => SkipSink { remaining: 0 },
        }
    }

    /// The number of bytes that the sink will still drop.
    pub fn left(&self) -> (count: usize)
        ensures
            count == self.remaining(),
    {
        self.remaining
    }

    /// Passes the next chunk of the stream through the sink and returns
    /// the part of it that comes out.
    pub fn forward<'a>(&mut self, chunk: &'a [u8]) -> (kept: &'a [u8])
        ensures
            kept@ == chunk@.skip(dropped(old(self).remaining(), chunk@.len()) as int),
            final(self).remaining() == old(self).remaining() - dropped(
                old(self).remaining(),
                chunk@.len(),
            ),
    {
        let count: usize = if self.remaining <= chunk.len() {
            self.remaining
        } else {
            chunk.len()
        };
        self.remaining = self.remaining - count;
        slice_subrange(chunk, count, chunk.len())
    }
}

/// The bytes of the bulk upload recorded in a session.
///
/// The payloads of the bulk transfers sent in the session are joined in
/// the order of the messages. With a skip count, that many bytes are
/// dropped from the front of the joined stream; if the stream is shorter,
/// nothing is left.
pub fn dump(skip: Option<usize>, messages: &[RecordedMessage]) -> (output: Vec<u8>)
    ensures
        output@ == after_skip(bulk_stream(views(messages@)), skip),
{
    let mut sink = SkipSink::new(skip);
    let mut output: Vec<u8> = Vec::new();
    let mut i: usize = 0;
    while i < messages.len()
        invariant
            i <= messages.len(),
            output@ == after_skip(bulk_stream(views(messages@).take(i as int)), skip),
            sink.remaining() == after_skip_left(
                bulk_stream(views(messages@).take(i as int)).len(),
                skip,
            ),
        decreases messages.len() - i,
    {
        let ghost stream = bulk_stream(views(messages@).take(i as int));
        let ghost before = output@;
        proof {
            let read = views(messages@).take(i + 1);
            assert(read.drop_last() == views(messages@).take(i as int));
            assert(read.last() == messages@[i as int]@);
        }
        match decode_command(&messages[i]) {
            Some(Command::BulkTransfer { payload }) => {
                let kept = sink.forward(payload.as_slice());
                output.extend_from_slice(kept);
                proof {
                    assert(output@ == before + kept@);
                    lemma_after_skip_extends(stream, payload@, skip);
                }
            },
            _ => {
                assert(stream + Seq::<u8>::empty() == stream);
            },
        }
        i += 1;
    }
    assert(views(messages@).take(messages@.len() as int) == views(messages@));
    output
}

/// Dropping the front of a stream can be done chunk by chunk: what is left
/// of a stream followed by one more chunk is what was left of the stream,
/// followed by the chunk without the bytes that were still to be dropped.
pub proof fn lemma_after_skip_extends(stream: Seq<u8>, chunk: Seq<u8>, skip: Option<usize>)
    ensures
        after_skip(stream + chunk, skip) == after_skip(stream, skip) + chunk.skip(
            dropped(after_skip_left(stream.len(), skip), chunk.len()) as int,
        ),
        after_skip_left((stream + chunk).len(), skip) == after_skip_left(stream.len(), skip)
            - dropped(after_skip_left(stream.len(), skip), chunk.len()),
{
}

/// A session in which no message decodes to a bulk transfer has an empty
/// stream, so that nothing is written whatever the skip count.
pub proof fn lemma_no_bulk_transfer_no_output(messages: Seq<MessageView>, skip: Option<usize>)
    requires
        forall|i: int|
            0 <= i < messages.len() ==> !(decoded(#[trigger] messages[i]) matches Some(
                CommandView::BulkTransfer { .. },
            )),
    ensures
        bulk_stream(messages) == Seq::<u8>::empty(),
        after_skip(bulk_stream(messages), skip) == Seq::<u8>::empty(),
    decreases messages.len(),
{
    if messages.len() > 0 {
        lemma_no_bulk_transfer_no_output(messages.drop_last(), skip);
    }
}

} // verus!
