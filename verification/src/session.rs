//! Recorded sessions: the messages exchanged with a device, in the order
//! in which they were recorded.
//!
//! A session is kept as text, one message per line. Each line names the
//! direction of a message and carries its bytes. Lines that do not have
//! this form are left out; the lines around them keep their order.

use minidsp::utils::recorder;
use vstd::prelude::*;

verus! {

/// Whether a message went to the device or came from it.
#[derive(Clone, Copy, Debug, PartialEq, Eq, Structural)]
pub enum Direction {
    Sent,
    Received,
}

/// One message of a recorded session, with its raw bytes.
#[derive(Debug, PartialEq, Eq)]
pub enum RecordedMessage {
    Sent(Vec<u8>),
    Received(Vec<u8>),
}

/// Mathematical model of a [`RecordedMessage`].
pub struct MessageView {
    pub direction: Direction,
    pub payload: Seq<u8>,
}

impl View for RecordedMessage {
    type V = MessageView;

    open spec fn view(&self) -> MessageView {
        match self {
            RecordedMessage::Sent(data) => MessageView {
                direction: Direction::Sent,
                payload: data@,
            },
            RecordedMessage::Received(data) => MessageView {
                direction: Direction::Received,
                payload: data@,
            },
        }
    }
}

impl Clone for RecordedMessage {
    fn clone(&self) -> (copy: Self)
        ensures
            copy@ == self@,
    {
        match self {
            RecordedMessage::Sent(data) => RecordedMessage::Sent(data.clone()),
            RecordedMessage::Received(data) => RecordedMessage::Received(data.clone()),
        }
    }
}

impl RecordedMessage {
    /// The direction in which the message travelled.
    pub fn direction(&self) -> (direction: Direction)
        ensures
            direction == self@.direction,
    {
        match self {
            RecordedMessage::Sent(_) => Direction::Sent,
            RecordedMessage::Received(_) => Direction::Received,
        }
    }

    /// The raw bytes of the message.
    pub fn data(&self) -> (data: &Vec<u8>)
        ensures
            data@ == self@.payload,
    {
        match self {
            RecordedMessage::Sent(data) => data,
            RecordedMessage::Received(data) => data,
        }
    }
}

/// The value of a hexadecimal digit, in either case.
pub open spec fn hex_digit(c: char) -> Option<nat> {
    if '0' <= c <= '9' {
        Some((c as u32 - '0' as u32) as nat)
    } else if 'a' <= c <= 'f' {
        Some((c as u32 - 'a' as u32 + 10) as nat)
    } else if 'A' <= c <= 'F' {
        Some((c as u32 - 'A' as u32 + 10) as nat)
    } else {
        None
    }
}

/// The bytes written out as pairs of hexadecimal digits, the high digit of
/// each byte first. There are none where a character is no such digit or
/// a digit is left over.
pub open spec fn hex_bytes(text: Seq<char>) -> Option<Seq<u8>> {
    if text.len() % 2 == 0 && forall|i: int| 0 <= i < text.len() ==> hex_digit(text[i]) is Some {
        Some(
            Seq::new(
                text.len() / 2,
                |i: int| (hex_digit(text[2 * i])->0 * 16 + hex_digit(text[2 * i + 1])->0) as u8,
            ),
        )
    } else {
        None
    }
}

/// The message that one line of a session's text holds, or `None` where
/// the line holds none.
///
/// A line holds a message where it opens with `Sent: ` or `Recv: ` and
/// goes on, to its end, with the bytes of the message in hexadecimal.
pub open spec fn recorded_line(line: Seq<char>) -> Option<MessageView> {
    if line.len() >= 6 && line.take(6) == "Sent: "@ {
        match hex_bytes(line.skip(6)) {
            Some(payload) => Some(MessageView { direction: Direction::Sent, payload }),
            None => None,
        }
    } else if line.len() >= 6 && line.take(6) == "Recv: "@ {
        match hex_bytes(line.skip(6)) {
            Some(payload) => Some(MessageView { direction: Direction::Received, payload }),
            None => None,
        }
    } else {
        None
    }
}

/// The model of an optional message.
pub open spec fn parsed_view(parsed: Option<RecordedMessage>) -> Option<MessageView> {
    match parsed {
        Some(message) => Some(message@),
        None => None,
    }
}

/// The models of a sequence of messages, in the same order.
pub open spec fn views(messages: Seq<RecordedMessage>) -> Seq<MessageView> {
    messages.map_values(|message: RecordedMessage| message@)
}

/// The text of each line, in the same order.
pub open spec fn texts(lines: Seq<String>) -> Seq<Seq<char>> {
    lines.map_values(|line: String| line@)
}

/// The messages held by the lines of a session, in the order of the lines.
/// A line that holds no message contributes nothing.
pub open spec fn session_of(lines: Seq<Seq<char>>) -> Seq<MessageView>
    decreases lines.len(),
{
    if lines.len() == 0 {
        Seq::empty()
    } else {
        let before = session_of(lines.drop_last());
        match recorded_line(lines.last()) {
            Some(message) => before.push(message),
            None => before,
        }
    }
}

/// Reads one line with `minidsp::utils::recorder::Message::from_string`.
///
/// Trusted: that function splits the line at its first `: `, takes
/// `Sent` and `Recv` before it for the two directions, and reads what
/// follows with `hex::decode`, which wants an even number of hexadecimal
/// digits in either case; any other line gives `None`. The bytes and the
/// direction are carried over unchanged.
#[verifier::external_body]
fn message_from_string(line: &str) -> (parsed: Option<RecordedMessage>)
    ensures
        parsed_view(parsed) == recorded_line(line@),
{
    match recorder::Message::from_string(line) {
        Some(recorder::Message::Sent(data)) => Some(RecordedMessage::Sent(data.to_vec())),
        Some(recorder::Message::Received(data)) => Some(RecordedMessage::Received(data.to_vec())),
        None => None,
    }
}

/// Reads the messages of a session from its lines.
///
/// The result holds one message for each line that holds one, in the
/// order of the lines. Other lines are skipped and change nothing about
/// the messages read from the lines around them.
pub fn read_session(lines: &[String]) -> (messages: Vec<RecordedMessage>)
    ensures
        views(messages@) == session_of(texts(lines@)),
{
    let mut messages: Vec<RecordedMessage> = Vec::new();
    let mut i: usize = 0;
    while i < lines.len()
        invariant
            i <= lines.len(),
            views(messages@) == session_of(texts(lines@).take(i as int)),
        decreases lines.len() - i,
    {
        let ghost before = messages@;
        let parsed = message_from_string(lines[i].as_str());
        proof {
            let read = texts(lines@).take(i + 1);
            assert(read.drop_last() == texts(lines@).take(i as int));
            assert(read.last() == lines@[i as int]@);
        }
        match parsed {
            Some(message) => {
                messages.push(message);
                assert(views(messages@) == views(before).push(message@));
            },
            None => {},
        }
        i += 1;
    }
    assert(texts(lines@).take(lines@.len() as int) == texts(lines@));
    messages
}

/// Reading a session line by line gives the same messages as reading it
/// at once: the messages of two stretches of lines, one after the other,
/// are the messages of the first followed by those of the second.
pub proof fn lemma_session_of_concat(first: Seq<Seq<char>>, second: Seq<Seq<char>>)
    ensures
        session_of(first + second) == session_of(first) + session_of(second),
    decreases second.len(),
{
    if second.len() == 0 {
        assert(first + second == first);
        assert(session_of(first) + session_of(second) == session_of(first));
    } else {
        lemma_session_of_concat(first, second.drop_last());
        assert((first + second).drop_last() == first + second.drop_last());
        assert((first + second).last() == second.last());
        match recorded_line(second.last()) {
            Some(message) => {
                assert((session_of(first) + session_of(second.drop_last())).push(message)
                    == session_of(first) + session_of(second.drop_last()).push(message));
            },
            None => {},
        }
    }
}

} // verus!
