//! Numbering of the messages of a session for a transcript.
//!
//! Every message of a session gets a line in the transcript, whether or
//! not its bytes decode to anything. The line opens with the message's
//! number among the messages of its own direction, counted from one, and a
//! colon. Sent and received messages are counted apart.

use crate::session::{views, Direction, MessageView, RecordedMessage};
use vstd::prelude::*;
use vstd::string::*;

verus! {

/// How many messages of the given direction a stretch of a session holds.
pub open spec fn count_of(messages: Seq<MessageView>, direction: Direction) -> nat
    decreases messages.len(),
{
    if messages.len() == 0 {
        0
    } else if messages.last().direction == direction {
        count_of(messages.drop_last(), direction) + 1
    } else {
        count_of(messages.drop_last(), direction)
    }
}

/// The number that the message at position `i` carries in the
/// transcript: its place among the messages of its direction up to and
/// including itself.
pub open spec fn number_at(messages: Seq<MessageView>, i: int) -> nat
    recommends
        0 <= i < messages.len(),
{
    count_of(messages.take(i + 1), messages[i].direction)
}

/// The character that stands for a single decimal digit.
pub open spec fn digit_char(digit: nat) -> char
    recommends
        digit < 10,
{
    (('0' as u8) + digit) as u8 as char
}

/// The decimal numeral of a number: no sign, no leading zero, a single
/// `0` for zero.
pub open spec fn decimal_text(number: nat) -> Seq<char>
    decreases number,
{
    if number < 10 {
        seq![digit_char(number)]
    } else {
        decimal_text(number / 10).push(digit_char(number % 10))
    }
}

/// The number that a string of decimal digits denotes.
pub open spec fn decimal_value(text: Seq<char>) -> nat
    decreases text.len(),
{
    if text.len() == 0 {
        0
    } else {
        (decimal_value(text.drop_last()) * 10 + (text.last() as u8 - '0' as u8)) as nat
    }
}

/// The text that opens the transcript line of a message with the given
/// number: the numeral, then a colon.
pub open spec fn prefix_text(number: nat) -> Seq<char> {
    decimal_text(number).push(':')
}

/// What opens the transcript line of one message.
#[derive(Clone, Copy, Debug, PartialEq, Eq, Structural)]
pub struct Label {
    /// The direction of the message, which selects how it is rendered.
    pub direction: Direction,
    /// The number of the message among those of its direction.
    pub number: u64,
}

/// The two running counts of a transcript.
#[derive(Clone, Copy, Debug)]
pub struct Counters {
    sent: u64,
    received: u64,
}

impl Counters {
    /// How many messages of the given direction have been counted.
    pub closed spec fn count(&self, direction: Direction) -> nat {
        match direction {
            Direction::Sent => self.sent as nat,
            Direction::Received => self.received as nat,
        }
    }

    /// Counters at the start of a transcript: nothing counted yet.
    pub fn new() -> (counters: Counters)
        ensures
            counters.count(Direction::Sent) == 0,
            counters.count(Direction::Received) == 0,
    {
        Counters { sent: 0, received: 0 }
    }

    /// How many messages of the given direction have been counted.
    pub fn counted(&self, direction: Direction) -> (count: u64)
        ensures
            count == self.count(direction),
    {
        match direction {
            Direction::Sent => self.sent,
            Direction::Received => self.received,
        }
    }

    /// Counts one more message of the given direction and returns its
    /// label. The count of the other direction stays as it is.
    pub fn feed(&mut self, direction: Direction) -> (label: Label)
        requires
            old(self).count(direction) < u64::MAX,
        ensures
            label.direction == direction,
            label.number == old(self).count(direction) + 1,
            final(self).count(direction) == old(self).count(direction) + 1,
            forall|other: Direction|
                other != direction ==> final(self).count(other) == old(self).count(other),
    {
        match direction {
            Direction::Sent => {
                self.sent = self.sent + 1;
                Label { direction, number: self.sent }
            },
            Direction::Received => {
                self.received = self.received + 1;
                Label { direction, number: self.received }
            },
        }
    }
}

impl Label {
    /// The text that opens the message's line: its number in decimal,
    /// then a colon.
    pub fn prefix(&self) -> (text: String)
        ensures
            text@ == prefix_text(self.number as nat),
    {
        let mut text = decimal(self.number);
        proof {
            reveal_strlit(":");
            assert(":"@ == seq![':']);
            assert(text@ + seq![':'] == text@.push(':'));
        }
        text.append(":");
        text
    }
}

/// The one character string of a decimal digit.
fn digit_str(digit: u64) -> (text: &'static str)
    requires
        digit < 10,
    ensures
        text@ == seq![digit_char(digit as nat)],
{
    proof {
        reveal_strlit("0");
        reveal_strlit("1");
        reveal_strlit("2");
        reveal_strlit("3");
        reveal_strlit("4");
        reveal_strlit("5");
        reveal_strlit("6");
        reveal_strlit("7");
        reveal_strlit("8");
        reveal_strlit("9");
    }
    let text = match digit {
        0 => "0",
        1 => "1",
        2 => "2",
        3 => "3",
        4 => "4",
        5 => "5",
        6 => "6",
        7 => "7",
        8 => "8",
        _ => "9",
    };
    assert(text@ == seq![digit_char(digit as nat)]);
    text
}

/// Writes a number as its decimal numeral.
pub fn decimal(number: u64) -> (text: String)
    ensures
        text@ == decimal_text(number as nat),
    decreases number,
{
    if number < 10 {
        String::from_str(digit_str(number))
    } else {
        let mut text = decimal(number / 10);
        let digit = digit_str(number % 10);
        assert(text@ + digit@ == text@.push(digit_char((number % 10) as nat)));
        text.append(digit);
        text
    }
}

/// Labels the messages of a session for a transcript.
///
/// Every message gets one label, in the order of the messages. A label
/// carries the direction of its message and the message's number among
/// those of the same direction so far, the first being number one.
pub fn decode(messages: &[RecordedMessage]) -> (labels: Vec<Label>)
    ensures
        labels@.len() == messages@.len(),
        forall|i: int|
            0 <= i < labels@.len() ==> (#[trigger] labels@[i]).direction == messages@[i]@.direction
                && labels@[i].number == number_at(views(messages@), i),
{
    let mut counters = Counters::new();
    let mut labels: Vec<Label> = Vec::new();
    let mut i: usize = 0;
    while i < messages.len()
        invariant
            i <= messages.len(),
            labels@.len() == i,
            forall|direction: Direction|
                counters.count(direction) == count_of(
                    #[trigger] views(messages@).take(i as int),
                    direction,
                ),
            forall|direction: Direction| #[trigger] counters.count(direction) <= i,
            forall|j: int|
                0 <= j < i ==> (#[trigger] labels@[j]).direction == messages@[j]@.direction
                    && labels@[j].number == number_at(views(messages@), j),
        decreases messages.len() - i,
    {
        let direction = messages[i].direction();
        proof {
            let read = views(messages@).take(i + 1);
            assert(read.drop_last() == views(messages@).take(i as int));
            assert(read.last() == messages@[i as int]@);
            assert(counters.count(direction) <= i);
        }
        let label = counters.feed(direction);
        labels.push(label);
        i += 1;
    }
    labels
}

/// Messages of another direction do not move a count: over a stretch of
/// the session that holds no message of a direction, the count of that
/// direction stays the same.
pub proof fn lemma_count_unmoved(
    messages: Seq<MessageView>,
    from: int,
    to: int,
    direction: Direction,
)
    requires
        0 <= from <= to <= messages.len(),
        forall|k: int| from <= k < to ==> (#[trigger] messages[k]).direction != direction,
    ensures
        count_of(messages.take(to), direction) == count_of(messages.take(from), direction),
    decreases to - from,
{
    if from < to {
        lemma_count_unmoved(messages, from, to - 1, direction);
        assert(messages.take(to).drop_last() == messages.take(to - 1));
        assert(messages.take(to).last() == messages[to - 1]);
    }
}

/// The first message of a direction carries the number one.
pub proof fn lemma_numbers_start_at_one(messages: Seq<MessageView>, i: int)
    requires
        0 <= i < messages.len(),
        forall|k: int| 0 <= k < i ==> (#[trigger] messages[k]).direction != messages[i].direction,
    ensures
        number_at(messages, i) == 1,
{
    lemma_count_unmoved(messages, 0, i, messages[i].direction);
    assert(messages.take(i + 1).drop_last() == messages.take(i));
    assert(messages.take(i + 1).last() == messages[i]);
    assert(messages.take(0).len() == 0);
}

/// From one message of a direction to the next of the same direction the
/// number grows by exactly one, however many messages of the other
/// direction lie between them.
pub proof fn lemma_numbers_count_up(messages: Seq<MessageView>, i: int, j: int)
    requires
        0 <= i < j < messages.len(),
        messages[i].direction == messages[j].direction,
        forall|k: int| i < k < j ==> (#[trigger] messages[k]).direction != messages[j].direction,
    ensures
        number_at(messages, j) == number_at(messages, i) + 1,
{
    lemma_count_unmoved(messages, i + 1, j, messages[j].direction);
    assert(messages.take(j + 1).drop_last() == messages.take(j));
    assert(messages.take(j + 1).last() == messages[j]);
}

/// A decimal numeral denotes the number it was written for.
pub proof fn lemma_decimal_reads_back(number: nat)
    ensures
        decimal_value(decimal_text(number)) == number,
    decreases number,
{
    let text = decimal_text(number);
    let digit = number % 10;
    assert('0' as u8 == 48);
    assert(digit_char(digit) as u8 == 48 + digit);
    assert(text.last() == digit_char(digit));
    if number < 10 {
        assert(text.drop_last().len() == 0);
        assert(decimal_value(text.drop_last()) == 0);
    } else {
        lemma_decimal_reads_back(number / 10);
        assert(text.drop_last() == decimal_text(number / 10));
    }
}

} // verus!
