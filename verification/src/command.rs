//! Decoding of recorded messages into commands.
//!
//! Only messages sent to the device carry commands. The bytes of such a
//! message are a frame: a length byte, the command's identifier, the
//! command's body, and whatever follows the length given. The command that
//! matters most here is the bulk transfer, which carries one chunk of a
//! larger upload in its body.

use crate::session::{Direction, MessageView, RecordedMessage};
use futures::FutureExt;
use minidsp::commands::Commands;
use minidsp::utils::recorder;
use vstd::prelude::*;

verus! {

/// Identifier of the bulk transfer command.
pub const BULK_TRANSFER: u8 = 0x12;

/// Identifier of the command that writes the five coefficients of a biquad
/// filter.
pub const BIQUAD_WRITE: u8 = 0x30;

/// Length of the shortest biquad write frame whose coefficients are all
/// there: the identifier, a two byte address, two more bytes, and five
/// coefficients of four bytes each.
pub const BIQUAD_WRITE_FRAME_LEN: usize = 25;

/// A decoded command.
#[derive(Debug, PartialEq, Eq)]
pub enum Command {
    /// One chunk of a larger upload.
    BulkTransfer { payload: Vec<u8> },
    /// Any other command.
    Other,
}

/// Mathematical model of a [`Command`].
pub enum CommandView {
    BulkTransfer { payload: Seq<u8> },
    Other,
}

impl View for Command {
    type V = CommandView;

    open spec fn view(&self) -> CommandView {
        match self {
            Command::BulkTransfer { payload } => CommandView::BulkTransfer { payload: payload@ },
            Command::Other => CommandView::Other,
        }
    }
}

impl Clone for Command {
    fn clone(&self) -> (copy: Self)
        ensures
            copy@ == self@,
    {
        match self {
            Command::BulkTransfer { payload } => Command::BulkTransfer { payload: payload.clone() },
            Command::Other => Command::Other,
        }
    }
}

/// The model of an optional command.
pub open spec fn command_view(command: Option<Command>) -> Option<CommandView> {
    match command {
        Some(command) => Some(command@),
        None => None,
    }
}

/// The frame inside the bytes of a message: what lies between the length
/// byte and the position that the length byte gives. There is none where
/// the bytes are empty, the length is zero, or the bytes are fewer than the
/// length says.
pub open spec fn unframed(data: Seq<u8>) -> Option<Seq<u8>> {
    if data.len() > 0 && 0 < data[0] <= data.len() {
        Some(data.subrange(1, data[0] as int))
    } else {
        None
    }
}

/// The chunk carried by the bytes of a sent message, where they frame a
/// bulk transfer: everything in the frame after the identifier.
pub open spec fn bulk_payload(data: Seq<u8>) -> Option<Seq<u8>> {
    match unframed(data) {
        Some(frame) => if frame.len() > 0 && frame[0] == BULK_TRANSFER {
            Some(frame.skip(1))
        } else {
            None
        },
        None => None,
    }
}

/// The bytes frame a biquad write that breaks off inside its
/// coefficients. Such a frame is never handed to the protocol decoder.
pub open spec fn short_biquad_write(data: Seq<u8>) -> bool {
    match unframed(data) {
        Some(frame) => frame.len() > 0 && frame[0] == BIQUAD_WRITE && 5 <= frame.len()
            < BIQUAD_WRITE_FRAME_LEN,
        None => false,
    }
}

/// What the protocol decoder of the `minidsp` crate makes of the bytes of a
/// sent message (`decode_sent_commands`), reduced to the commands told
/// apart here.
pub uninterp spec fn sent_command(data: Seq<u8>) -> Option<CommandView>;

/// The command that a recorded message decodes to.
///
/// A received message carries no command. A sent message that frames a
/// bulk transfer decodes to it, with the frame's body as its payload. A
/// biquad write that breaks off early decodes to nothing. Any other sent
/// message is some other command where the protocol decoder accepts it, and
/// nothing where it does not.
pub open spec fn decoded(message: MessageView) -> Option<CommandView> {
    if message.direction != Direction::Sent {
        None
    } else {
        match bulk_payload(message.payload) {
            Some(payload) => Some(CommandView::BulkTransfer { payload }),
            None => if !short_biquad_write(message.payload) && sent_command(
                message.payload,
            ) is Some {
                Some(CommandView::Other)
            } else {
                None
            },
        }
    }
}

/// Decodes the bytes of a sent message with
/// `minidsp::utils::recorder::decode_sent_commands`.
///
/// Trusted: the result is a function of the bytes alone; bytes that frame a
/// bulk transfer give that command with the frame's body as payload, and no
/// other bytes give a bulk transfer. The future returned by the decoder
/// never waits, so one poll completes it. Frames on which the decoder would
/// index past the end are kept out by the precondition.
#[verifier::external_body]
fn decode_sent_commands(data: &Vec<u8>) -> (command: Option<Command>)
    requires
        !short_biquad_write(data@),
    ensures
        command_view(command) == sent_command(data@),
        bulk_payload(data@) matches Some(payload) ==> command_view(command) == Some(
            CommandView::BulkTransfer { payload },
        ),
        bulk_payload(data@) is None ==> !(command matches Some(Command::BulkTransfer { .. })),
{
    let message = recorder::Message::Sent(data.clone().into());
    match recorder::decode_sent_commands(message).now_or_never().flatten() {
        Some(Commands::BulkLoad { payload }) => Some(
            Command::BulkTransfer { payload: payload.0.to_vec() },
        ),
        Some(_) => Some(Command::Other),
        None => None,
    }
}

/// Tells whether the bytes frame a biquad write that breaks off inside its
/// coefficients.
pub fn is_short_biquad_write(data: &Vec<u8>) -> (short: bool)
    ensures
        short == short_biquad_write(data@),
{
    if data.len() < 2 {
        return false;
    }
    let len: usize = data[0] as usize;
    if len > data.len() || len < 2 {
        return false;
    }
    assert(unframed(data@) == Some(data@.subrange(1, len as int)));
    assert(data@.subrange(1, len as int)[0] == data@[1]);
    data[1] == BIQUAD_WRITE && 5 <= len - 1 && len - 1 < BIQUAD_WRITE_FRAME_LEN
}

/// Decodes one recorded message.
///
/// The result depends on the direction and the bytes of the message
/// alone: decoding the same message again gives the same command.
pub fn decode_command(message: &RecordedMessage) -> (command: Option<Command>)
    ensures
        command_view(command) == decoded(message@),
{
    match message {
        RecordedMessage::Received(_) => None,
        RecordedMessage::Sent(data) => {
            if is_short_biquad_write(data) {
                assert(bulk_payload(data@) is None);
                None
            } else {
                decode_sent_commands(data)
            }
        },
    }
}

/// Decoding the same message twice gives the same command: whatever two
/// calls return for messages of the same direction and bytes is equal, the
/// payload of a bulk transfer included.
pub proof fn lemma_decoding_repeats(
    first: MessageView,
    second: MessageView,
    one: Option<Command>,
    other: Option<Command>,
)
    requires
        first.direction == second.direction,
        first.payload == second.payload,
        command_view(one) == decoded(first),
        command_view(other) == decoded(second),
    ensures
        command_view(one) == command_view(other),
{
}

} // verus!
