//! The decisions of a session's two pumps. A session bridges one duplex byte
//! connection to two message channels; the reading and writing themselves are
//! done by whoever owns the connection, and what to do with each outcome is
//! decided here.

use vstd::prelude::*;
use vstd::slice::slice_to_vec;
use vstd::utf8::encode_utf8;

use crate::error::{DecodeError, IoCause};
use crate::msg::content::{items_view, PayloadType};
use crate::msg::layout::{MessageView, FRAME_OVERHEAD, HEADER_LEN};
use crate::msg::Message;
use crate::wire::{be16, read_be16};

verus! {

/// How many bytes of a frame follow its three header bytes: payload and
/// checksum.
pub open spec fn bytes_after_header(header: Seq<u8>) -> Result<int, DecodeError> {
    if header.len() < HEADER_LEN {
        Err(DecodeError::Io(IoCause::UnexpectedEof))
    } else if be16(header[1], header[2]) < FRAME_OVERHEAD {
        Err(DecodeError::Framing)
    } else {
        Ok(be16(header[1], header[2]) - HEADER_LEN)
    }
}

/// Tells the reader how many more bytes to fetch once it holds a frame's
/// header, or why the frame cannot be read.
pub fn remaining_len(header: &[u8]) -> (r: Result<usize, DecodeError>)
    ensures
        match r {
            Ok(n) => bytes_after_header(header@) == Ok::<int, DecodeError>(n as int),
            Err(e) => bytes_after_header(header@) == Err::<int, DecodeError>(e),
        },
{
    if header.len() < HEADER_LEN {
        return Err(DecodeError::Io(IoCause::UnexpectedEof));
    }
    let len: usize = read_be16(header[1], header[2]) as usize;
    if len < FRAME_OVERHEAD {
        return Err(DecodeError::Framing);
    }
    Ok(len - HEADER_LEN)
}

/// What the reader does with the outcome of one decoding.
#[derive(Debug, PartialEq, Eq)]
pub enum ReaderStep {
    /// Hand the message to the inbound channel and read on.
    Deliver(Message),
    /// Report the error as a warning and read on.
    Skip(DecodeError),
    /// Report the error, stop reading and close the inbound channel.
    Stop(DecodeError),
}

/// Decides the reader's next step: messages are delivered, errors that leave
/// the stream aligned are skipped, and all others end the reader.
pub fn reader_step(outcome: Result<Message, DecodeError>) -> (step: ReaderStep)
    ensures
        step == (match outcome {
            Ok(m) => ReaderStep::Deliver(m),
            Err(e) => if e.fatal() {
                ReaderStep::Stop(e)
            } else {
                ReaderStep::Skip(e)
            },
        }),
{
    match outcome {
        Ok(m) => ReaderStep::Deliver(m),
        Err(e) => if e.is_fatal() {
            ReaderStep::Stop(e)
        } else {
            ReaderStep::Skip(e)
        },
    }
}

/// What the writer does with one message taken from the outbound channel.
#[derive(Debug, PartialEq, Eq)]
pub enum WriterStep {
    /// Write these bytes, all of them, before the next message is taken.
    Write(Vec<u8>),
    /// The message cannot be put on the wire. Report it and go on.
    Reject(Message),
}

/// Decides the writer's next step: a well-formed message becomes its frame,
/// any other is handed back.
pub fn writer_step(msg: Message) -> (step: WriterStep)
    ensures
        match step {
            WriterStep::Write(bytes) => msg@.wf() && bytes@ == msg@.frame(),
            WriterStep::Reject(back) => !msg@.wf() && back == msg,
        },
{
    if msg.is_well_formed() {
        WriterStep::Write(msg.encode())
    } else {
        WriterStep::Reject(msg)
    }
}

/// Content id under which operator text is shown.
pub const NOTICE_CONTENT_ID: u16 = 0x11;

/// Channel on which operator text is shown.
pub const NOTICE_CHANNEL: u8 = 2;

/// The content message that puts a line of operator text on a sign: one text
/// payload, shown until it is replaced, with impressions not counted.
pub fn operator_notice(text: &str) -> (msg: Message)
    ensures
        msg@ == (MessageView::ContentMsg {
            content_id: NOTICE_CONTENT_ID,
            content_channel: NOTICE_CHANNEL,
            count_impressions: false,
            display_indefinitely: true,
            booking_id: 0,
            priority: 0,
            payloads: seq![(PayloadType::Msg, encode_utf8(text@))],
        }),
{
    let bytes = slice_to_vec(text.as_bytes());
    let mut payloads: Vec<(PayloadType, Vec<u8>)> = Vec::new();
    payloads.push((PayloadType::Msg, bytes));
    assert(items_view(payloads@) =~= seq![(PayloadType::Msg, encode_utf8(text@))]);
    Message::ContentMsg {
        content_id: NOTICE_CONTENT_ID,
        content_channel: NOTICE_CHANNEL,
        count_impressions: false,
        display_indefinitely: true,
        booking_id: 0,
        priority: 0,
        payloads,
    }
}

/// The header of a frame tells exactly how many bytes of the frame follow it.
pub proof fn lemma_header_measures_frame(m: MessageView)
    requires
        m.wf(),
    ensures
        bytes_after_header(m.frame().take(HEADER_LEN as int)) == Ok::<int, DecodeError>(
            m.frame().len() - HEADER_LEN,
        ),
{
    crate::msg::laws::lemma_length_field(m);
}

} // verus!
