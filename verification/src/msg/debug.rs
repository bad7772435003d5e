//! DebugMsg: type 28. The whole payload is the text.

use vstd::prelude::*;
use vstd::utf8::encode_utf8;

use crate::error::{DecodeError, PayloadFault};
use crate::msg::layout::MessageView;
use crate::msg::{decoded, Message};
use crate::wire::{lemma_text_of_encoded, text_from_bytes, text_of};

verus! {

/// The payload of a debug text.
pub open spec fn payload(msg: Seq<char>) -> Seq<u8> {
    encode_utf8(msg)
}

/// The message that a payload stands for.
pub open spec fn parse(p: Seq<u8>) -> Result<MessageView, DecodeError> {
    match text_of(p) {
        Some(msg) => Ok(MessageView::DebugMsg { msg }),
        None => Err(
            DecodeError::MalformedPayload { msg_type: 28, detail: PayloadFault::InvalidText },
        ),
    }
}

/// Reads a DebugMsg from its payload.
pub fn new(payload: Vec<u8>) -> (r: Result<Message, DecodeError>)
    ensures
        decoded(r) == parse(payload@),
{
    match text_from_bytes(payload) {
        Some(msg) => Ok(Message::DebugMsg { msg }),
        None => Err(
            DecodeError::MalformedPayload { msg_type: 28, detail: PayloadFault::InvalidText },
        ),
    }
}

/// Reading the payload of a debug text gives the text back.
pub proof fn lemma_roundtrip(msg: Seq<char>)
    ensures
        parse(payload(msg)) == Ok::<MessageView, DecodeError>(MessageView::DebugMsg { msg }),
{
    lemma_text_of_encoded(msg);
}

} // verus!
