//! ContentDelete: type 36, payload `content_id:u16`.

use vstd::prelude::*;

use crate::error::DecodeError;
use crate::msg::layout::MessageView;
use crate::msg::{decoded, Message};
use crate::wire::{be16, read_be16};

verus! {

/// The message that a payload stands for.
pub open spec fn parse(p: Seq<u8>) -> Result<MessageView, DecodeError> {
    if p.len() < 2 {
        Err(DecodeError::Framing)
    } else {
        Ok(MessageView::ContentDelete { content_id: be16(p[0], p[1]) })
    }
}

/// Reads a ContentDelete from its payload.
pub fn new(payload: Vec<u8>) -> (r: Result<Message, DecodeError>)
    ensures
        decoded(r) == parse(payload@),
{
    if payload.len() < 2 {
        return Err(DecodeError::Framing);
    }
    Ok(Message::ContentDelete { content_id: read_be16(payload[0], payload[1]) })
}

} // verus!
