//! Ping: type 10, payload `seq_num:u8`.

use vstd::prelude::*;

use crate::error::DecodeError;
use crate::msg::layout::MessageView;
use crate::msg::{decoded, Message};

verus! {

/// The message that a payload stands for.
pub open spec fn parse(p: Seq<u8>) -> Result<MessageView, DecodeError> {
    if p.len() < 1 {
        Err(DecodeError::Framing)
    } else {
        Ok(MessageView::Ping { seq_num: p[0] })
    }
}

/// Reads a Ping from its payload.
pub fn new(payload: Vec<u8>) -> (r: Result<Message, DecodeError>)
    ensures
        decoded(r) == parse(payload@),
{
    if payload.len() < 1 {
        return Err(DecodeError::Framing);
    }
    Ok(Message::Ping { seq_num: payload[0] })
}

} // verus!
