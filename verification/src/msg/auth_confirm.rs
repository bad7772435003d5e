//! AuthConfirm: type 52, payload `conf_code:u8 | address[4] | port:u16`.

use vstd::prelude::*;

use crate::error::DecodeError;
use crate::msg::layout::MessageView;
use crate::msg::{decoded, Message};
use crate::wire::{be16, read_be16};

verus! {

/// The message that a payload stands for.
pub open spec fn parse(p: Seq<u8>) -> Result<MessageView, DecodeError> {
    if p.len() < 7 {
        Err(DecodeError::Framing)
    } else {
        Ok(
            MessageView::AuthConfirm {
                conf_code: p[0],
                address: p.subrange(1, 5),
                port: be16(p[5], p[6]),
            },
        )
    }
}

/// Reads an AuthConfirm from its payload.
pub fn new(payload: Vec<u8>) -> (r: Result<Message, DecodeError>)
    ensures
        decoded(r) == parse(payload@),
{
    if payload.len() < 7 {
        return Err(DecodeError::Framing);
    }
    let conf_code: u8 = payload[0];
    let address: [u8; 4] = [payload[1], payload[2], payload[3], payload[4]];
    let port: u16 = read_be16(payload[5], payload[6]);
    assert(address@ =~= payload@.subrange(1, 5));
    Ok(Message::AuthConfirm { conf_code, address, port })
}

} // verus!
