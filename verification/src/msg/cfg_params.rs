//! Configuration parameters: get (20), set (18), reset (22) and their
//! acknowledgements (21, 19, 23).

use vstd::prelude::*;

use crate::error::DecodeError;
use crate::msg::layout::MessageView;
use crate::msg::{decoded, Message};

verus! {

/// GetCfgParam: `param:u8`.
pub open spec fn parse_get(p: Seq<u8>) -> Result<MessageView, DecodeError> {
    if p.len() < 1 {
        Err(DecodeError::Framing)
    } else {
        Ok(MessageView::GetCfgParam { param: p[0] })
    }
}

/// AckGetCfgParam: `param:u8 | error:u8 | value:u8`.
pub open spec fn parse_get_ack(p: Seq<u8>) -> Result<MessageView, DecodeError> {
    if p.len() < 3 {
        Err(DecodeError::Framing)
    } else {
        Ok(MessageView::AckGetCfgParam { param: p[0], error: p[1], value: p[2] })
    }
}

/// SetCfgParam: `param:u8 | value:u8`.
pub open spec fn parse_set(p: Seq<u8>) -> Result<MessageView, DecodeError> {
    if p.len() < 2 {
        Err(DecodeError::Framing)
    } else {
        Ok(MessageView::SetCfgParam { param: p[0], value: p[1] })
    }
}

/// AckSetCfgParam: `param:u8 | error:u8 | value:u8`.
pub open spec fn parse_set_ack(p: Seq<u8>) -> Result<MessageView, DecodeError> {
    if p.len() < 3 {
        Err(DecodeError::Framing)
    } else {
        Ok(MessageView::AckSetCfgParam { param: p[0], error: p[1], value: p[2] })
    }
}

/// Reads a GetCfgParam from its payload.
pub fn new_get(payload: Vec<u8>) -> (r: Result<Message, DecodeError>)
    ensures
        decoded(r) == parse_get(payload@),
{
    if payload.len() < 1 {
        return Err(DecodeError::Framing);
    }
    Ok(Message::GetCfgParam { param: payload[0] })
}

/// Reads an AckGetCfgParam from its payload.
pub fn new_get_ack(payload: Vec<u8>) -> (r: Result<Message, DecodeError>)
    ensures
        decoded(r) == parse_get_ack(payload@),
{
    if payload.len() < 3 {
        return Err(DecodeError::Framing);
    }
    Ok(Message::AckGetCfgParam { param: payload[0], error: payload[1], value: payload[2] })
}

/// Reads a SetCfgParam from its payload.
pub fn new_set(payload: Vec<u8>) -> (r: Result<Message, DecodeError>)
    ensures
        decoded(r) == parse_set(payload@),
{
    if payload.len() < 2 {
        return Err(DecodeError::Framing);
    }
    Ok(Message::SetCfgParam { param: payload[0], value: payload[1] })
}

/// Reads an AckSetCfgParam from its payload.
pub fn new_set_ack(payload: Vec<u8>) -> (r: Result<Message, DecodeError>)
    ensures
        decoded(r) == parse_set_ack(payload@),
{
    if payload.len() < 3 {
        return Err(DecodeError::Framing);
    }
    Ok(Message::AckSetCfgParam { param: payload[0], error: payload[1], value: payload[2] })
}

/// ResetCfgParams has no payload.
pub fn new_reset() -> (m: Message)
    ensures
        m@ == MessageView::ResetCfgParams,
{
    Message::ResetCfgParams
}

/// AckResetCfgParams has no payload.
pub fn new_reset_ack() -> (m: Message)
    ensures
        m@ == MessageView::AckResetCfgParams,
{
    Message::AckResetCfgParams
}

} // verus!
