//! AppRunning: type 8, payload `seq_num:u8 | reason:u8`.

use vstd::prelude::*;

use crate::error::DecodeError;
use crate::msg::layout::MessageView;
use crate::msg::{decoded, Message};

verus! {

/// Why a sign's application (re)started.
#[derive(Debug, Clone, Copy, PartialEq, Eq)]
pub enum AppRunningReason {
    Undiscernable,
    Powerup,
    Watchdog,
    ServerOrder,
    NewFirmware,
    NoServerContact,
    Redirected,
    DroppedConnection,
    BadAuthentication,
    FatalError,
    Unknown,
}

/// The byte that stands for `Unknown` when a message is written. Every byte
/// above the last assigned code is read as `Unknown`.
pub const UNKNOWN_REASON_CODE: u8 = 255;

impl AppRunningReason {
    /// The reason that a byte stands for.
    pub open spec fn of_code(x: u8) -> AppRunningReason {
        match x {
            0 => AppRunningReason::Undiscernable,
            1 => AppRunningReason::Powerup,
            2 => AppRunningReason::Watchdog,
            3 => AppRunningReason::ServerOrder,
            4 => AppRunningReason::NewFirmware,
            5 => AppRunningReason::NoServerContact,
            6 => AppRunningReason::Redirected,
            7 => AppRunningReason::DroppedConnection,
            8 => AppRunningReason::BadAuthentication,
            9 => AppRunningReason::FatalError,
            _ => AppRunningReason::Unknown,
        }
    }

    /// The byte that stands for the reason.
    pub open spec fn wire_code(self) -> u8 {
        match self {
            AppRunningReason::Undiscernable => 0,
            AppRunningReason::Powerup => 1,
            AppRunningReason::Watchdog => 2,
            AppRunningReason::ServerOrder => 3,
            AppRunningReason::NewFirmware => 4,
            AppRunningReason::NoServerContact => 5,
            AppRunningReason::Redirected => 6,
            AppRunningReason::DroppedConnection => 7,
            AppRunningReason::BadAuthentication => 8,
            AppRunningReason::FatalError => 9,
            AppRunningReason::Unknown => UNKNOWN_REASON_CODE,
        }
    }

    /// The byte that stands for the reason.
    pub fn code(&self) -> (c: u8)
        ensures
            c == self.wire_code(),
    {
        match self {
            AppRunningReason::Undiscernable => 0,
            AppRunningReason::Powerup => 1,
            AppRunningReason::Watchdog => 2,
            AppRunningReason::ServerOrder => 3,
            AppRunningReason::NewFirmware => 4,
            AppRunningReason::NoServerContact => 5,
            AppRunningReason::Redirected => 6,
            AppRunningReason::DroppedConnection => 7,
            AppRunningReason::BadAuthentication => 8,
            AppRunningReason::FatalError => 9,
            AppRunningReason::Unknown => UNKNOWN_REASON_CODE,
        }
    }

    /// A reason written out and read back is the same reason.
    pub proof fn lemma_code_roundtrip(self)
        ensures
            AppRunningReason::of_code(self.wire_code()) == self,
    {
    }
}

impl From<u8> for AppRunningReason {
    fn from(x: u8) -> (r: Self) {
        match x {
            0 => Self::Undiscernable,
            1 => Self::Powerup,
            2 => Self::Watchdog,
            3 => Self::ServerOrder,
            4 => Self::NewFirmware,
            5 => Self::NoServerContact,
            6 => Self::Redirected,
            7 => Self::DroppedConnection,
            8 => Self::BadAuthentication,
            9 => Self::FatalError,
            _ => Self::Unknown,
        }
    }
}

impl vstd::std_specs::convert::FromSpecImpl<u8> for AppRunningReason {
    open spec fn obeys_from_spec() -> bool {
        true
    }

    open spec fn from_spec(x: u8) -> Self {
        AppRunningReason::of_code(x)
    }
}

/// The message that a payload stands for.
pub open spec fn parse(p: Seq<u8>) -> Result<MessageView, DecodeError> {
    if p.len() < 2 {
        Err(DecodeError::Framing)
    } else {
        Ok(MessageView::AppRunning { seq_num: p[0], reason: AppRunningReason::of_code(p[1]) })
    }
}

/// Reads an AppRunning from its payload.
pub fn new(payload: Vec<u8>) -> (r: Result<Message, DecodeError>)
    ensures
        decoded(r) == parse(payload@),
{
    if payload.len() < 2 {
        return Err(DecodeError::Framing);
    }
    Ok(Message::AppRunning { seq_num: payload[0], reason: AppRunningReason::from(payload[1]) })
}

} // verus!
