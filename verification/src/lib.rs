//! Codec for the framed, checksummed binary protocol spoken between a control
//! server and networked transit-stop display signs.

pub mod checksum;
pub mod error;
pub mod msg;
pub mod session;
pub mod wire;

pub use crate::error::{DecodeError, IoCause, PayloadFault};
pub use crate::msg::app_running::AppRunningReason;
pub use crate::msg::Message;
