//! Reboot: type 6, no payload.

use vstd::prelude::*;

use crate::msg::layout::MessageView;
use crate::msg::Message;

verus! {

/// Reboot has no payload.
pub fn new() -> (m: Message)
    ensures
        m@ == MessageView::Reboot,
{
    Message::Reboot
}

} // verus!
