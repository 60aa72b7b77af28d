//! Firmware structures of event notification.

use vstd::prelude::*;

verus! {

/// The list by which the firmware finds whom to notify of an event. The
/// host only hands its address on.
#[derive(Debug, Default)]
pub struct NotifierList {}

} // verus!
