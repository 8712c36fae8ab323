//! Remote memory-mapped register access over a USB bulk link.
//!
//! The library holds the protocol engine: the wire format of [`message::Message`]
//! ([`codec`]), the device-side command dispatcher ([`dispatcher`]) and the
//! host-side transaction logic ([`host`]). The USB stacks themselves stay outside.
use vstd::prelude::*;

pub mod codec;
pub mod dispatcher;
pub mod host;
pub mod memory_interface;
pub mod message;
pub mod usb;

pub use memory_interface::{InfallibleMemoryInterface, MemoryInterface};

verus! {

} // verus!
