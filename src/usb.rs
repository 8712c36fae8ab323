//! Identification of the device and the shape of its USB interface.
use vstd::prelude::*;

verus! {

pub const VID: u16 = 0x16c0;

pub const PID: u16 = 0x27dd;

pub const MANUFACTURER: &'static str = "USB-IO Manafacturer";

pub const PRODUCT: &'static str = "USB-IO USB class";

pub const SERIAL_NUMBER: &'static str = "USB-IO Serial Number";

/// Largest frame, in bytes, that either direction carries in one transaction.
pub const MESSAGE_MAX_SIZE: u16 = 16;

pub const USB_IO_OUT_ENDPOINT: u8 = 0x1;

pub const USB_IO_IN_ENDPOINT: u8 = 0x81;

/// Number of bulk reads a receive makes before it gives up on transient I/O errors.
pub const MAX_RECV_RETRIES: usize = 3;

/// Default timeout of one bulk transfer, in milliseconds.
pub const TIMEOUT_MILLIS: u64 = 1000;

} // verus!
