//! The remote device seen as addressable memory.
//!
//! A caller that only pokes registers writes against these traits and never
//! sees USB. Each operation is one request/reply transaction.
use vstd::prelude::*;

verus! {

/// Fallible access to 8, 16 and 32-bit values at 32-bit addresses.
pub trait MemoryInterface {
    type Error;

    fn try_read8(&self, address: u32) -> Result<u8, Self::Error>;

    fn try_read16(&self, address: u32) -> Result<u16, Self::Error>;

    fn try_read32(&self, address: u32) -> Result<u32, Self::Error>;

    fn try_write8(&self, address: u32, value: u8) -> Result<(), Self::Error>;

    fn try_write16(&self, address: u32, value: u16) -> Result<(), Self::Error>;

    fn try_write32(&self, address: u32, value: u32) -> Result<(), Self::Error>;
}

/// The same operations for callers that treat any transport error as fatal:
/// an implementation aborts where the fallible one would return an error.
pub trait InfallibleMemoryInterface {
    fn read8(&self, address: u32) -> u8;

    fn read16(&self, address: u32) -> u16;

    fn read32(&self, address: u32) -> u32;

    fn write8(&self, address: u32, value: u8);

    fn write16(&self, address: u32, value: u16);

    fn write32(&self, address: u32, value: u32);
}

} // verus!
