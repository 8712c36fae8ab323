//! The command and response vocabulary of the protocol.
use vstd::prelude::*;

verus! {

/// A value carried by a read reply or a write request.
#[derive(Clone, Copy, Debug, PartialEq, Eq, Structural)]
pub enum Data {
    U8(u8),
    U16(u16),
    U32(u32),
}

/// The width of a read.
#[derive(Clone, Copy, Debug, PartialEq, Eq, Structural)]
pub enum DataSize {
    U8,
    U16,
    U32,
}

/// One frame of the protocol.
#[derive(Clone, Copy, Debug, PartialEq, Eq, Structural)]
pub enum Message {
    /// Ping ask
    Ping,
    /// Ping answer
    Pong,
    /// Acknowledges a completed write
    Ack,
    /// Data response
    Data(Data),
    /// Write data to address
    Put(u32, Data),
    /// Get from address to data size
    Get(u32, DataSize),
    /// No operation (used for coverage testing and performance metrics)
    Nop,
}

/// The width of a value.
pub open spec fn width(d: Data) -> DataSize {
    match d {
        Data::U8(_) => DataSize::U8,
        Data::U16(_) => DataSize::U16,
        Data::U32(_) => DataSize::U32,
    }
}

impl Data {
    /// The width of this value.
    pub fn size(&self) -> (r: DataSize)
        ensures
            r == width(*self),
    {
        match self {
            Data::U8(_) => DataSize::U8,
            Data::U16(_) => DataSize::U16,
            Data::U32(_) => DataSize::U32,
        }
    }
}

} // verus!
