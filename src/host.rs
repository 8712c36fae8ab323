//! The host side of a transaction: what to make of each transfer result.
//!
//! The bulk transfers themselves are made by the caller; these functions take
//! their outcomes and decide. A receive reads up to [`MAX_RECV_RETRIES`] times
//! while the transport reports transient I/O errors.
use vstd::prelude::*;

use crate::codec::{encoding, lemma_round_trip, parse_message};
use crate::dispatcher::{command_for, lemma_put_then_get, on_frame, serve_in, LinkState};
use crate::message::{width, Data, DataSize, Message};
use crate::usb::{MAX_RECV_RETRIES, PID, VID};

verus! {

/// Why a bulk transfer, or the transaction around it, failed.
#[derive(Clone, Copy, Debug, PartialEq, Eq, Structural)]
pub enum TransferError {
    /// Input/output error; transient, so a receive retries it.
    Io,
    InvalidParam,
    Access,
    NoDevice,
    NotFound,
    Busy,
    Timeout,
    Overflow,
    Pipe,
    Interrupted,
    NoMem,
    NotSupported,
    BadDescriptor,
    /// A generic transport error: a short write, a reply that does not
    /// decode or does not fit the request, or a receive out of retries.
    Other,
}

/// Whether a device with these identifiers is one of ours.
pub fn is_usb_io(vendor_id: u16, product_id: u16) -> (r: bool)
    ensures
        r == (vendor_id == VID && product_id == PID),
{
    vendor_id == VID && product_id == PID
}

/// The outcome of a send, given the length of the frame and what the bulk
/// write reported: it succeeds only where the whole frame went out.
pub fn send_outcome(frame_len: usize, written: Result<usize, TransferError>) -> (r: Result<
    usize,
    TransferError,
>)
    ensures
        r == match written {
            Ok(n) => if n == frame_len {
                Ok(n)
            } else {
                Err(TransferError::Other)
            },
            Err(e) => Err(e),
        },
{
    match written {
        Ok(n) => if n == frame_len {
            Ok(n)
        } else {
            Err(TransferError::Other)
        },
        Err(e) => Err(e),
    }
}

/// The result of a receive whose read gave `frame`.
pub open spec fn received(frame: Seq<u8>) -> Result<Message, TransferError> {
    match parse_message(frame) {
        Some(m) => Ok(m),
        None => Err(TransferError::Other),
    }
}

/// One read of a receive with `left` attempts left (counting this one): the
/// attempts left after it, and the result where the receive is over.
pub open spec fn recv_step(left: nat, read: Result<Seq<u8>, TransferError>) -> (
    nat,
    Option<Result<Message, TransferError>>,
) {
    match read {
        Ok(frame) => (left, Some(received(frame))),
        Err(TransferError::Io) => if left <= 1 {
            (0, Some(Err(TransferError::Other)))
        } else {
            ((left - 1) as nat, None)
        },
        Err(e) => (left, Some(Err(e))),
    }
}

/// The result of a receive with `left` attempts that sees `reads` in turn;
/// `None` while it still wants to read.
pub open spec fn recv_run(left: nat, reads: Seq<Result<Seq<u8>, TransferError>>) -> Option<
    Result<Message, TransferError>,
>
    decreases reads.len(),
{
    if reads.len() == 0 {
        None
    } else {
        let (next, out) = recv_step(left, reads[0]);
        match out {
            Some(r) => Some(r),
            None => recv_run(next, reads.drop_first()),
        }
    }
}

/// `k` transient I/O errors, then a read that gives `frame`.
pub open spec fn io_errors_then(k: nat, frame: Seq<u8>) -> Seq<Result<Seq<u8>, TransferError>> {
    Seq::new(k, |i: int| Err::<Seq<u8>, TransferError>(TransferError::Io)).push(Ok(frame))
}

/// The receive side of one transaction: how many reads it may still make.
pub struct Receiver {
    left: usize,
}

impl Receiver {
    pub closed spec fn view(&self) -> nat {
        self.left as nat
    }

    /// A receive that has made no read yet.
    pub fn new() -> (r: Receiver)
        ensures
            r@ == MAX_RECV_RETRIES,
    {
        Receiver { left: MAX_RECV_RETRIES }
    }

    /// How many reads the receive may still make.
    pub fn attempts_left(&self) -> (r: usize)
        ensures
            r == self@,
    {
        self.left
    }

    /// A read gave `frame`: the receive is over, with the message it holds or
    /// the generic error where it holds none.
    pub fn on_frame(&mut self, frame: &[u8]) -> (r: Result<Message, TransferError>)
        ensures
            (final(self)@, Some(r)) == recv_step(old(self)@, Ok(frame@)),
    {
        match crate::codec::decode(frame) {
            Ok(m) => Ok(m),
            Err(_) => Err(TransferError::Other),
        }
    }

    /// A read failed with `e`: `None` where the receive reads again, else its
    /// result. Only a transient I/O error is retried, and only while attempts
    /// are left.
    pub fn on_error(&mut self, e: TransferError) -> (r: Option<Result<Message, TransferError>>)
        requires
            old(self)@ >= 1,
        ensures
            (final(self)@, r) == recv_step(old(self)@, Err(e)),
            r is None ==> final(self)@ >= 1,
    {
        match e {
            TransferError::Io => {
                if self.left <= 1 {
                    self.left = 0;
                    Some(Err(TransferError::Other))
                } else {
                    self.left = self.left - 1;
                    None
                }
            },
            _ => Some(Err(e)),
        }
    }
}

/// A receive with `left` attempts whose first `k` reads fail with a transient
/// I/O error and whose next read gives `frame` ends with that frame's result
/// where `k < left`, and with the generic error otherwise.
pub proof fn lemma_retry_bound(left: nat, k: nat, frame: Seq<u8>)
    requires
        left >= 1,
    ensures
        recv_run(left, io_errors_then(k, frame)) == if k < left {
            Some(received(frame))
        } else {
            Some(Err::<Message, TransferError>(TransferError::Other))
        },
    decreases k,
{
    let reads = io_errors_then(k, frame);
    if k == 0 {
        assert(reads[0] == Ok::<Seq<u8>, TransferError>(frame));
    } else {
        assert(reads[0] == Err::<Seq<u8>, TransferError>(TransferError::Io));
        if left > 1 {
            lemma_retry_bound((left - 1) as nat, (k - 1) as nat, frame);
            assert(reads.drop_first() =~= io_errors_then((k - 1) as nat, frame));
        }
    }
}

/// A receive gives up after a timeout, or any error but a transient I/O one,
/// at once: it does not read again.
pub proof fn lemma_no_retry_on_timeout(left: nat, e: TransferError)
    requires
        e != TransferError::Io,
    ensures
        recv_step(left, Err(e)) == (left, Some(Err::<Message, TransferError>(e))),
{
}

/// One whole transaction: an idle device takes the frame of request `m`,
/// stalls, and the host receives from the reply frame exactly the reply that
/// serving `m` in memory `mem` gives.
pub proof fn lemma_transaction(mem: Map<u32, u8>, m: Message)
    ensures
        on_frame(LinkState::Idle, encoding(m)) == (LinkState::Stalled, Some(command_for(m))),
        received(encoding(serve_in(mem, m).1)) == Ok::<Message, TransferError>(serve_in(mem, m).1),
{
    lemma_round_trip(m, Seq::empty());
    assert(encoding(m) + Seq::<u8>::empty() =~= encoding(m));
    let reply = serve_in(mem, m).1;
    lemma_round_trip(reply, Seq::empty());
    assert(encoding(reply) + Seq::<u8>::empty() =~= encoding(reply));
}

/// Over the link, `Put(a, v)` is acknowledged and a following `Get` of the
/// same address and width receives `Data(v)`; a `Ping` receives `Pong`.
pub proof fn lemma_remote_width_fidelity(mem: Map<u32, u8>, a: u32, v: Data)
    ensures
        received(encoding(serve_in(mem, Message::Put(a, v)).1)) == Ok::<Message, TransferError>(
            Message::Ack,
        ),
        received(
            encoding(serve_in(serve_in(mem, Message::Put(a, v)).0, Message::Get(a, width(v))).1),
        ) == Ok::<Message, TransferError>(Message::Data(v)),
        received(encoding(serve_in(mem, Message::Ping).1)) == Ok::<Message, TransferError>(
            Message::Pong,
        ),
{
    lemma_put_then_get(mem, a, v);
    lemma_transaction(mem, Message::Put(a, v));
    lemma_transaction(serve_in(mem, Message::Put(a, v)).0, Message::Get(a, width(v)));
    lemma_transaction(mem, Message::Ping);
}

/// Whether the reply to a `Ping` shows the device ready to use.
pub fn is_pong(reply: &Result<Message, TransferError>) -> (r: bool)
    ensures
        r == (*reply == Ok::<Message, TransferError>(Message::Pong)),
{
    match reply {
        Ok(Message::Pong) => true,
        _ => false,
    }
}

/// The value that the reply to a `Get` of width `size` carries; a reply of
/// another shape is the generic error.
pub open spec fn read_value(reply: Result<Message, TransferError>, size: DataSize) -> Result<
    Data,
    TransferError,
> {
    match reply {
        Ok(Message::Data(d)) => if width(d) == size {
            Ok(d)
        } else {
            Err(TransferError::Other)
        },
        Ok(_) => Err(TransferError::Other),
        Err(e) => Err(e),
    }
}

/// The byte that the reply to a `Get` of one byte carries.
pub fn read8_value(reply: Result<Message, TransferError>) -> (r: Result<u8, TransferError>)
    ensures
        r == match read_value(reply, DataSize::U8) {
            Ok(Data::U8(v)) => Ok(v),
            Ok(_) => Err(TransferError::Other),
            Err(e) => Err(e),
        },
{
    match reply {
        Ok(Message::Data(Data::U8(v))) => Ok(v),
        Ok(_) => Err(TransferError::Other),
        Err(e) => Err(e),
    }
}

/// The half-word that the reply to a `Get` of two bytes carries.
pub fn read16_value(reply: Result<Message, TransferError>) -> (r: Result<u16, TransferError>)
    ensures
        r == match read_value(reply, DataSize::U16) {
            Ok(Data::U16(v)) => Ok(v),
            Ok(_) => Err(TransferError::Other),
            Err(e) => Err(e),
        },
{
    match reply {
        Ok(Message::Data(Data::U16(v))) => Ok(v),
        Ok(_) => Err(TransferError::Other),
        Err(e) => Err(e),
    }
}

/// The word that the reply to a `Get` of four bytes carries.
pub fn read32_value(reply: Result<Message, TransferError>) -> (r: Result<u32, TransferError>)
    ensures
        r == match read_value(reply, DataSize::U32) {
            Ok(Data::U32(v)) => Ok(v),
            Ok(_) => Err(TransferError::Other),
            Err(e) => Err(e),
        },
{
    match reply {
        Ok(Message::Data(Data::U32(v))) => Ok(v),
        Ok(_) => Err(TransferError::Other),
        Err(e) => Err(e),
    }
}

/// The outcome of a write, given the reply to its `Put`: only `Ack` completes
/// it; any other reply does not fit the request and is the generic error.
pub open spec fn write_result(reply: Result<Message, TransferError>) -> Result<(), TransferError> {
    match reply {
        Ok(Message::Ack) => Ok(()),
        Ok(_) => Err(TransferError::Other),
        Err(e) => Err(e),
    }
}

/// The outcome of a write, given the reply to its `Put`.
pub fn write_outcome(reply: Result<Message, TransferError>) -> (r: Result<(), TransferError>)
    ensures
        r == write_result(reply),
{
    match reply {
        Ok(Message::Ack) => Ok(()),
        Ok(_) => Err(TransferError::Other),
        Err(e) => Err(e),
    }
}

/// Whether draining stale replies after opening goes on: `done` receives have
/// been made and the last gave `last`. It stops at the first failure, and after
/// [`MAX_RECV_RETRIES`] receives.
pub fn drain_continues(done: usize, last: &Result<Message, TransferError>) -> (r: bool)
    ensures
        r == (last is Ok && done < MAX_RECV_RETRIES),
{
    match last {
        Ok(_) => done < MAX_RECV_RETRIES,
        Err(_) => false,
    }
}

/// Through the memory interface: writing `v` at `a` succeeds, and reading back
/// at `a` with the width of `v` then gives `v`.
pub proof fn lemma_write_then_read(mem: Map<u32, u8>, a: u32, v: Data)
    ensures
        write_result(received(encoding(serve_in(mem, Message::Put(a, v)).1))) == Ok::<
            (),
            TransferError,
        >(()),
        read_value(
            received(
                encoding(serve_in(serve_in(mem, Message::Put(a, v)).0, Message::Get(a, width(v))).1),
            ),
            width(v),
        ) == Ok::<Data, TransferError>(v),
{
    lemma_remote_width_fidelity(mem, a, v);
}

} // verus!
