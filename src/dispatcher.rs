//! The device side: decode one request per transaction, carry it out, and
//! refuse further requests until the reply has gone out.
//!
//! The dispatcher decides; whoever owns the memory carries out the access it
//! asks for. [`Ram`] is such an owner in plain memory, for simulation and tests;
//! on hardware the firmware does the volatile access itself.
use vstd::prelude::*;

use std::collections::HashMap;

use crate::codec::{decode, encode, encoding, parse_message};
use crate::message::{width, Data, DataSize, Message};

verus! {

broadcast use vstd::std_specs::hash::group_hash_axioms;

/// Flow-control state of the OUT endpoint.
#[derive(Clone, Copy, Debug, PartialEq, Eq, Structural)]
pub enum LinkState {
    /// Ready to accept a request frame.
    Idle,
    /// A request was taken; no other is accepted until its reply has been sent.
    Stalled,
}

/// What the device does about one decoded request.
#[derive(Clone, Copy, Debug, PartialEq, Eq, Structural)]
pub enum Command {
    /// Send this reply at once.
    Reply(Message),
    /// Write the value at the address, then acknowledge.
    Write(u32, Data),
    /// Read a value of this width at the address and send it back.
    Read(u32, DataSize),
}

/// The command that answers request `m`.
pub open spec fn command_for(m: Message) -> Command {
    match m {
        Message::Ping => Command::Reply(Message::Pong),
        Message::Put(a, d) => Command::Write(a, d),
        Message::Get(a, s) => Command::Read(a, s),
        _ => Command::Reply(Message::Nop),
    }
}

/// The next state and the command, if any, when `frame` arrives in state `s`.
pub open spec fn on_frame(s: LinkState, frame: Seq<u8>) -> (LinkState, Option<Command>) {
    match s {
        LinkState::Stalled => (LinkState::Stalled, None),
        LinkState::Idle => match parse_message(frame) {
            Some(m) => (LinkState::Stalled, Some(command_for(m))),
            None => (LinkState::Idle, None),
        },
    }
}

/// The reply once `cmd` has been carried out; `loaded` is what a read gave.
/// A read that gave nothing, or a value of another width, has no reply.
pub open spec fn reply_of(cmd: Command, loaded: Option<Data>) -> Option<Message> {
    match cmd {
        Command::Reply(m) => Some(m),
        Command::Write(_, _) => Some(Message::Ack),
        Command::Read(_, s) => match loaded {
            Some(d) => if width(d) == s {
                Some(Message::Data(d))
            } else {
                None
            },
            None => None,
        },
    }
}

/// The command that answers request `m`.
pub fn command(m: Message) -> (r: Command)
    ensures
        r == command_for(m),
{
    match m {
        Message::Ping => Command::Reply(Message::Pong),
        Message::Put(a, d) => Command::Write(a, d),
        Message::Get(a, s) => Command::Read(a, s),
        _ => Command::Reply(Message::Nop),
    }
}

/// The reply once `cmd` has been carried out; `loaded` is what a read gave.
pub fn reply_for(cmd: Command, loaded: Option<Data>) -> (r: Option<Message>)
    ensures
        r == reply_of(cmd, loaded),
{
    match cmd {
        Command::Reply(m) => Some(m),
        Command::Write(_, _) => Some(Message::Ack),
        Command::Read(_, s) => match loaded {
            Some(d) => {
                if d.size() == s {
                    Some(Message::Data(d))
                } else {
                    None
                }
            },
            None => None,
        },
    }
}

/// The device-side command dispatcher: one outstanding transaction at a time.
pub struct Dispatcher {
    state: LinkState,
}

impl Dispatcher {
    pub closed spec fn view(&self) -> LinkState {
        self.state
    }

    /// A dispatcher ready for its first request.
    pub fn new() -> (r: Dispatcher)
        ensures
            r@ == LinkState::Idle,
    {
        Dispatcher { state: LinkState::Idle }
    }

    pub fn state(&self) -> (r: LinkState)
        ensures
            r == self@,
    {
        self.state
    }

    /// A frame arrived at the OUT endpoint. When Idle, a frame that decodes is
    /// taken: the dispatcher stalls and returns the command to carry out. An
    /// empty or malformed frame is dropped without a reply, and while Stalled
    /// every frame is refused.
    pub fn endpoint_out(&mut self, frame: &[u8]) -> (r: Option<Command>)
        ensures
            (final(self)@, r) == on_frame(old(self)@, frame@),
    {
        match self.state {
            LinkState::Stalled => None,
            LinkState::Idle => match decode(frame) {
                Ok(m) => {
                    self.state = LinkState::Stalled;
                    Some(command(m))
                },
                Err(_) => None,
            },
        }
    }

    /// The reply has been sent on the IN endpoint: accept the next request.
    pub fn endpoint_in_complete(&mut self)
        ensures
            final(self)@ == LinkState::Idle,
    {
        self.state = LinkState::Idle;
    }
}

/// The byte at `a`; a cell never written reads as zero.
pub open spec fn byte_at(mem: Map<u32, u8>, a: u32) -> u8 {
    if mem.contains_key(a) {
        mem[a]
    } else {
        0
    }
}

/// The address `i` bytes past `a`, wrapping at the end of the address space.
pub open spec fn offset(a: u32, i: u32) -> u32 {
    ((a as int + i as int) % 0x1_0000_0000) as u32
}

/// Memory after `d` is written at `a`, least significant byte first.
pub open spec fn store(mem: Map<u32, u8>, a: u32, d: Data) -> Map<u32, u8> {
    match d {
        Data::U8(b) => mem.insert(a, b),
        Data::U16(v) => mem.insert(a, (v & 0xff) as u8).insert(offset(a, 1), (v >> 8) as u8),
        Data::U32(v) => mem.insert(a, (v & 0xff) as u8).insert(offset(a, 1), ((v >> 8) & 0xff) as u8).insert(
            offset(a, 2),
            ((v >> 16) & 0xff) as u8,
        ).insert(offset(a, 3), (v >> 24) as u8),
    }
}

/// The value of width `s` at `a`, least significant byte first.
pub open spec fn load(mem: Map<u32, u8>, a: u32, s: DataSize) -> Data {
    match s {
        DataSize::U8 => Data::U8(byte_at(mem, a)),
        DataSize::U16 => Data::U16(
            (byte_at(mem, a) as u16) | ((byte_at(mem, offset(a, 1)) as u16) << 8),
        ),
        DataSize::U32 => Data::U32(
            (byte_at(mem, a) as u32) | ((byte_at(mem, offset(a, 1)) as u32) << 8) | ((byte_at(
                mem,
                offset(a, 2),
            ) as u32) << 16) | ((byte_at(mem, offset(a, 3)) as u32) << 24),
        ),
    }
}

/// Memory after `cmd` is carried out in `mem`, and the reply.
pub open spec fn execute_in(mem: Map<u32, u8>, cmd: Command) -> (Map<u32, u8>, Message) {
    match cmd {
        Command::Reply(m) => (mem, m),
        Command::Write(a, d) => (store(mem, a, d), Message::Ack),
        Command::Read(a, s) => (mem, Message::Data(load(mem, a, s))),
    }
}

/// Memory after request `m` is served in `mem`, and the reply.
pub open spec fn serve_in(mem: Map<u32, u8>, m: Message) -> (Map<u32, u8>, Message) {
    execute_in(mem, command_for(m))
}

proof fn lemma_bytes_u16(v: u16)
    ensures
        (((v & 0xff) as u8) as u16) | ((((v >> 8) as u8) as u16) << 8) == v,
{
    assert((((v & 0xff) as u8) as u16) | ((((v >> 8) as u8) as u16) << 8) == v) by (bit_vector);
}

proof fn lemma_bytes_u32(v: u32)
    ensures
        (((v & 0xff) as u8) as u32) | (((((v >> 8) & 0xff) as u8) as u32) << 8) | (((((v >> 16)
            & 0xff) as u8) as u32) << 16) | ((((v >> 24) as u8) as u32) << 24) == v,
{
    assert((((v & 0xff) as u8) as u32) | (((((v >> 8) & 0xff) as u8) as u32) << 8) | (((((v >> 16)
        & 0xff) as u8) as u32) << 16) | ((((v >> 24) as u8) as u32) << 24) == v) by (bit_vector);
}

/// Plain memory standing in for a device's address space: every cell reads as
/// zero until written.
pub struct Ram {
    cells: HashMap<u32, u8>,
}

impl Ram {
    pub closed spec fn view(&self) -> Map<u32, u8> {
        self.cells@
    }

    pub fn new() -> (r: Ram)
        ensures
            r@ == Map::<u32, u8>::empty(),
    {
        Ram { cells: HashMap::new() }
    }

    fn read_byte(&self, a: u32) -> (r: u8)
        ensures
            r == byte_at(self@, a),
    {
        match self.cells.get(&a) {
            Some(b) => *b,
            None => 0,
        }
    }

    fn write_byte(&mut self, a: u32, b: u8)
        ensures
            final(self)@ == old(self)@.insert(a, b),
    {
        self.cells.insert(a, b);
    }

    /// Writes `d` at `address`, least significant byte first.
    pub fn store(&mut self, address: u32, d: Data)
        ensures
            final(self)@ == store(old(self)@, address, d),
    {
        match d {
            Data::U8(b) => self.write_byte(address, b),
            Data::U16(v) => {
                self.write_byte(address, (v & 0xff) as u8);
                self.write_byte(address.wrapping_add(1), (v >> 8) as u8);
            },
            Data::U32(v) => {
                self.write_byte(address, (v & 0xff) as u8);
                self.write_byte(address.wrapping_add(1), ((v >> 8) & 0xff) as u8);
                self.write_byte(address.wrapping_add(2), ((v >> 16) & 0xff) as u8);
                self.write_byte(address.wrapping_add(3), (v >> 24) as u8);
            },
        }
    }

    /// The value of width `size` at `address`.
    pub fn load(&self, address: u32, size: DataSize) -> (r: Data)
        ensures
            r == load(self@, address, size),
    {
        match size {
            DataSize::U8 => Data::U8(self.read_byte(address)),
            DataSize::U16 => {
                let b0 = self.read_byte(address) as u16;
                let b1 = self.read_byte(address.wrapping_add(1)) as u16;
                Data::U16(b0 | (b1 << 8))
            },
            DataSize::U32 => {
                let b0 = self.read_byte(address) as u32;
                let b1 = self.read_byte(address.wrapping_add(1)) as u32;
                let b2 = self.read_byte(address.wrapping_add(2)) as u32;
                let b3 = self.read_byte(address.wrapping_add(3)) as u32;
                Data::U32(b0 | (b1 << 8) | (b2 << 16) | (b3 << 24))
            },
        }
    }

    /// Carries out `cmd` and gives the reply.
    pub fn execute(&mut self, cmd: Command) -> (r: Message)
        ensures
            (final(self)@, r) == execute_in(old(self)@, cmd),
    {
        match cmd {
            Command::Reply(m) => m,
            Command::Write(a, d) => {
                self.store(a, d);
                Message::Ack
            },
            Command::Read(a, s) => Message::Data(self.load(a, s)),
        }
    }

    /// One transaction as the device runs it: hand `frame` to the dispatcher,
    /// carry out the command it returns, and give the encoded reply. No reply
    /// comes, and nothing is touched, where the dispatcher takes no command.
    pub fn serve(&mut self, dispatcher: &mut Dispatcher, frame: &[u8]) -> (r: Option<Vec<u8>>)
        ensures
            final(dispatcher)@ == on_frame(old(dispatcher)@, frame@).0,
            match on_frame(old(dispatcher)@, frame@).1 {
                None => r is None && final(self)@ == old(self)@,
                Some(cmd) => {
                    &&& final(self)@ == execute_in(old(self)@, cmd).0
                    &&& r matches Some(b) && b@ == encoding(execute_in(old(self)@, cmd).1)
                },
            },
    {
        match dispatcher.endpoint_out(frame) {
            Some(cmd) => {
                let reply = self.execute(cmd);
                Some(encode(&reply))
            },
            None => None,
        }
    }
}

/// Reading back what was just written, at the same address and width, gives
/// the value written.
pub proof fn lemma_width_fidelity(mem: Map<u32, u8>, a: u32, d: Data)
    ensures
        load(store(mem, a, d), a, width(d)) == d,
{
    match d {
        Data::U8(_) => {},
        Data::U16(v) => lemma_bytes_u16(v),
        Data::U32(v) => lemma_bytes_u32(v),
    }
}

/// A request `Put(a, v)` is acknowledged, and a following `Get` of the same
/// address and width answers `Data(v)`.
pub proof fn lemma_put_then_get(mem: Map<u32, u8>, a: u32, v: Data)
    ensures
        serve_in(mem, Message::Put(a, v)).1 == Message::Ack,
        serve_in(serve_in(mem, Message::Put(a, v)).0, Message::Get(a, width(v))).1
            == Message::Data(v),
{
    lemma_width_fidelity(mem, a, v);
}

/// A request is only ever taken when Idle, and taking it stalls the link;
/// while Stalled every frame is refused, so a second request cannot start
/// before the reply to the first has gone out.
pub proof fn lemma_one_transaction_at_a_time(s: LinkState, first: Seq<u8>, second: Seq<u8>)
    ensures
        on_frame(s, first).1 is Some ==> s == LinkState::Idle && on_frame(s, first).0
            == LinkState::Stalled,
        on_frame(s, first).1 is Some ==> on_frame(on_frame(s, first).0, second) == (
            LinkState::Stalled,
            None::<Command>,
        ),
{
}

/// A frame that does not decode gets no command, hence no reply, and leaves
/// the state as it was.
pub proof fn lemma_malformed_frame_dropped(s: LinkState, frame: Seq<u8>)
    requires
        parse_message(frame) is None,
    ensures
        on_frame(s, frame) == (s, None::<Command>),
{
}

/// An idle device answers `Ping` with `Pong` and touches no memory, however
/// often it is asked.
pub proof fn lemma_ping_pong(mem: Map<u32, u8>)
    ensures
        on_frame(LinkState::Idle, encoding(Message::Ping)) == (
            LinkState::Stalled,
            Some(Command::Reply(Message::Pong)),
        ),
        serve_in(mem, Message::Ping) == (mem, Message::Pong),
{
    crate::codec::lemma_round_trip(Message::Ping, Seq::empty());
    assert(encoding(Message::Ping) + Seq::<u8>::empty() =~= encoding(Message::Ping));
}

} // verus!
