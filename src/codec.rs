//! The wire format of [`Message`]: a tag-prefixed binary encoding.
//!
//! Every enum tag is an unsigned base-128 varint of a `u32`, a `u8` is one raw
//! byte, and `u16` and `u32` values are varints. A varint has its high bit set
//! on every byte but the last; a decoder takes at most 3 bytes for a `u16` and
//! 5 for a `u32`, whose last byte must keep the value in range. Bytes that
//! follow a complete frame are ignored.
//!
//! This is the layout that the postcard serde format gives these types, so a
//! peer that encodes with postcard and one that uses this module understand
//! each other.
use vstd::prelude::*;

use crate::message::{Data, DataSize, Message};
use crate::usb::MESSAGE_MAX_SIZE;

verus! {

/// Base-128 little-endian digits of `n`: every byte but the last has its high bit set.
pub open spec fn varint(n: nat) -> Seq<u8>
    decreases n,
{
    if n < 128 {
        seq![n as u8]
    } else {
        seq![(n % 128 + 128) as u8] + varint(n / 128)
    }
}

/// One more than the largest value that a varint of at most `max` bytes
/// carries when its `max`-th byte may be at most `last`.
pub open spec fn varint_limit(max: nat, last: nat) -> nat
    decreases max,
{
    if max <= 1 {
        last + 1
    } else {
        128 * varint_limit((max - 1) as nat, last)
    }
}

/// Reads a varint from the front of `s`: its value and how many bytes it takes.
/// It has at most `max` bytes, and a `max`-th byte may be at most `last`.
pub open spec fn parse_varint(s: Seq<u8>, max: nat, last: nat) -> Option<(nat, nat)>
    decreases max,
{
    if max == 0 || s.len() == 0 {
        None
    } else if s[0] < 128 {
        if max == 1 && s[0] > last {
            None
        } else {
            Some((s[0] as nat, 1))
        }
    } else {
        match parse_varint(s.drop_first(), (max - 1) as nat, last) {
            Some((v, k)) => Some(((s[0] - 128) as nat + 128 * v, k + 1)),
            None => None,
        }
    }
}

/// A varint that decodes to a `u32`.
pub open spec fn parse_u32(s: Seq<u8>) -> Option<(nat, nat)> {
    parse_varint(s, 5, 15)
}

/// A varint that decodes to a `u16`.
pub open spec fn parse_u16(s: Seq<u8>) -> Option<(nat, nat)> {
    parse_varint(s, 3, 3)
}

pub open spec fn size_tag(s: DataSize) -> u8 {
    match s {
        DataSize::U8 => 0,
        DataSize::U16 => 1,
        DataSize::U32 => 2,
    }
}

pub open spec fn data_bytes(d: Data) -> Seq<u8> {
    match d {
        Data::U8(b) => seq![0u8, b],
        Data::U16(v) => seq![1u8] + varint(v as nat),
        Data::U32(v) => seq![2u8] + varint(v as nat),
    }
}

/// The frame that carries `m`.
pub open spec fn encoding(m: Message) -> Seq<u8> {
    match m {
        Message::Ping => seq![0u8],
        Message::Pong => seq![1u8],
        Message::Ack => seq![2u8],
        Message::Data(d) => seq![3u8] + data_bytes(d),
        Message::Put(a, d) => seq![4u8] + varint(a as nat) + data_bytes(d),
        Message::Get(a, s) => seq![5u8] + varint(a as nat) + seq![size_tag(s)],
        Message::Nop => seq![6u8],
    }
}

/// Reads a [`Data`] from the front of `s`, and how many bytes it takes.
pub open spec fn parse_data(s: Seq<u8>) -> Option<(Data, nat)> {
    match parse_u32(s) {
        None => None,
        Some((t, k)) => {
            let r = s.skip(k as int);
            if t == 0 {
                if r.len() >= 1 {
                    Some((Data::U8(r[0]), k + 1))
                } else {
                    None
                }
            } else if t == 1 {
                match parse_u16(r) {
                    Some((v, j)) => Some((Data::U16(v as u16), k + j)),
                    None => None,
                }
            } else if t == 2 {
                match parse_u32(r) {
                    Some((v, j)) => Some((Data::U32(v as u32), k + j)),
                    None => None,
                }
            } else {
                None
            }
        },
    }
}

/// Reads a [`DataSize`] from the front of `s`.
pub open spec fn parse_size(s: Seq<u8>) -> Option<DataSize> {
    match parse_u32(s) {
        Some((t, _)) => if t == 0 {
            Some(DataSize::U8)
        } else if t == 1 {
            Some(DataSize::U16)
        } else if t == 2 {
            Some(DataSize::U32)
        } else {
            None
        },
        None => None,
    }
}

/// The message that the front of `s` holds; `None` for an unknown tag or a
/// truncated or out-of-range field. Trailing bytes are ignored.
pub open spec fn parse_message(s: Seq<u8>) -> Option<Message> {
    match parse_u32(s) {
        None => None,
        Some((t, k)) => {
            let r = s.skip(k as int);
            if t == 0 {
                Some(Message::Ping)
            } else if t == 1 {
                Some(Message::Pong)
            } else if t == 2 {
                Some(Message::Ack)
            } else if t == 3 {
                match parse_data(r) {
                    Some((d, _)) => Some(Message::Data(d)),
                    None => None,
                }
            } else if t == 4 {
                match parse_u32(r) {
                    Some((a, j)) => match parse_data(r.skip(j as int)) {
                        Some((d, _)) => Some(Message::Put(a as u32, d)),
                        None => None,
                    },
                    None => None,
                }
            } else if t == 5 {
                match parse_u32(r) {
                    Some((a, j)) => match parse_size(r.skip(j as int)) {
                        Some(sz) => Some(Message::Get(a as u32, sz)),
                        None => None,
                    },
                    None => None,
                }
            } else if t == 6 {
                Some(Message::Nop)
            } else {
                None
            }
        },
    }
}

proof fn lemma_limits()
    ensures
        varint_limit(1, 15) == 16,
        varint_limit(2, 15) == 2048,
        varint_limit(3, 15) == 262144,
        varint_limit(4, 15) == 33554432,
        varint_limit(5, 15) == 0x1_0000_0000,
        varint_limit(1, 3) == 4,
        varint_limit(2, 3) == 512,
        varint_limit(3, 3) == 0x1_0000,
{
    reveal_with_fuel(varint_limit, 5);
}

proof fn lemma_limit_positive(max: nat, last: nat)
    ensures
        varint_limit(max, last) >= 1,
    decreases max,
{
    if max > 1 {
        lemma_limit_positive((max - 1) as nat, last);
    }
}

/// What a varint parse yields is in range and lies within `s`.
proof fn lemma_parse_varint_bounds(s: Seq<u8>, max: nat, last: nat)
    ensures
        parse_varint(s, max, last) matches Some((v, k)) ==> {
            &&& v < varint_limit(max, last)
            &&& 1 <= k <= max
            &&& k <= s.len()
        },
    decreases max,
{
    lemma_limit_positive(max, last);
    if max > 1 {
        lemma_limit_positive((max - 1) as nat, last);
    }
    if max > 0 && s.len() > 0 && s[0] >= 128 {
        lemma_parse_varint_bounds(s.drop_first(), (max - 1) as nat, last);
    }
}

/// A varint in range reads back as the value it encodes, whatever follows it.
proof fn lemma_varint_round_trip(n: nat, rest: Seq<u8>, max: nat, last: nat)
    requires
        1 <= max,
        last < 128,
        n < varint_limit(max, last),
    ensures
        parse_varint(varint(n) + rest, max, last) == Some((n, varint(n).len())),
        varint(n).len() <= max,
    decreases max,
{
    let s = varint(n) + rest;
    if n < 128 {
        assert(s[0] == n as u8);
    } else {
        let q = n / 128;
        let L = varint_limit((max - 1) as nat, last);
        assert(max > 1);
        assert(q < L) by (nonlinear_arith)
            requires
                n < 128 * L,
                q == n / 128,
        ;
        lemma_varint_round_trip(q, rest, (max - 1) as nat, last);
        assert(s.drop_first() =~= varint(q) + rest);
        assert(s[0] == (n % 128 + 128) as u8);
        assert(n == n % 128 + 128 * q);
    }
}

proof fn lemma_data_round_trip(d: Data, rest: Seq<u8>)
    ensures
        parse_data(data_bytes(d) + rest) == Some((d, data_bytes(d).len())),
        data_bytes(d).len() <= 6,
{
    lemma_limits();
    let s = data_bytes(d) + rest;
    assert(s[0] == data_bytes(d)[0]);
    match d {
        Data::U8(b) => {
            assert(s.skip(1)[0] == b);
        },
        Data::U16(v) => {
            lemma_varint_round_trip(v as nat, rest, 3, 3);
            assert(s.skip(1) =~= varint(v as nat) + rest);
        },
        Data::U32(v) => {
            lemma_varint_round_trip(v as nat, rest, 5, 15);
            assert(s.skip(1) =~= varint(v as nat) + rest);
        },
    }
}

/// Decoding the frame of `m` gives `m` back, whatever bytes follow the frame.
pub proof fn lemma_round_trip(m: Message, padding: Seq<u8>)
    ensures
        parse_message(encoding(m) + padding) == Some(m),
{
    lemma_limits();
    let s = encoding(m) + padding;
    assert(s[0] == encoding(m)[0]);
    match m {
        Message::Data(d) => {
            lemma_data_round_trip(d, padding);
            assert(s.skip(1) =~= data_bytes(d) + padding);
        },
        Message::Put(a, d) => {
            let r = s.skip(1);
            lemma_varint_round_trip(a as nat, data_bytes(d) + padding, 5, 15);
            assert(r =~= varint(a as nat) + (data_bytes(d) + padding));
            lemma_data_round_trip(d, padding);
            assert(r.skip(varint(a as nat).len() as int) =~= data_bytes(d) + padding);
        },
        Message::Get(a, sz) => {
            let r = s.skip(1);
            lemma_varint_round_trip(a as nat, seq![size_tag(sz)] + padding, 5, 15);
            assert(r =~= varint(a as nat) + (seq![size_tag(sz)] + padding));
            let t = r.skip(varint(a as nat).len() as int);
            assert(t =~= seq![size_tag(sz)] + padding);
            assert(t[0] == size_tag(sz));
        },
        _ => {},
    }
}

/// Every frame fits in one transfer.
pub proof fn lemma_frame_fits(m: Message)
    ensures
        encoding(m).len() <= MESSAGE_MAX_SIZE,
{
    lemma_limits();
    match m {
        Message::Data(d) => {
            lemma_data_round_trip(d, Seq::empty());
        },
        Message::Put(a, d) => {
            lemma_varint_round_trip(a as nat, Seq::empty(), 5, 15);
            lemma_data_round_trip(d, Seq::empty());
        },
        Message::Get(a, _) => {
            lemma_varint_round_trip(a as nat, Seq::empty(), 5, 15);
        },
        _ => {},
    }
}

/// A frame that holds no message: an unknown tag, a truncated field, or a
/// varint too long for its type.
#[derive(Clone, Copy, Debug, PartialEq, Eq, Structural)]
pub struct DecodeError;

fn push_varint(out: &mut Vec<u8>, n: u32)
    ensures
        final(out)@ == old(out)@ + varint(n as nat),
{
    let mut v: u32 = n;
    while v >= 128
        invariant
            out@ + varint(v as nat) == old(out)@ + varint(n as nat),
        decreases v,
    {
        let b: u8 = (v % 128 + 128) as u8;
        assert(varint(v as nat) == seq![b] + varint((v / 128) as nat));
        assert(out@.push(b) + varint((v / 128) as nat) =~= out@ + varint(v as nat));
        out.push(b);
        v = v / 128;
    }
    assert(varint(v as nat) == seq![v as u8]);
    out.push(v as u8);
    assert(out@ =~= old(out)@ + varint(n as nat));
}

fn push_data(out: &mut Vec<u8>, d: Data)
    ensures
        final(out)@ == old(out)@ + data_bytes(d),
{
    match d {
        Data::U8(b) => {
            out.push(0);
            out.push(b);
        },
        Data::U16(v) => {
            out.push(1);
            push_varint(out, v as u32);
        },
        Data::U32(v) => {
            out.push(2);
            push_varint(out, v);
        },
    }
    assert(final(out)@ =~= old(out)@ + data_bytes(d));
}

/// The frame that carries `m`; it always fits in one transfer.
pub fn encode(m: &Message) -> (r: Vec<u8>)
    ensures
        r@ == encoding(*m),
        r@.len() <= MESSAGE_MAX_SIZE,
{
    let mut out: Vec<u8> = Vec::new();
    match *m {
        Message::Ping => out.push(0),
        Message::Pong => out.push(1),
        Message::Ack => out.push(2),
        Message::Data(d) => {
            out.push(3);
            push_data(&mut out, d);
        },
        Message::Put(a, d) => {
            out.push(4);
            push_varint(&mut out, a);
            push_data(&mut out, d);
        },
        Message::Get(a, sz) => {
            out.push(5);
            push_varint(&mut out, a);
            let t: u8 = match sz {
                DataSize::U8 => 0,
                DataSize::U16 => 1,
                DataSize::U32 => 2,
            };
            out.push(t);
        },
        Message::Nop => out.push(6),
    }
    assert(out@ =~= encoding(*m));
    proof {
        lemma_frame_fits(*m);
    }
    out
}

/// Reads a varint that starts at `pos`: its value and its length in bytes.
fn take_varint(buf: &[u8], pos: usize, max: usize, last: u8) -> (r: Option<(u32, usize)>)
    requires
        pos <= buf@.len(),
        (max <= 5 && last == 15) || (max <= 3 && last == 3),
    ensures
        match parse_varint(buf@.skip(pos as int), max as nat, last as nat) {
            Some((v, k)) => r matches Some((x, j)) && x as nat == v && j as nat == k,
            None => r is None,
        },
    decreases max,
{
    if max == 0 || pos >= buf.len() {
        return None;
    }
    let b = buf[pos];
    assert(buf@.skip(pos as int)[0] == b);
    if b < 128 {
        if max == 1 && b > last {
            None
        } else {
            Some((b as u32, 1))
        }
    } else {
        let rest = take_varint(buf, pos + 1, max - 1, last);
        assert(buf@.skip(pos as int).drop_first() =~= buf@.skip(pos + 1));
        match rest {
            Some((v, k)) => {
                proof {
                    lemma_limits();
                    lemma_parse_varint_bounds(buf@.skip(pos + 1), (max - 1) as nat, last as nat);
                }
                let x: u64 = (b - 128) as u64 + 128 * (v as u64);
                assert(x < varint_limit(max as nat, last as nat));
                Some((x as u32, k + 1))
            },
            None => None,
        }
    }
}

proof fn lemma_skip_skip(s: Seq<u8>, i: nat, j: nat)
    requires
        i + j <= s.len(),
    ensures
        s.skip(i as int).skip(j as int) =~= s.skip((i + j) as int),
{
}

/// Reads a [`Data`] that starts at `pos`, and how many bytes it takes.
fn take_data(buf: &[u8], pos: usize) -> (r: Option<(Data, usize)>)
    requires
        pos <= buf@.len(),
    ensures
        match parse_data(buf@.skip(pos as int)) {
            Some((d, k)) => r matches Some((e, j)) && e == d && j as nat == k,
            None => r is None,
        },
{
    let s = Ghost(buf@.skip(pos as int));
    let (t, k) = match take_varint(buf, pos, 5, 15) {
        Some(p) => p,
        None => return None,
    };
    proof {
        lemma_parse_varint_bounds(s@, 5, 15);
        lemma_skip_skip(buf@, pos as nat, k as nat);
    }
    let n = buf.len();
    let at = pos + k;
    if t == 0 {
        if at < n {
            assert(s@.skip(k as int)[0] == buf@[at as int]);
            Some((Data::U8(buf[at]), k + 1))
        } else {
            None
        }
    } else if t == 1 {
        match take_varint(buf, at, 3, 3) {
            Some((v, j)) => {
                proof {
                    lemma_limits();
                    lemma_parse_varint_bounds(buf@.skip(at as int), 3, 3);
                }
                Some((Data::U16(v as u16), k + j))
            },
            None => None,
        }
    } else if t == 2 {
        match take_varint(buf, at, 5, 15) {
            Some((v, j)) => {
                proof {
                    lemma_parse_varint_bounds(buf@.skip(at as int), 5, 15);
                }
                Some((Data::U32(v), k + j))
            },
            None => None,
        }
    } else {
        None
    }
}

/// Reads a [`DataSize`] that starts at `pos`.
fn take_size(buf: &[u8], pos: usize) -> (r: Option<DataSize>)
    requires
        pos <= buf@.len(),
    ensures
        r == parse_size(buf@.skip(pos as int)),
{
    match take_varint(buf, pos, 5, 15) {
        Some((0, _)) => Some(DataSize::U8),
        Some((1, _)) => Some(DataSize::U16),
        Some((2, _)) => Some(DataSize::U32),
        _ => None,
    }
}

/// The message at the front of `buf`, if it holds one; trailing bytes are ignored.
pub fn decode(buf: &[u8]) -> (r: Result<Message, DecodeError>)
    ensures
        match parse_message(buf@) {
            Some(m) => r == Ok::<Message, DecodeError>(m),
            None => r is Err,
        },
{
    assert(buf@.skip(0) =~= buf@);
    let (t, k) = match take_varint(buf, 0, 5, 15) {
        Some(p) => p,
        None => return Err(DecodeError),
    };
    proof {
        lemma_parse_varint_bounds(buf@, 5, 15);
    }
    let r = Ghost(buf@.skip(k as int));
    if t == 0 {
        Ok(Message::Ping)
    } else if t == 1 {
        Ok(Message::Pong)
    } else if t == 2 {
        Ok(Message::Ack)
    } else if t == 3 {
        match take_data(buf, k) {
            Some((d, _)) => Ok(Message::Data(d)),
            None => Err(DecodeError),
        }
    } else if t == 4 || t == 5 {
        let (a, j) = match take_varint(buf, k, 5, 15) {
            Some(p) => p,
            None => return Err(DecodeError),
        };
        proof {
            lemma_parse_varint_bounds(r@, 5, 15);
            lemma_skip_skip(buf@, k as nat, j as nat);
        }
        if t == 4 {
            match take_data(buf, k + j) {
                Some((d, _)) => Ok(Message::Put(a, d)),
                None => Err(DecodeError),
            }
        } else {
            match take_size(buf, k + j) {
                Some(sz) => Ok(Message::Get(a, sz)),
                None => Err(DecodeError),
            }
        }
    } else if t == 6 {
        Ok(Message::Nop)
    } else {
        Err(DecodeError)
    }
}

} // verus!
