use usb_io::codec::{decode, encode, DecodeError};
use usb_io::message::{Data, DataSize, Message};

#[test]
fn exact_encodings() {
    assert_eq!(encode(&Message::Ping), vec![0]);
    assert_eq!(encode(&Message::Nop), vec![6]);
    assert_eq!(encode(&Message::Data(Data::U8(0x80))), vec![3, 0, 0x80]);
    assert_eq!(encode(&Message::Data(Data::U16(300))), vec![3, 1, 0xAC, 0x02]);
    assert_eq!(
        encode(&Message::Put(0x4002_1830, Data::U32(4))),
        vec![4, 0xB0, 0xB0, 0x88, 0x80, 0x04, 2, 4]
    );
    assert_eq!(encode(&Message::Get(1, DataSize::U16)), vec![5, 1, 1]);
}

#[test]
fn encodings_agree_with_postcard() {
    for a in [0u32, 1, 127, 128, 16_383, 16_384, 0x4002_1830, u32::MAX] {
        for v in [0u32, 5, 200, 70_000, u32::MAX] {
            assert_eq!(
                encode(&Message::Put(a, Data::U32(v))),
                postcard::to_allocvec(&(4u32, a, 2u32, v)).unwrap()
            );
        }
        assert_eq!(encode(&Message::Put(a, Data::U8(9))), postcard::to_allocvec(&(4u32, a, 0u32, 9u8)).unwrap());
        assert_eq!(
            encode(&Message::Put(a, Data::U16(u16::MAX))),
            postcard::to_allocvec(&(4u32, a, 1u32, u16::MAX)).unwrap()
        );
        assert_eq!(encode(&Message::Get(a, DataSize::U32)), postcard::to_allocvec(&(5u32, a, 2u32)).unwrap());
    }
    assert_eq!(encode(&Message::Pong), postcard::to_allocvec(&1u32).unwrap());
}

#[test]
fn decodes_what_postcard_writes() {
    let bytes = postcard::to_allocvec(&(3u32, 1u32, 40_000u16)).unwrap();
    assert_eq!(decode(&bytes), Ok(Message::Data(Data::U16(40_000))));
    let bytes = postcard::to_allocvec(&(5u32, 0x2000_0000u32, 0u32)).unwrap();
    assert_eq!(decode(&bytes), Ok(Message::Get(0x2000_0000, DataSize::U8)));
}

#[test]
fn long_tag_encoding_is_accepted() {
    // A tag written with a continuation byte still decodes, as postcard reads it.
    assert_eq!(decode(&[0x80, 0x00]), Ok(Message::Ping));
    assert_eq!(decode(&[0x86, 0x00]), Ok(Message::Nop));
}

#[test]
fn empty_frame_is_rejected() {
    assert_eq!(decode(&[]), Err(DecodeError));
}

#[test]
fn unknown_tag_is_rejected() {
    assert_eq!(decode(&[7]), Err(DecodeError));
    assert_eq!(decode(&[3, 3, 0]), Err(DecodeError));
    assert_eq!(decode(&[5, 0, 3]), Err(DecodeError));
}

#[test]
fn truncated_frame_is_rejected() {
    assert_eq!(decode(&[3]), Err(DecodeError));
    assert_eq!(decode(&[3, 0]), Err(DecodeError));
    assert_eq!(decode(&[4, 0x80]), Err(DecodeError));
    assert_eq!(decode(&[4, 0x01, 2, 0xFF]), Err(DecodeError));
    assert_eq!(decode(&[5, 0x01]), Err(DecodeError));
}

#[test]
fn out_of_range_varint_is_rejected() {
    // u32 varint whose fifth byte holds more than four bits
    assert_eq!(decode(&[4, 0xFF, 0xFF, 0xFF, 0xFF, 0x10, 0, 1]), Err(DecodeError));
    assert_eq!(
        decode(&[4, 0xFF, 0xFF, 0xFF, 0xFF, 0x0F, 0, 1]),
        Ok(Message::Put(u32::MAX, Data::U8(1)))
    );
    // u16 varint whose third byte holds more than two bits
    assert_eq!(decode(&[3, 1, 0xFF, 0xFF, 0x04]), Err(DecodeError));
    assert_eq!(decode(&[3, 1, 0xFF, 0xFF, 0x03]), Ok(Message::Data(Data::U16(u16::MAX))));
    // six bytes of varint
    assert_eq!(decode(&[0x80, 0x80, 0x80, 0x80, 0x80, 0x00]), Err(DecodeError));
}
