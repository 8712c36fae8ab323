use usb_io::codec::{decode, encode};
use usb_io::message::{Data, DataSize, Message};
use usb_io::usb::MESSAGE_MAX_SIZE;

#[test]
fn test_encode_decode_message() {
    let message = Message::Ping;
    let slice = encode(&message);
    assert!(slice.len() <= MESSAGE_MAX_SIZE as usize);
    assert_eq!(message, decode(&slice).unwrap());
}

fn all_kinds() -> Vec<Message> {
    vec![
        Message::Ping,
        Message::Pong,
        Message::Ack,
        Message::Nop,
        Message::Data(Data::U8(0)),
        Message::Data(Data::U8(255)),
        Message::Data(Data::U16(0x1234)),
        Message::Data(Data::U16(u16::MAX)),
        Message::Data(Data::U32(0)),
        Message::Data(Data::U32(u32::MAX)),
        Message::Put(0, Data::U8(7)),
        Message::Put(u32::MAX, Data::U16(300)),
        Message::Put(0x4002_1830, Data::U32(u32::MAX)),
        Message::Get(0, DataSize::U8),
        Message::Get(127, DataSize::U16),
        Message::Get(u32::MAX, DataSize::U32),
    ]
}

#[test]
fn round_trip_every_kind() {
    for m in all_kinds() {
        let frame = encode(&m);
        assert!(frame.len() <= MESSAGE_MAX_SIZE as usize);
        assert_eq!(decode(&frame), Ok(m));
    }
}

#[test]
fn padding_after_frame_is_ignored() {
    for m in all_kinds() {
        let mut frame = encode(&m);
        while frame.len() < MESSAGE_MAX_SIZE as usize {
            frame.push(0xAA);
        }
        assert_eq!(decode(&frame), Ok(m));
    }
}

#[test]
fn largest_frame_is_twelve_bytes() {
    let frame = encode(&Message::Put(u32::MAX, Data::U32(u32::MAX)));
    assert_eq!(frame.len(), 12);
}

#[test]
fn data_size_of_values() {
    assert_eq!(Data::U8(1).size(), DataSize::U8);
    assert_eq!(Data::U16(1).size(), DataSize::U16);
    assert_eq!(Data::U32(1).size(), DataSize::U32);
}
