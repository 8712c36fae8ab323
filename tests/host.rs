use usb_io::codec::encode;
use usb_io::dispatcher::{Dispatcher, Ram};
use usb_io::host::{
    drain_continues, is_pong, is_usb_io, read16_value, read32_value, read8_value, send_outcome, write_outcome,
    Receiver, TransferError,
};
use usb_io::message::{Data, DataSize, Message};
use usb_io::usb::{MAX_RECV_RETRIES, PID, VID};

/// Runs a receive over scripted read results; `None` where it still wants to read.
fn receive(reads: &[Result<Vec<u8>, TransferError>]) -> Option<Result<Message, TransferError>> {
    let mut rx = Receiver::new();
    for read in reads {
        match read {
            Ok(frame) => return Some(rx.on_frame(frame)),
            Err(e) => {
                if let Some(r) = rx.on_error(*e) {
                    return Some(r);
                }
            }
        }
    }
    None
}

fn io_errors_then_pong(k: usize) -> Vec<Result<Vec<u8>, TransferError>> {
    let mut reads = vec![Err(TransferError::Io); k];
    reads.push(Ok(encode(&Message::Pong)));
    reads
}

#[test]
fn receive_survives_fewer_than_three_io_errors() {
    assert_eq!(MAX_RECV_RETRIES, 3);
    for k in 0..3 {
        assert_eq!(receive(&io_errors_then_pong(k)), Some(Ok(Message::Pong)));
    }
}

#[test]
fn receive_gives_up_after_three_io_errors() {
    for k in 3..6 {
        assert_eq!(receive(&io_errors_then_pong(k)), Some(Err(TransferError::Other)));
    }
}

#[test]
fn receive_does_not_retry_timeout() {
    let mut rx = Receiver::new();
    assert_eq!(rx.on_error(TransferError::Timeout), Some(Err(TransferError::Timeout)));
    assert_eq!(rx.attempts_left(), 3);
    assert_eq!(
        receive(&[Err(TransferError::Io), Err(TransferError::NoDevice)]),
        Some(Err(TransferError::NoDevice))
    );
}

#[test]
fn receive_of_garbage_is_generic_error() {
    let mut rx = Receiver::new();
    assert_eq!(rx.on_frame(&[0xFF]), Err(TransferError::Other));
}

#[test]
fn malformed_request_times_out_on_host() {
    let mut d = Dispatcher::new();
    let mut ram = Ram::new();
    // the device drops the frame, so the host's read can only time out
    assert_eq!(ram.serve(&mut d, &[0xEE]), None);
    assert_eq!(receive(&[Err(TransferError::Timeout)]), Some(Err(TransferError::Timeout)));
}

#[test]
fn send_checks_written_length() {
    assert_eq!(send_outcome(3, Ok(3)), Ok(3));
    assert_eq!(send_outcome(3, Ok(2)), Err(TransferError::Other));
    assert_eq!(send_outcome(3, Err(TransferError::Pipe)), Err(TransferError::Pipe));
}

#[test]
fn ready_only_on_pong() {
    assert!(is_pong(&Ok(Message::Pong)));
    assert!(!is_pong(&Ok(Message::Nop)));
    assert!(!is_pong(&Err(TransferError::Timeout)));
}

#[test]
fn read_values_check_width() {
    assert_eq!(read8_value(Ok(Message::Data(Data::U8(7)))), Ok(7));
    assert_eq!(read8_value(Ok(Message::Data(Data::U16(7)))), Err(TransferError::Other));
    assert_eq!(read16_value(Ok(Message::Data(Data::U16(700)))), Ok(700));
    assert_eq!(read16_value(Ok(Message::Ack)), Err(TransferError::Other));
    assert_eq!(read32_value(Ok(Message::Data(Data::U32(70_000)))), Ok(70_000));
    assert_eq!(read32_value(Err(TransferError::Busy)), Err(TransferError::Busy));
}

#[test]
fn write_outcome_passes_errors() {
    assert_eq!(write_outcome(Ok(Message::Ack)), Ok(()));
    assert_eq!(write_outcome(Err(TransferError::Access)), Err(TransferError::Access));
}

#[test]
fn write_outcome_rejects_other_replies() {
    assert_eq!(write_outcome(Ok(Message::Nop)), Err(TransferError::Other));
    assert_eq!(write_outcome(Ok(Message::Pong)), Err(TransferError::Other));
    assert_eq!(write_outcome(Ok(Message::Data(Data::U8(0)))), Err(TransferError::Other));
}

#[test]
fn drain_stops_at_error_or_budget() {
    assert!(drain_continues(1, &Ok(Message::Pong)));
    assert!(drain_continues(2, &Ok(Message::Ack)));
    assert!(!drain_continues(3, &Ok(Message::Ack)));
    assert!(!drain_continues(1, &Err(TransferError::Timeout)));
}

#[test]
fn write_then_read_through_interface() {
    let mut d = Dispatcher::new();
    let mut ram = Ram::new();
    let a = 0x2000_0010u32;
    let ack = ram.serve(&mut d, &encode(&Message::Put(a, Data::U8(0x5A)))).unwrap();
    d.endpoint_in_complete();
    assert_eq!(write_outcome(Receiver::new().on_frame(&ack)), Ok(()));
    let got = ram.serve(&mut d, &encode(&Message::Get(a, DataSize::U8))).unwrap();
    d.endpoint_in_complete();
    assert_eq!(read8_value(Receiver::new().on_frame(&got)), Ok(0x5A));
    let ack = ram.serve(&mut d, &encode(&Message::Put(a, Data::U16(0xA55A)))).unwrap();
    d.endpoint_in_complete();
    assert_eq!(write_outcome(Receiver::new().on_frame(&ack)), Ok(()));
    let got = ram.serve(&mut d, &encode(&Message::Get(a, DataSize::U16))).unwrap();
    d.endpoint_in_complete();
    assert_eq!(read16_value(Receiver::new().on_frame(&got)), Ok(0xA55A));
}

#[test]
fn device_identifiers() {
    assert!(is_usb_io(VID, PID));
    assert!(is_usb_io(0x16c0, 0x27dd));
    assert!(!is_usb_io(VID, PID + 1));
    assert!(!is_usb_io(0x1234, PID));
}

#[test]
fn set_then_get_register_end_to_end() {
    let mut d = Dispatcher::new();
    let mut ram = Ram::new();

    let request = encode(&Message::Put(0x4002_1830, Data::U32(0x0000_0004)));
    let reply = ram.serve(&mut d, &request).unwrap();
    d.endpoint_in_complete();
    let mut rx = Receiver::new();
    assert_eq!(rx.on_frame(&reply), Ok(Message::Ack));
    assert_eq!(write_outcome(Ok(Message::Ack)), Ok(()));

    let request = encode(&Message::Get(0x4002_1830, DataSize::U32));
    let reply = ram.serve(&mut d, &request).unwrap();
    d.endpoint_in_complete();
    let mut rx = Receiver::new();
    let got = rx.on_frame(&reply);
    assert_eq!(got, Ok(Message::Data(Data::U32(0x0000_0004))));
    assert_eq!(read32_value(got), Ok(4));
}
