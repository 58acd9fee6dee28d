use rm2::proto::transport::{
    decode_len, encode_len, Error, Header, RecvStep, SendStep, TransportSocket,
};
use rm2::BytesFormat;
use std::io::ErrorKind;

struct Plain;

impl BytesFormat for Plain {
    type SerError = &'static str;
    type DeError = &'static str;
}

type Socket = TransportSocket<(), Plain>;

#[test]
fn length_is_big_endian() {
    assert_eq!(encode_len(0x0102_0304), [1, 2, 3, 4]);
    assert_eq!(encode_len(0), [0, 0, 0, 0]);
    assert_eq!(encode_len(u32::MAX), [255, 255, 255, 255]);
    assert_eq!(encode_len(300), 300u32.to_be_bytes());
    assert_eq!(decode_len([1, 2, 3, 4]), 0x0102_0304);
    assert_eq!(decode_len([255, 255, 255, 255]), u32::MAX);
}

#[test]
fn length_round_trip() {
    for len in [0, 1, 255, 256, 65_535, 65_536, 16_777_215, 16_777_216, u32::MAX] {
        assert_eq!(decode_len(encode_len(len)), len);
    }
}

#[test]
fn frame_announces_its_payload() {
    let frame = Header::frame(vec![9; 300]);
    assert_eq!(frame.len, 300);
    assert_eq!(frame.data, vec![9; 300]);
}

#[test]
fn socket_keeps_its_pipe() {
    let socket: TransportSocket<u8, Plain> = TransportSocket::new(5);
    assert_eq!(socket.pipe, 5);
}

#[test]
fn send_runs_through() {
    let frame = match Socket::send(Ok(vec![1, 2, 3])) {
        SendStep::WriteHeader(frame) => frame,
        _ => panic!("the header comes first"),
    };
    assert_eq!(frame, Header { len: 3, data: vec![1, 2, 3] });
    match Socket::header_sent(frame, Ok(())) {
        SendStep::WritePayload(payload) => assert_eq!(payload, vec![1, 2, 3]),
        _ => panic!("the payload follows"),
    }
    assert!(matches!(Socket::payload_sent(Ok(3)), SendStep::Done(Ok(()))));
}

#[test]
fn short_write_counts_as_sent() {
    assert!(matches!(Socket::payload_sent(Ok(1)), SendStep::Done(Ok(()))));
}

#[test]
fn send_errors() {
    assert!(matches!(
        Socket::send(Err("unencodable")),
        SendStep::Done(Err(Error::Ser("unencodable")))
    ));
    let frame = Header::frame(vec![1]);
    match Socket::header_sent(frame, Err(ErrorKind::BrokenPipe.into())) {
        SendStep::Done(Err(Error::IO(e))) => assert_eq!(e.kind(), ErrorKind::BrokenPipe),
        _ => panic!("the header was not written"),
    }
    match Socket::payload_sent(Err(ErrorKind::WriteZero.into())) {
        SendStep::Done(Err(Error::IO(e))) => assert_eq!(e.kind(), ErrorKind::WriteZero),
        _ => panic!("the payload was not written"),
    }
}

#[test]
fn receive_hands_an_empty_buffer_to_the_decoder() {
    assert!(matches!(Socket::recv(), RecvStep::ReadHeader));
    let buffer = match Socket::header_received(Ok([0, 0, 0, 5])) {
        RecvStep::Fill(buffer) => buffer,
        _ => panic!("the payload follows the header"),
    };
    assert_eq!(buffer.len(), 0);
    assert!(buffer.capacity() >= 5);
    match Socket::payload_received(buffer, Ok(())) {
        RecvStep::Decode(bytes) => assert_eq!(bytes, Vec::<u8>::new()),
        _ => panic!("the buffer is decoded"),
    }
    assert_eq!(Socket::decoded(Ok(4)).ok(), Some(4));
}

#[test]
fn receive_errors() {
    match Socket::header_received(Err(ErrorKind::UnexpectedEof.into())) {
        RecvStep::Failed(Error::IO(e)) => assert_eq!(e.kind(), ErrorKind::UnexpectedEof),
        _ => panic!("there was no header"),
    }
    match Socket::payload_received(Vec::new(), Err(ErrorKind::ConnectionReset.into())) {
        RecvStep::Failed(Error::IO(e)) => assert_eq!(e.kind(), ErrorKind::ConnectionReset),
        _ => panic!("there was no payload"),
    }
    assert!(matches!(Socket::decoded::<u8>(Err("garbled")), Err(Error::De("garbled"))));
}

#[test]
fn io_error_converts() {
    let error: Error<Plain> = std::io::Error::from(ErrorKind::TimedOut).into();
    match error {
        Error::IO(e) => assert_eq!(e.kind(), ErrorKind::TimedOut),
        _ => panic!("it was an I/O error"),
    }
}
