use quiclime::disconnect::{Disconnect, DisconnectError, StatusPacket};
use quiclime::netty::{HandshakeType, ReadError};

#[test]
fn status_is_answered_and_the_ping_echoed() {
    let waiting = Disconnect::new(HandshakeType::Status, "{\"a\":1}", "bye");
    assert_eq!(waiting.max_packet(), 1);
    let (bytes, next) = waiting.answer(&[0]).unwrap();
    assert_eq!(bytes, [&[9, 0, 7], "{\"a\":1}".as_bytes()].concat());
    let waiting = next.unwrap();
    assert_eq!(waiting.max_packet(), 9);
    let (bytes, next) = waiting.answer(&[1, 11, 22, 33, 44, 55, 66, 77, 88]).unwrap();
    assert_eq!(bytes, vec![9, 1, 11, 22, 33, 44, 55, 66, 77, 88]);
    assert!(next.is_none());
}

#[test]
fn login_is_answered_whatever_it_holds() {
    let waiting = Disconnect::new(HandshakeType::Login, "status", "bye");
    assert_eq!(waiting.max_packet(), 128);
    let (bytes, next) = waiting.answer(&[]).unwrap();
    assert_eq!(bytes, vec![5, 0, 3, b'b', b'y', b'e']);
    assert!(next.is_none());
}

#[test]
fn other_packets_break_off_the_conversation() {
    let waiting = Disconnect::new(HandshakeType::Status, "status", "bye");
    let error = waiting.answer(&[5]).unwrap_err();
    assert_eq!(
        error,
        DisconnectError::UnexpectedPacket { expected: StatusPacket::StatusRequest, id: 5 }
    );
    assert_eq!(
        error.message().unwrap(),
        "Packet isn't a Status Request(0x00), but 0x05"
    );
    assert_eq!(
        error.message().unwrap(),
        format!("Packet isn't a Status Request(0x00), but {:#04x}", 5)
    );

    let error = Disconnect::PingRequest.answer(&[0xac, 0x02]).unwrap_err();
    assert_eq!(
        error.message().unwrap(),
        format!("Packet isn't a Ping Request(0x01), but {:#04x}", 300)
    );
}

#[test]
fn negative_packet_numbers_are_shown_as_their_bits() {
    for id in [-1, i32::MIN, 0, 1, 15, 16, 255, 256, i32::MAX] {
        let error = DisconnectError::UnexpectedPacket { expected: StatusPacket::PingRequest, id };
        assert_eq!(
            error.message().unwrap(),
            format!("Packet isn't a Ping Request(0x01), but {id:#04x}")
        );
    }
}

#[test]
fn unreadable_packets_break_off_the_conversation() {
    let waiting = Disconnect::new(HandshakeType::Status, "status", "bye");
    let error = waiting.answer(&[]).unwrap_err();
    assert_eq!(error, DisconnectError::Read(ReadError::UnexpectedEnd));
    assert!(error.message().is_none());
    assert_eq!(
        waiting.answer(&[0xff; 5]).unwrap_err(),
        DisconnectError::Read(ReadError::VarIntTooLong)
    );
    assert_eq!(
        Disconnect::PingRequest.answer(&[1, 0, 0, 0]).unwrap_err(),
        DisconnectError::Read(ReadError::UnexpectedEnd)
    );
    assert_eq!(
        Disconnect::PingRequest.answer(&[0x80]).unwrap_err(),
        DisconnectError::Read(ReadError::UnexpectedEnd)
    );
}
