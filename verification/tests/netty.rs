use quiclime::netty::{
    packet, read_long, read_varint, write_string, write_u64, write_varint, ReadError, VarIntReader,
    VarIntStep,
};

fn varint(value: i32) -> Vec<u8> {
    let mut buf = Vec::new();
    write_varint(&mut buf, value);
    buf
}

#[test]
fn varints_have_their_known_bytes() {
    assert_eq!(varint(0), vec![0x00]);
    assert_eq!(varint(1), vec![0x01]);
    assert_eq!(varint(127), vec![0x7f]);
    assert_eq!(varint(128), vec![0x80, 0x01]);
    assert_eq!(varint(255), vec![0xff, 0x01]);
    assert_eq!(varint(300), vec![0xac, 0x02]);
    assert_eq!(varint(25565), vec![0xdd, 0xc7, 0x01]);
    assert_eq!(varint(i32::MAX), vec![0xff, 0xff, 0xff, 0xff, 0x07]);
    assert_eq!(varint(-1), vec![0xff, 0xff, 0xff, 0xff, 0x0f]);
    assert_eq!(varint(i32::MIN), vec![0x80, 0x80, 0x80, 0x80, 0x08]);
}

#[test]
fn varints_are_appended() {
    let mut buf = vec![7];
    write_varint(&mut buf, 300);
    assert_eq!(buf, vec![7, 0xac, 0x02]);
}

#[test]
fn varints_are_read_back() {
    for value in [0, 1, 127, 128, 8192, 8193, i32::MAX, i32::MIN, -1, -300] {
        let mut bytes = varint(value);
        let used = bytes.len();
        bytes.extend_from_slice(&[0xff, 0x00]);
        assert_eq!(read_varint(&bytes), Ok((value, used)));
    }
}

#[test]
fn varints_may_be_padded() {
    assert_eq!(read_varint(&[0x81, 0x80, 0x00]), Ok((1, 3)));
}

#[test]
fn bits_above_the_32nd_are_dropped() {
    assert_eq!(read_varint(&[0xff, 0xff, 0xff, 0xff, 0x7f]), Ok((-1, 5)));
    assert_eq!(read_varint(&[0x80, 0x80, 0x80, 0x80, 0x10]), Ok((0, 5)));
}

#[test]
fn broken_varints_are_refused() {
    assert_eq!(read_varint(&[]), Err(ReadError::UnexpectedEnd));
    assert_eq!(read_varint(&[0x80, 0x80]), Err(ReadError::UnexpectedEnd));
    assert_eq!(read_varint(&[0x80, 0x80, 0x80, 0x80]), Err(ReadError::UnexpectedEnd));
    assert_eq!(
        read_varint(&[0x80, 0x80, 0x80, 0x80, 0x80]),
        Err(ReadError::VarIntTooLong)
    );
    assert_eq!(
        read_varint(&[0x80, 0x80, 0x80, 0x80, 0x80, 0x00]),
        Err(ReadError::VarIntTooLong)
    );
}

#[test]
fn varints_are_read_byte_by_byte() {
    let mut reader = VarIntReader::new();
    assert_eq!(reader.push(0xdd), VarIntStep::More);
    assert_eq!(reader.push(0xc7), VarIntStep::More);
    assert_eq!(reader.push(0x01), VarIntStep::Done(25565));
    assert_eq!(reader.push(0x05), VarIntStep::Done(5));
    for _ in 0..4 {
        assert_eq!(reader.push(0xff), VarIntStep::More);
    }
    assert_eq!(reader.push(0xff), VarIntStep::TooLong);
    assert_eq!(reader.push(0x09), VarIntStep::Done(9));
}

#[test]
fn strings_carry_their_length_in_bytes() {
    let mut buf = vec![9];
    write_string(&mut buf, "h\u{e9}\u{20ac}");
    assert_eq!(buf, vec![9, 6, b'h', 0xc3, 0xa9, 0xe2, 0x82, 0xac]);
}

#[test]
fn longs_have_their_highest_byte_first() {
    let mut buf = vec![1];
    write_u64(&mut buf, 0x0102_0304_0506_0708);
    assert_eq!(buf, vec![1, 1, 2, 3, 4, 5, 6, 7, 8]);
    assert_eq!(read_long(&buf, 1), Ok(0x0102_0304_0506_0708));
    assert_eq!(read_long(&buf, 2), Err(ReadError::UnexpectedEnd));
    let mut buf = Vec::new();
    write_u64(&mut buf, u64::MAX);
    assert_eq!(read_long(&buf, 0), Ok(u64::MAX));
}

#[test]
fn packets_carry_their_length() {
    assert_eq!(packet(&vec![]), vec![0]);
    assert_eq!(packet(&vec![5, 6]), vec![2, 5, 6]);
    let long = packet(&vec![3; 200]);
    assert_eq!(long[..2], [0xc8, 0x01]);
    assert_eq!(long[2..], [3; 200]);
}
