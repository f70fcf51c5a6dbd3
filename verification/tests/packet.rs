use udpnet::address::Address;
use udpnet::packet::{
    Channels, Message, MessageError, Packet, PacketBuffer, PacketHeader, HEADER_SIZE,
    MAGIC_NUMBER, MAX_PACKET_SIZE,
};

fn src() -> Address {
    Address::V6 { ipv6: 0x2001_0db8 << 96, port: 4000, flowinfo: 0, scope_id: 0 }
}

fn packet(bytes: &[u8]) -> Packet {
    let mut buf = vec![0u8; MAX_PACKET_SIZE];
    buf[..bytes.len()].copy_from_slice(bytes);
    Packet::new(PacketBuffer::new(buf, bytes.len()), src())
}

fn native(v: u32) -> [u8; 4] {
    v.to_ne_bytes()
}

fn header(seq: u32, magic: u8, channel: u8, kind: u8) -> Vec<u8> {
    let mut v = native(seq).to_vec();
    v.extend_from_slice(&[magic, channel, kind, 0]);
    v
}

#[test]
fn packet_constants() {
    assert_eq!(MAGIC_NUMBER, 8);
    assert_eq!(MAX_PACKET_SIZE, 1500);
    assert_eq!(HEADER_SIZE, 8);
}

#[test]
fn header_fields() {
    let p = packet(&header(0x01020304, 8, 3, 1));
    assert_eq!(
        p.header(),
        Ok(PacketHeader { seq_num: 0x01020304, magic_number: 8, channel: 3, message_type: 1 })
    );
    assert_eq!(p.addr(), src());
}

#[test]
fn header_needs_eight_bytes() {
    assert_eq!(packet(&[1, 2, 3, 4, 8, 0, 0]).header(), Err(MessageError::NotEnoughData));
    assert_eq!(packet(&[]).header(), Err(MessageError::NotEnoughData));
    assert!(packet(&[1, 2, 3, 4, 8, 0, 0, 0]).header().is_ok());
}

#[test]
fn channels_read() {
    let mut bytes = header(1, 8, 0, 1);
    bytes.push(2);
    bytes.extend_from_slice(&native(77));
    bytes.extend_from_slice(&native(0xdeadbeef));
    assert_eq!(
        packet(&bytes).channels(),
        Ok(Channels { num_channels: 2, seq_nums: vec![77, 0xdeadbeef] })
    );
    // Zero channels: just the count.
    let mut none = header(1, 8, 0, 1);
    none.push(0);
    assert_eq!(packet(&none).channels(), Ok(Channels { num_channels: 0, seq_nums: vec![] }));
}

#[test]
fn channels_need_their_bytes() {
    let bytes = header(1, 8, 0, 1);
    assert_eq!(packet(&bytes).channels(), Err(MessageError::NotEnoughData));
    let mut short = header(1, 8, 0, 1);
    short.push(2);
    short.extend_from_slice(&native(77));
    short.extend_from_slice(&[1, 2, 3]);
    assert_eq!(packet(&short).channels(), Err(MessageError::NotEnoughData));
}

#[test]
fn message_connect_start() {
    let p = packet(&header(5, 8, 0, 0));
    assert_eq!(Message::from_packet(&p), Ok(Message::ConnectStart { src: src() }));
}

#[test]
fn message_connect_confirm_and_complete() {
    for (kind, confirm) in [(1u8, true), (2u8, false)] {
        let mut bytes = header(5, 8, 0, kind);
        bytes.push(1);
        bytes.extend_from_slice(&native(0x0a0b0c0d));
        let expected = if confirm {
            Message::ConnectConfirm { num_channels: 1, seq_nums: vec![0x0a0b0c0d] }
        } else {
            Message::ConnectComplete { num_channels: 1, seq_nums: vec![0x0a0b0c0d] }
        };
        assert_eq!(Message::from_packet(&packet(&bytes)), Ok(expected));
    }
}

#[test]
fn message_errors() {
    assert_eq!(Message::from_packet(&packet(&[0; 7])), Err(MessageError::NotEnoughData));
    assert_eq!(
        Message::from_packet(&packet(&header(5, 9, 0, 0))),
        Err(MessageError::InvalidHeader)
    );
    assert_eq!(
        Message::from_packet(&packet(&header(5, 8, 0, 3))),
        Err(MessageError::UnknownMessageType)
    );
    assert_eq!(
        Message::from_packet(&packet(&header(5, 8, 0, 1))),
        Err(MessageError::NotEnoughData)
    );
}
