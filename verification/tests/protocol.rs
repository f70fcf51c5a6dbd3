use udpnet::address::Address;
use udpnet::protocol::{
    gen_syns, Host, Message, MessageKind, Packet, ParseError, Peer, PeerState, Reception,
    MAGIC_NUMBER, MAX_PACKET_SIZE,
};

fn magic() -> Vec<u8> {
    MAGIC_NUMBER.to_be_bytes().to_vec()
}

fn datagram(rest: &[u8]) -> Vec<u8> {
    let mut v = magic();
    v.extend_from_slice(rest);
    v
}

fn addr() -> Address {
    Address::V4 { ipv4: 0x7f000001, port: 9001 }
}

#[test]
fn can_create_host() {
    let mut host = Host::new(1);
    assert!(!host.contains_peer(addr()));
    assert!(matches!(host.parse_message(&datagram(&[1])), Ok(Message::ConnectStart)));
}

#[test]
fn constants() {
    assert_eq!(MAGIC_NUMBER, 412);
    assert_eq!(MAX_PACKET_SIZE, 1500);
    assert_eq!(magic(), vec![0, 0, 1, 0x9c]);
}

#[test]
fn kind_codes() {
    let kinds = [
        (MessageKind::ConnectStart, 1u8),
        (MessageKind::ConnectHandshake, 2),
        (MessageKind::ConnectComplete, 3),
        (MessageKind::Data, 4),
        (MessageKind::Disconnect, 5),
    ];
    for (kind, code) in kinds {
        assert_eq!(kind.to_u8(), code);
        assert_eq!(MessageKind::from_u8(code), Some(kind));
        assert_eq!(MessageKind::from_u8(kind.to_u8()), Some(kind));
    }
    assert_eq!(MessageKind::from_u8(0), None);
    assert_eq!(MessageKind::from_u8(6), None);
    assert_eq!(MessageKind::from_u8(255), None);
}

#[test]
fn parse_unit_messages() {
    let mut host = Host::new(3);
    assert_eq!(host.parse_message(&datagram(&[1])), Ok(Message::ConnectStart));
    assert_eq!(host.parse_message(&datagram(&[3])), Ok(Message::ConnectComplete));
    assert_eq!(host.parse_message(&datagram(&[5])), Ok(Message::Disconnect));
}

#[test]
fn parse_handshake() {
    let mut host = Host::new(3);
    let buf = datagram(&[2, 2, 0, 0, 0, 7, 0x01, 0x02, 0x03, 0x04]);
    assert_eq!(
        host.parse_message(&buf),
        Ok(Message::ConnectHandshake { num_channels: 2, syns: vec![7, 0x01020304] })
    );
}

#[test]
fn parse_data() {
    let mut host = Host::new(3);
    let buf = datagram(&[4, 0, 0, 1, 0, 9, 10, 20, 30]);
    assert_eq!(
        host.parse_message(&buf),
        Ok(Message::Data { syn: 256, channel: 9, data: vec![10, 20, 30] })
    );
    let empty = datagram(&[4, 0xff, 0xff, 0xff, 0xff, 0]);
    assert_eq!(
        host.parse_message(&empty),
        Ok(Message::Data { syn: u32::MAX, channel: 0, data: vec![] })
    );
}

#[test]
fn parse_errors() {
    let mut host = Host::new(1);
    assert_eq!(host.parse_message(&[]), Err(ParseError::UnexpectedEof));
    assert_eq!(host.parse_message(&[0, 0, 1]), Err(ParseError::UnexpectedEof));
    assert_eq!(host.parse_message(&[0, 0, 1, 0x9d, 1]), Err(ParseError::MagicMismatch));
    assert_eq!(host.parse_message(&[0x9c, 1, 0, 0, 1]), Err(ParseError::MagicMismatch));
    assert_eq!(host.parse_message(&magic()), Err(ParseError::UnexpectedEof));
    assert_eq!(host.parse_message(&datagram(&[0])), Err(ParseError::UnknownMessageType));
    assert_eq!(host.parse_message(&datagram(&[6])), Err(ParseError::UnknownMessageType));
    assert_eq!(host.parse_message(&datagram(&[2])), Err(ParseError::UnexpectedEof));
    assert_eq!(host.parse_message(&datagram(&[2, 0])), Err(ParseError::ZeroChannels));
    assert_eq!(host.parse_message(&datagram(&[2, 1, 0, 0, 0])), Err(ParseError::UnexpectedEof));
    assert_eq!(host.parse_message(&datagram(&[4, 0, 0, 0, 0])), Err(ParseError::UnexpectedEof));
    assert_eq!(host.parse_message(&datagram(&[1, 0])), Err(ParseError::TrailingData));
    assert_eq!(
        host.parse_message(&datagram(&[2, 1, 0, 0, 0, 1, 9])),
        Err(ParseError::TrailingData)
    );
}

#[test]
fn appended_bytes() {
    let mut host = Host::new(1);
    // A data message takes appended bytes into its payload.
    let mut buf = datagram(&[4, 0, 0, 0, 5, 1, 7]);
    buf.extend_from_slice(&[8, 9]);
    assert_eq!(
        host.parse_message(&buf),
        Ok(Message::Data { syn: 5, channel: 1, data: vec![7, 8, 9] })
    );
    // Any other message is rejected.
    for base in [vec![1u8], vec![3], vec![5], vec![2, 1, 0, 0, 0, 1]] {
        let mut buf = datagram(&base);
        assert!(host.parse_message(&buf).is_ok());
        buf.push(0);
        assert_eq!(host.parse_message(&buf), Err(ParseError::TrailingData));
    }
}

#[test]
fn syns_per_channel() {
    for n in [1u8, 2, 7, 255] {
        assert_eq!(gen_syns(n).len(), n as usize);
    }
}

#[test]
fn connect_handshake_message() {
    match Message::gen_connect_handshake(4) {
        Message::ConnectHandshake { num_channels, syns } => {
            assert_eq!(num_channels, 4);
            assert_eq!(syns.len(), 4);
        }
        other => panic!("unexpected {:?}", other),
    }
}

#[test]
fn peer_queue() {
    let mut peer = Peer::new(addr(), PeerState::Connected);
    assert_eq!(peer.state, PeerState::Connected);
    assert_eq!(peer.addr, addr());
    assert!(peer.outgoing_packets.is_empty());
    peer.queue_msg(Packet { addr: addr(), kind: Message::Disconnect });
    peer.queue_msg(Packet { addr: addr(), kind: Message::ConnectComplete });
    assert_eq!(peer.outgoing_packets.len(), 2);
    assert_eq!(peer.outgoing_packets[0].kind, Message::Disconnect);
    assert_eq!(peer.outgoing_packets[1].kind, Message::ConnectComplete);
    assert!(peer.zombie_packets.is_empty());
    assert!(peer.local_syns.is_empty());
    assert!(peer.peer_syns.is_empty());
}

#[test]
fn connect_start_greets_new_peer() {
    let mut host = Host::new(3);
    match host.process_datagram(&datagram(&[1]), addr()) {
        Reception::NewPeer(peer) => {
            assert_eq!(peer.state, PeerState::ConnectRequestReceived);
            assert_eq!(peer.addr, addr());
            assert_eq!(peer.local_syns.len(), 3);
            assert!(peer.peer_syns.is_empty());
            assert!(peer.zombie_packets.is_empty());
            assert_eq!(peer.outgoing_packets.len(), 1);
            assert_eq!(peer.outgoing_packets[0].addr, addr());
            assert_eq!(
                peer.outgoing_packets[0].kind,
                Message::ConnectHandshake { num_channels: 3, syns: peer.local_syns.clone() }
            );
        }
        other => panic!("unexpected {:?}", other),
    }
    // The host does not register the peer.
    assert!(!host.contains_peer(addr()));
}

#[test]
fn other_datagrams() {
    let mut host = Host::new(2);
    assert!(matches!(
        host.process_datagram(&[1, 2, 3], addr()),
        Reception::Malformed(ParseError::UnexpectedEof)
    ));
    assert!(matches!(
        host.process_datagram(&datagram(&[9]), addr()),
        Reception::Malformed(ParseError::UnknownMessageType)
    ));
    for rest in [vec![3u8], vec![5], vec![2, 1, 0, 0, 0, 1], vec![4, 0, 0, 0, 1, 0, 5]] {
        assert!(matches!(host.process_datagram(&datagram(&rest), addr()), Reception::Ignored));
    }
}

#[test]
fn addresses_compare_fully() {
    let a = Address::V6 { ipv6: 1, port: 80, flowinfo: 0, scope_id: 0 };
    let b = Address::V6 { ipv6: 1, port: 80, flowinfo: 0, scope_id: 1 };
    assert_ne!(a, b);
    assert_ne!(Address::V4 { ipv4: 1, port: 80 }, Address::V4 { ipv4: 1, port: 81 });
}
