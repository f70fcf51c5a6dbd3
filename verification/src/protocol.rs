//! The wire messages of the protocol, peers, and the host that decides what
//! each arriving datagram calls for.
use crate::address::Address;
use crate::wire::{
    be_bytes, be_layout, be_u32_at, lemma_be_bytes_read_back, lemma_be_layout, read_be_u32_at,
};
use rand::Rng;
use vstd::prelude::*;

verus! {

/// Helps tell datagrams of this protocol from those of another: every
/// message starts with it, as a big-endian `u32`.
pub const MAGIC_NUMBER: u32 = 412;

/// The largest number of bytes that a single datagram is expected to hold
/// (the MTU of Ethernet).
pub const MAX_PACKET_SIZE: usize = 1500;

/// The kind of a wire message, carried in the byte that follows the magic number.
#[derive(Copy, Clone, Debug, PartialEq, Eq, Structural)]
pub enum MessageKind {
    ConnectStart,
    ConnectHandshake,
    ConnectComplete,
    Data,
    Disconnect,
}

/// The wire code of a message kind.
pub open spec fn kind_code(kind: MessageKind) -> u8 {
    match kind {
        MessageKind::ConnectStart => 1,
        MessageKind::ConnectHandshake => 2,
        MessageKind::ConnectComplete => 3,
        MessageKind::Data => 4,
        MessageKind::Disconnect => 5,
    }
}

/// The message kind that a wire code stands for, if any.
pub open spec fn kind_of_code(v: u8) -> Option<MessageKind> {
    if v == 1 {
        Some(MessageKind::ConnectStart)
    } else if v == 2 {
        Some(MessageKind::ConnectHandshake)
    } else if v == 3 {
        Some(MessageKind::ConnectComplete)
    } else if v == 4 {
        Some(MessageKind::Data)
    } else if v == 5 {
        Some(MessageKind::Disconnect)
    } else {
        None
    }
}

impl MessageKind {
    pub fn to_u8(self) -> (code: u8)
        ensures
            code == kind_code(self),
    {
        match self {
            MessageKind::ConnectStart => 1,
            MessageKind::ConnectHandshake => 2,
            MessageKind::ConnectComplete => 3,
            MessageKind::Data => 4,
            MessageKind::Disconnect => 5,
        }
    }

    pub fn from_u8(v: u8) -> (kind: Option<MessageKind>)
        ensures
            kind == kind_of_code(v),
    {
        match v {
            1 => Some(MessageKind::ConnectStart),
            2 => Some(MessageKind::ConnectHandshake),
            3 => Some(MessageKind::ConnectComplete),
            4 => Some(MessageKind::Data),
            5 => Some(MessageKind::Disconnect),
            _ => None,
        }
    }
}

/// Decoding the code of a kind gives the kind back.
pub proof fn lemma_kind_code_round_trip(kind: MessageKind)
    ensures
        kind_of_code(kind_code(kind)) == Some(kind),
{
}

/// A code that decodes to a kind is that kind's code, and the codes that
/// decode are exactly 1 to 5.
pub proof fn lemma_code_kind_round_trip(v: u8)
    ensures
        kind_of_code(v) matches Some(kind) ==> kind_code(kind) == v,
        kind_of_code(v) is Some <==> 1 <= v <= 5,
{
}


/// A message of the protocol.
#[derive(Clone, Debug, PartialEq, Eq)]
pub enum Message {
    ConnectStart,
    ConnectHandshake { num_channels: u8, syns: Vec<u32> },
    ConnectComplete,
    Data { syn: u32, channel: u8, data: Vec<u8> },
    Disconnect,
}

/// A message, with its sequences as mathematical sequences.
pub enum MessageModel {
    ConnectStart,
    ConnectHandshake { num_channels: u8, syns: Seq<u32> },
    ConnectComplete,
    Data { syn: u32, channel: u8, data: Seq<u8> },
    Disconnect,
}

impl View for Message {
    type V = MessageModel;

    open spec fn view(&self) -> MessageModel {
        match self {
            Message::ConnectStart => MessageModel::ConnectStart,
            Message::ConnectHandshake { num_channels, syns } => MessageModel::ConnectHandshake {
                num_channels: *num_channels,
                syns: syns@,
            },
            Message::ConnectComplete => MessageModel::ConnectComplete,
            Message::Data { syn, channel, data } => MessageModel::Data {
                syn: *syn,
                channel: *channel,
                data: data@,
            },
            Message::Disconnect => MessageModel::Disconnect,
        }
    }
}

/// Why a datagram is not a well-formed message.
#[derive(Clone, Copy, Debug, PartialEq, Eq, Structural)]
pub enum ParseError {
    /// The datagram ends before a field that its message needs.
    UnexpectedEof,
    /// The datagram does not start with the magic number.
    MagicMismatch,
    /// The kind byte is not the code of any message kind.
    UnknownMessageType,
    /// A connect handshake announces zero channels.
    ZeroChannels,
    /// Bytes follow the end of the message.
    TrailingData,
}

/// The message whose body starts after the kind byte of `b`, and the
/// offset where the body ends; or why no such message is there.
pub open spec fn body_spec(kind: MessageKind, b: Seq<u8>) -> Result<(MessageModel, int), ParseError> {
    match kind {
        MessageKind::ConnectStart => Ok((MessageModel::ConnectStart, 5)),
        MessageKind::ConnectComplete => Ok((MessageModel::ConnectComplete, 5)),
        MessageKind::Disconnect => Ok((MessageModel::Disconnect, 5)),
        MessageKind::ConnectHandshake => {
            if b.len() < 6 {
                Err(ParseError::UnexpectedEof)
            } else if b[5] == 0 {
                Err(ParseError::ZeroChannels)
            } else if b.len() < 6 + 4 * b[5] {
                Err(ParseError::UnexpectedEof)
            } else {
                Ok(
                    (
                        MessageModel::ConnectHandshake {
                            num_channels: b[5],
                            syns: Seq::new(b[5] as nat, |j: int| be_u32_at(b, 6 + 4 * j)),
                        },
                        6 + 4 * b[5],
                    ),
                )
            }
        },
        MessageKind::Data => {
            if b.len() < 10 {
                Err(ParseError::UnexpectedEof)
            } else {
                Ok(
                    (
                        MessageModel::Data {
                            syn: be_u32_at(b, 5),
                            channel: b[9],
                            data: b.subrange(10, b.len() as int),
                        },
                        b.len() as int,
                    ),
                )
            }
        },
    }
}

/// The message that the datagram `b` holds, or why it holds none.
///
/// A message is the magic number (big-endian `u32`), the kind byte, and
/// the body of that kind: nothing for connect start, connect complete and
/// disconnect; a channel count `n > 0` and `n` big-endian sequence numbers
/// for a connect handshake; a big-endian sequence number, a channel byte
/// and all the remaining bytes for data. No byte may follow the message.
pub open spec fn parse_spec(b: Seq<u8>) -> Result<MessageModel, ParseError> {
    if b.len() < 4 {
        Err(ParseError::UnexpectedEof)
    } else if be_u32_at(b, 0) != MAGIC_NUMBER {
        Err(ParseError::MagicMismatch)
    } else if b.len() < 5 {
        Err(ParseError::UnexpectedEof)
    } else {
        match kind_of_code(b[4]) {
            None => Err(ParseError::UnknownMessageType),
            Some(kind) => match body_spec(kind, b) {
                Err(e) => Err(e),
                Ok((m, end)) => if end == b.len() {
                    Ok(m)
                } else {
                    Err(ParseError::TrailingData)
                },
            },
        }
    }
}

/// Whether `res` is what parsing `b` gives.
pub open spec fn parses_to(b: Seq<u8>, res: Result<Message, ParseError>) -> bool {
    match res {
        Ok(m) => parse_spec(b) == Ok::<MessageModel, ParseError>(m@),
        Err(e) => parse_spec(b) == Err::<MessageModel, ParseError>(e),
    }
}

/// The connection status of a peer.
#[derive(Clone, Copy, Debug, PartialEq, Eq, Structural)]
pub enum PeerState {
    ConnectRequestReceived,
    ConnectRequestSent,
    Connected,
}

/// A message together with the address it goes to.
#[derive(Debug)]
pub struct Packet {
    pub addr: Address,
    pub kind: Message,
}

/// A peer of a `Host`.
#[derive(Debug)]
pub struct Peer {
    /// The current state of this peer.
    pub state: PeerState,
    /// The IP and port of this peer.
    pub addr: Address,
    /// Packets to be sent to this peer at the next opportunity.
    pub outgoing_packets: Vec<Packet>,
    /// Packets that may or may not have been received by this peer.
    pub zombie_packets: Vec<Packet>,
    /// The next sequence numbers expected from the peer.
    pub peer_syns: Vec<u32>,
    /// The next sequence numbers expected from the host.
    pub local_syns: Vec<u32>,
}

impl Peer {
    pub fn new(addr: Address, state: PeerState) -> (peer: Peer)
        ensures
            peer.state == state,
            peer.addr == addr,
            peer.outgoing_packets@.len() == 0,
            peer.zombie_packets@.len() == 0,
            peer.peer_syns@.len() == 0,
            peer.local_syns@.len() == 0,
    {
        Peer {
            state: state,
            addr: addr,
            outgoing_packets: Vec::new(),
            zombie_packets: Vec::new(),
            peer_syns: Vec::new(),
            local_syns: Vec::new(),
        }
    }

    /// The peer set up for a connect start from `addr` on a host with
    /// `num_channels` channels, given the sequence numbers drawn for it: it
    /// has received the request, keeps exactly `syns` as the numbers it
    /// expects, and has a connect handshake with them queued for `addr`.
    pub fn greeted(addr: Address, num_channels: u8, syns: Vec<u32>) -> (peer: Peer)
        requires
            syns@.len() == num_channels,
        ensures
            is_greeted_peer(peer, addr, num_channels),
            peer.local_syns@ == syns@,
    {
        let mut peer = Peer::new(addr, PeerState::ConnectRequestReceived);
        let mut syns = syns;
        peer.local_syns.append(&mut syns);
        let handshake = Message::ConnectHandshake {
            num_channels: num_channels,
            syns: peer.local_syns.clone(),
        };
        peer.outgoing_packets.push(Packet { addr: addr, kind: handshake });
        peer
    }

    /// Queues a packet to be sent.
    pub fn queue_msg(&mut self, packet: Packet)
        ensures
            final(self).outgoing_packets@ == old(self).outgoing_packets@.push(packet),
            final(self).state == old(self).state,
            final(self).addr == old(self).addr,
            final(self).zombie_packets@ == old(self).zombie_packets@,
            final(self).peer_syns@ == old(self).peer_syns@,
            final(self).local_syns@ == old(self).local_syns@,
    {
        self.outgoing_packets.push(packet);
    }
}

/// Declares `rand`'s thread-local generator, which is used as an opaque value.
#[verifier::external_type_specification]
#[verifier::external_body]
pub struct ExThreadRng(rand::rngs::ThreadRng);

/// Calls `rand::thread_rng`, which hands out the calling thread's random
/// number generator (it panics only if the operating system gives no
/// randomness to seed it). Nothing is stated of the generator.
#[verifier::external_body]
fn thread_rng() -> rand::rngs::ThreadRng {
    rand::thread_rng()
}

/// Calls `rand::Rng::gen::<u32>` on the generator: a random `u32`, of which
/// nothing is stated.
#[verifier::external_body]
fn gen_u32(rng: &mut rand::rngs::ThreadRng) -> u32 {
    rng.gen()
}

/// Generates one random sequence number for each channel. There must be at
/// least one channel.
pub fn gen_syns(num_channels: u8) -> (syns: Vec<u32>)
    requires
        num_channels > 0,
    ensures
        syns@.len() == num_channels,
{
    let mut syns: Vec<u32> = Vec::with_capacity(num_channels as usize);
    let mut rng = thread_rng();
    let mut i: u8 = 0;
    while i < num_channels
        invariant
            i <= num_channels,
            syns@.len() == i,
        decreases num_channels - i,
    {
        syns.push(gen_u32(&mut rng));
        i = i + 1;
    }
    syns
}

impl Message {
    /// Generates a connect handshake message for `num_channels` channels,
    /// with a fresh random sequence number for each. There must be at least
    /// one channel.
    pub fn gen_connect_handshake(num_channels: u8) -> (msg: Message)
        requires
            num_channels > 0,
        ensures
            msg@ matches MessageModel::ConnectHandshake { num_channels: n, syns }
                && n == num_channels && syns.len() == num_channels,
    {
        Message::ConnectHandshake { num_channels: num_channels, syns: gen_syns(num_channels) }
    }
}

/// What a host makes of a datagram that arrived.
#[derive(Debug)]
pub enum Reception {
    /// The datagram holds no well-formed message.
    Malformed(ParseError),
    /// The message calls for no action.
    Ignored,
    /// A connect start from an unknown address: the peer set up for it, with
    /// a connect handshake queued. The host does not register it.
    NewPeer(Peer),
}

/// Whether `peer` is the peer set up for a connect start from `addr` on a
/// host with `num_channels` channels: it has received the request, holds
/// one fresh sequence number per channel, and has a connect handshake with
/// those numbers queued for `addr`.
pub open spec fn is_greeted_peer(peer: Peer, addr: Address, num_channels: u8) -> bool {
    &&& peer.state == PeerState::ConnectRequestReceived
    &&& peer.addr == addr
    &&& peer.local_syns@.len() == num_channels
    &&& peer.peer_syns@.len() == 0
    &&& peer.zombie_packets@.len() == 0
    &&& peer.outgoing_packets@.len() == 1
    &&& peer.outgoing_packets@[0].addr == addr
    &&& peer.outgoing_packets@[0].kind@ == MessageModel::ConnectHandshake {
        num_channels: num_channels,
        syns: peer.local_syns@,
    }
}

/// The state of a host: its channels and its peers.
pub struct Host {
    /// Peers currently connected to the host; no two share an address.
    peers: Vec<Peer>,
    /// The number of communication channels available.
    num_channels: u8,
}

impl Host {
    #[verifier::type_invariant]
    spec fn inv(self) -> bool {
        &&& self.num_channels > 0
        &&& forall|i: int, j: int|
            0 <= i < j < self.peers@.len() ==> self.peers@[i].addr != self.peers@[j].addr
    }

    /// The number of channels of the host.
    pub closed spec fn channels(self) -> u8 {
        self.num_channels
    }

    /// Whether a peer with address `addr` is registered.
    pub closed spec fn has_peer(self, addr: Address) -> bool {
        exists|i: int| 0 <= i < self.peers@.len() && self.peers@[i].addr == addr
    }

    /// Makes a host with `num_channels` channels and no peers.
    /// There must be at least one channel.
    pub fn new(num_channels: u8) -> (host: Host)
        requires
            num_channels > 0,
        ensures
            host.channels() == num_channels,
            forall|addr: Address| !host.has_peer(addr),
    {
        Host { peers: Vec::new(), num_channels: num_channels }
    }

    /// Whether a peer with address `addr` is registered.
    pub fn contains_peer(&self, addr: Address) -> (found: bool)
        ensures
            found == self.has_peer(addr),
    {
        let mut i: usize = 0;
        while i < self.peers.len()
            invariant
                i <= self.peers@.len(),
                forall|j: int| 0 <= j < i ==> self.peers@[j].addr != addr,
            decreases self.peers@.len() - i,
        {
            if self.peers[i].addr == addr {
                return true;
            }
            i = i + 1;
        }
        false
    }

    /// Decides what to do with the datagram `buf` that arrived from `addr`.
    ///
    /// A datagram that holds no message is reported with its parse error. A
    /// connect start from an address with no registered peer gets a new peer
    /// in the connect-request-received state, with fresh sequence numbers
    /// and a connect handshake queued; every other message is ignored. The
    /// host itself is left as it was: the new peer is handed back, not
    /// registered.
    pub fn process_datagram(&mut self, buf: &[u8], addr: Address) -> (res: Reception)
        ensures
            *final(self) == *old(self),
            parse_spec(buf@) matches Err(e) ==> res == Reception::Malformed(e),
            parse_spec(buf@) == Ok::<MessageModel, ParseError>(MessageModel::ConnectStart)
                && !old(self).has_peer(addr) ==> (res matches Reception::NewPeer(peer)
                && is_greeted_peer(peer, addr, old(self).channels())),
            parse_spec(buf@) is Ok && !(parse_spec(buf@) == Ok::<MessageModel, ParseError>(
                MessageModel::ConnectStart,
            ) && !old(self).has_peer(addr)) ==> res is Ignored,
    {
        proof {
            use_type_invariant(&*self);
        }
        let message = match self.parse_message(buf) {
            Ok(m) => m,
            Err(e) => return Reception::Malformed(e),
        };
        match message {
            Message::ConnectStart => {
                // A registered peer has already been greeted.
                if self.contains_peer(addr) {
                    return Reception::Ignored;
                }
                let syns = gen_syns(self.num_channels);
                Reception::NewPeer(Peer::greeted(addr, self.num_channels, syns))
            },
            _ => Reception::Ignored,
        }
    }
}

/// Appending bytes to a well-formed datagram: a data message takes them
/// into its payload, and every other message is then rejected for
/// trailing data.
pub proof fn lemma_parse_appended(b: Seq<u8>, extra: Seq<u8>)
    requires
        parse_spec(b) is Ok,
        extra.len() > 0,
    ensures
        match parse_spec(b) {
            Ok(MessageModel::Data { syn, channel, data }) => parse_spec(b + extra) == Ok::<
                MessageModel,
                ParseError,
            >(MessageModel::Data { syn, channel, data: data + extra }),
            _ => parse_spec(b + extra) == Err::<MessageModel, ParseError>(
                ParseError::TrailingData,
            ),
        },
{
    let c = b + extra;
    assert(forall|i: int| 0 <= i < b.len() ==> c[i] == b[i]);
    assert(be_u32_at(c, 0) == be_u32_at(b, 0));
    assert(c[4] == b[4]);
    let kind = kind_of_code(b[4])->Some_0;
    match kind {
        MessageKind::Data => {
            assert(be_u32_at(c, 5) == be_u32_at(b, 5));
            assert(c.subrange(10, c.len() as int) =~= b.subrange(10, b.len() as int) + extra);
        },
        MessageKind::ConnectHandshake => {
            assert(c[5] == b[5]);
            let n = b[5];
            assert(Seq::new(n as nat, |j: int| be_u32_at(c, 6 + 4 * j)) =~= Seq::new(
                n as nat,
                |j: int| be_u32_at(b, 6 + 4 * j),
            )) by {
                assert forall|j: int| 0 <= j < n implies #[trigger] be_u32_at(c, 6 + 4 * j) == be_u32_at(
                    b,
                    6 + 4 * j,
                ) by {
                    assert(c[6 + 4 * j] == b[6 + 4 * j]);
                    assert(c[6 + 4 * j + 1] == b[6 + 4 * j + 1]);
                    assert(c[6 + 4 * j + 2] == b[6 + 4 * j + 2]);
                    assert(c[6 + 4 * j + 3] == b[6 + 4 * j + 3]);
                }
            }
        },
        _ => {},
    }
}

/// The first four bytes of every message: the magic number, big-endian.
pub open spec fn magic_bytes() -> Seq<u8> {
    seq![0u8, 0, 1, 0x9c]
}

/// The `u32` read big-endian at `i` is `v` when the four bytes there are
/// those of `v`.
proof fn lemma_be_read_at(b: Seq<u8>, i: int, v: u32)
    requires
        0 <= i,
        i + 4 <= b.len(),
        b[i] == be_bytes(v)[0],
        b[i + 1] == be_bytes(v)[1],
        b[i + 2] == be_bytes(v)[2],
        b[i + 3] == be_bytes(v)[3],
    ensures
        be_u32_at(b, i) == v,
{
    lemma_be_bytes_read_back(v);
}

/// A connect start, connect complete or disconnect is the magic number and
/// the kind's code, nothing more.
pub proof fn lemma_parse_bodiless_messages()
    ensures
        parse_spec(magic_bytes().push(1)) == Ok::<MessageModel, ParseError>(
            MessageModel::ConnectStart,
        ),
        parse_spec(magic_bytes().push(3)) == Ok::<MessageModel, ParseError>(
            MessageModel::ConnectComplete,
        ),
        parse_spec(magic_bytes().push(5)) == Ok::<MessageModel, ParseError>(
            MessageModel::Disconnect,
        ),
{
    assert(be_u32_at(magic_bytes().push(1), 0) == 412);
    assert(be_u32_at(magic_bytes().push(3), 0) == 412);
    assert(be_u32_at(magic_bytes().push(5), 0) == 412);
}

/// A data message laid out on the wire (magic number, code 4, the sequence
/// number big-endian, the channel, the payload) parses back to exactly its
/// sequence number, channel and payload.
pub proof fn lemma_parse_data_message(syn: u32, channel: u8, payload: Seq<u8>)
    ensures
        parse_spec(magic_bytes().push(4) + be_bytes(syn) + seq![channel] + payload) == Ok::<
            MessageModel,
            ParseError,
        >(MessageModel::Data { syn, channel, data: payload }),
{
    let b = magic_bytes().push(4) + be_bytes(syn) + seq![channel] + payload;
    assert(b.len() == 10 + payload.len());
    assert(be_u32_at(b, 0) == 412);
    assert(b[4] == 4);
    lemma_be_read_at(b, 5, syn);
    assert(b[9] == channel);
    assert(b.subrange(10, b.len() as int) =~= payload);
}

/// A connect handshake laid out on the wire (magic number, code 2, the
/// channel count, then each sequence number big-endian) parses back to
/// exactly its sequence numbers, for any one to 255 of them.
pub proof fn lemma_parse_handshake_message(syns: Seq<u32>)
    requires
        0 < syns.len() <= 255,
    ensures
        parse_spec(magic_bytes() + seq![2u8, syns.len() as u8] + be_layout(syns)) == Ok::<
            MessageModel,
            ParseError,
        >(MessageModel::ConnectHandshake { num_channels: syns.len() as u8, syns }),
{
    let n = syns.len() as u8;
    let tail = be_layout(syns);
    let b = magic_bytes() + seq![2u8, n] + tail;
    lemma_be_layout(syns);
    assert(b.len() == 6 + 4 * n);
    assert(be_u32_at(b, 0) == 412);
    assert(b[4] == 2 && b[5] == n);
    assert forall|j: int| 0 <= j < n implies #[trigger] be_u32_at(b, 6 + 4 * j) == syns[j] by {
        assert(tail[4 * j + 0] == be_bytes(syns[j])[0]);
        assert(tail[4 * j + 1] == be_bytes(syns[j])[1]);
        assert(tail[4 * j + 2] == be_bytes(syns[j])[2]);
        assert(tail[4 * j + 3] == be_bytes(syns[j])[3]);
        lemma_be_read_at(b, 6 + 4 * j, syns[j]);
    }
    assert(Seq::new(n as nat, |j: int| be_u32_at(b, 6 + 4 * j)) =~= syns);
}

/// A datagram of four bytes or more that does not start with the magic
/// number is rejected for it.
pub proof fn lemma_parse_rejects_foreign(b: Seq<u8>)
    requires
        b.len() >= 4,
        b.subrange(0, 4) != magic_bytes(),
    ensures
        parse_spec(b) == Err::<MessageModel, ParseError>(ParseError::MagicMismatch),
{
    if be_u32_at(b, 0) == 412 {
        assert(b.subrange(0, 4) =~= magic_bytes());
    }
}

impl Host {
    /// Parses the datagram `buf` into a message. The host is left as it was.
    pub fn parse_message(&mut self, buf: &[u8]) -> (res: Result<Message, ParseError>)
        ensures
            *final(self) == *old(self),
            parses_to(buf@, res),
    {
        let len = buf.len();
        if len < 4 {
            return Err(ParseError::UnexpectedEof);
        }
        if read_be_u32_at(buf, 0) != MAGIC_NUMBER {
            return Err(ParseError::MagicMismatch);
        }
        if len < 5 {
            return Err(ParseError::UnexpectedEof);
        }
        let kind = match MessageKind::from_u8(buf[4]) {
            Some(kind) => kind,
            None => return Err(ParseError::UnknownMessageType),
        };
        let (msg, end): (Message, usize) = match kind {
            MessageKind::ConnectStart => (Message::ConnectStart, 5),
            MessageKind::ConnectHandshake => {
                if len < 6 {
                    return Err(ParseError::UnexpectedEof);
                }
                let num_channels = buf[5];
                if num_channels == 0 {
                    return Err(ParseError::ZeroChannels);
                }
                let mut syns: Vec<u32> = Vec::new();
                let mut pos: usize = 6;
                let mut i: u8 = 0;
                while i < num_channels
                    invariant
                        len == buf@.len(),
                        6 <= len,
                        be_u32_at(buf@, 0) == MAGIC_NUMBER,
                        kind_of_code(buf@[4]) == Some(MessageKind::ConnectHandshake),
                        num_channels == buf@[5],
                        i <= num_channels,
                        pos == 6 + 4 * i,
                        pos <= len,
                        syns@.len() == i,
                        forall|j: int| 0 <= j < i ==> syns@[j] == be_u32_at(buf@, 6 + 4 * j),
                    decreases num_channels - i,
                {
                    if len < pos + 4 {
                        return Err(ParseError::UnexpectedEof);
                    }
                    syns.push(read_be_u32_at(buf, pos));
                    pos = pos + 4;
                    i = i + 1;
                }
                assert(syns@ =~= Seq::new(num_channels as nat, |j: int| be_u32_at(buf@, 6 + 4 * j)));
                let msg = Message::ConnectHandshake { num_channels, syns };
                assert(body_spec(kind, buf@) == Ok::<(MessageModel, int), ParseError>((msg@, pos as int)));
                (msg, pos)
            },
            MessageKind::Data => {
                if len < 10 {
                    return Err(ParseError::UnexpectedEof);
                }
                let syn = read_be_u32_at(buf, 5);
                let channel = buf[9];
                let data = vstd::slice::slice_to_vec(vstd::slice::slice_subrange(buf, 10, len));
                let msg = Message::Data { syn, channel, data };
                assert(body_spec(kind, buf@) == Ok::<(MessageModel, int), ParseError>((msg@, len as int)));
                (msg, len)
            },
            MessageKind::Disconnect => (Message::Disconnect, 5),
            MessageKind::ConnectComplete => (Message::ConnectComplete, 5),
        };
        if end != len {
            Err(ParseError::TrailingData)
        } else {
            Ok(msg)
        }
    }
}

} // verus!
