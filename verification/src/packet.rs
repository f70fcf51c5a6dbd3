//! Datagrams read in place: a fixed header in the machine's layout,
//! followed for some messages by a channel count and sequence numbers.
use crate::address::Address;
use crate::wire::{
    be_bytes, be_layout, be_u32_at, is_native_u32_at, le_u32_at, lemma_be_bytes_read_back,
    lemma_be_bytes_read_swapped, lemma_be_layout, native_order_is_little, read_be_u32_at,
    read_le_u32_at, read_native_u32_at, swap_bytes,
};
use vstd::prelude::*;

verus! {

/// Has to match in the same place in every packet.
pub const MAGIC_NUMBER: u8 = 8;

/// The size of the buffers used for receiving packets (the MTU of Ethernet).
pub const MAX_PACKET_SIZE: usize = 1500;

/// The size of the header: a `u32` sequence number, three bytes, and one
/// byte of padding that aligns the header to its `u32`.
pub const HEADER_SIZE: usize = 8;

/// Why a packet holds no message.
#[derive(Clone, Copy, Debug, PartialEq, Eq, Structural)]
pub enum MessageError {
    /// The magic number in the header does not match.
    InvalidHeader,
    /// The packet is too short for what it announces.
    NotEnoughData,
    /// The message type in the header is unknown.
    UnknownMessageType,
}

/// The header at the start of every packet.
#[derive(Clone, Copy, Debug, PartialEq, Eq, Structural)]
pub struct PacketHeader {
    pub seq_num: u32,
    pub magic_number: u8,
    pub channel: u8,
    pub message_type: u8,
}

/// Whether `h` is the header laid out at the start of `b`: the sequence
/// number in the machine's byte order in bytes 0 to 3, then the magic
/// number, the channel and the message type.
pub open spec fn is_header_of(b: Seq<u8>, h: PacketHeader) -> bool {
    &&& is_native_u32_at(b, 0, h.seq_num)
    &&& h.magic_number == b[4]
    &&& h.channel == b[5]
    &&& h.message_type == b[6]
}

/// The channel count and sequence numbers that follow the header.
#[derive(Clone, Debug, PartialEq, Eq)]
pub struct Channels {
    pub num_channels: u8,
    pub seq_nums: Vec<u32>,
}

/// Whether the packet `b` is long enough for its channel count (the byte
/// after the header) and the sequence numbers that the count announces.
pub open spec fn has_channels(b: Seq<u8>) -> bool {
    b.len() >= 9 && b.len() >= 9 + 4 * b[8]
}

/// Whether `vals` are the `u32`s laid out one after another from `start` in
/// `b`, all read in the same one of the two byte orders.
pub open spec fn in_one_byte_order(b: Seq<u8>, start: int, vals: Seq<u32>) -> bool {
    ||| forall|i: int| 0 <= i < vals.len() ==> #[trigger] vals[i] == le_u32_at(b, start + 4 * i)
    ||| forall|i: int| 0 <= i < vals.len() ==> #[trigger] vals[i] == be_u32_at(b, start + 4 * i)
}

/// Whether `num_channels` and `seq_nums` are the channel count of `b` and
/// its sequence numbers, each a `u32` in the machine's byte order, which is
/// the same for all of them.
pub open spec fn are_channels_of(b: Seq<u8>, num_channels: u8, seq_nums: Seq<u32>) -> bool {
    &&& num_channels == b[8]
    &&& seq_nums.len() == num_channels
    &&& forall|i: int| 0 <= i < seq_nums.len() ==> is_native_u32_at(b, 9 + 4 * i, #[trigger] seq_nums[i])
    &&& in_one_byte_order(b, 9, seq_nums)
}

/// Channels laid out after a header (the count, then each sequence number
/// big-endian) read back either all as the numbers laid out or all with
/// their bytes swapped: the machine's one byte order for every number, never
/// a mix.
pub proof fn lemma_channels_read_back(
    header: Seq<u8>,
    vals: Seq<u32>,
    num_channels: u8,
    seq_nums: Seq<u32>,
)
    requires
        header.len() == HEADER_SIZE,
        vals.len() <= 255,
        are_channels_of(header.push(vals.len() as u8) + be_layout(vals), num_channels, seq_nums),
    ensures
        has_channels(header.push(vals.len() as u8) + be_layout(vals)),
        num_channels == vals.len(),
        seq_nums == vals || seq_nums == vals.map_values(|v: u32| swap_bytes(v)),
{
    let b = header.push(vals.len() as u8) + be_layout(vals);
    let tail = be_layout(vals);
    lemma_be_layout(vals);
    assert(b[8] == vals.len());
    assert forall|i: int| 0 <= i < vals.len() implies be_u32_at(b, 9 + 4 * i) == #[trigger] vals[i]
        && le_u32_at(b, 9 + 4 * i) == swap_bytes(vals[i]) by {
        let v = vals[i];
        assert(tail[4 * i + 0] == be_bytes(v)[0]);
        assert(tail[4 * i + 1] == be_bytes(v)[1]);
        assert(tail[4 * i + 2] == be_bytes(v)[2]);
        assert(tail[4 * i + 3] == be_bytes(v)[3]);
        assert(b[9 + 4 * i] == tail[4 * i + 0]);
        assert(b[9 + 4 * i + 1] == tail[4 * i + 1]);
        assert(b[9 + 4 * i + 2] == tail[4 * i + 2]);
        assert(b[9 + 4 * i + 3] == tail[4 * i + 3]);
        lemma_be_bytes_read_back(v);
        lemma_be_bytes_read_swapped(v);
    }
    if forall|i: int| 0 <= i < seq_nums.len() ==> #[trigger] seq_nums[i] == le_u32_at(b, 9 + 4 * i) {
        assert(seq_nums =~= vals.map_values(|v: u32| swap_bytes(v)));
    } else {
        assert(seq_nums =~= vals);
    }
}

/// The bytes of a received packet: a buffer of `MAX_PACKET_SIZE` bytes of
/// which the first `len` were received.
pub struct PacketBuffer {
    buf: Vec<u8>,
    len: usize,
}

impl PacketBuffer {
    #[verifier::type_invariant]
    spec fn inv(self) -> bool {
        self.buf@.len() == MAX_PACKET_SIZE && self.len <= MAX_PACKET_SIZE
    }

    /// The bytes that were received.
    pub closed spec fn bytes(self) -> Seq<u8> {
        self.buf@.subrange(0, self.len as int)
    }

    /// A buffer of `MAX_PACKET_SIZE` bytes into which `len` bytes were received.
    pub fn new(buf: Vec<u8>, len: usize) -> (res: PacketBuffer)
        requires
            buf@.len() == MAX_PACKET_SIZE,
            len <= MAX_PACKET_SIZE,
        ensures
            res.bytes() == buf@.subrange(0, len as int),
    {
        PacketBuffer { buf, len }
    }

    /// The header of the packet, if the packet is long enough to hold one.
    pub fn metadata(&self) -> (res: Result<PacketHeader, MessageError>)
        ensures
            self.bytes().len() < HEADER_SIZE ==> res == Err::<PacketHeader, MessageError>(
                MessageError::NotEnoughData,
            ),
            self.bytes().len() >= HEADER_SIZE ==> (res matches Ok(h) && is_header_of(
                self.bytes(),
                h,
            )),
    {
        proof {
            use_type_invariant(self);
        }
        if self.len < HEADER_SIZE {
            return Err(MessageError::NotEnoughData);
        }
        let bytes = vstd::slice::slice_subrange(self.buf.as_slice(), 0, self.len);
        assert(bytes@ == self.bytes());
        Ok(
            PacketHeader {
                seq_num: read_native_u32_at(bytes, 0),
                magic_number: bytes[4],
                channel: bytes[5],
                message_type: bytes[6],
            },
        )
    }

    /// The channel count after the header and the sequence numbers that
    /// follow it, if the packet is long enough to hold them.
    pub fn channels(&self) -> (res: Result<Channels, MessageError>)
        ensures
            !has_channels(self.bytes()) ==> res == Err::<Channels, MessageError>(
                MessageError::NotEnoughData,
            ),
            has_channels(self.bytes()) ==> (res matches Ok(c) && are_channels_of(
                self.bytes(),
                c.num_channels,
                c.seq_nums@,
            )),
    {
        proof {
            use_type_invariant(self);
        }
        let offset = HEADER_SIZE;
        // Make sure the number of channels can be read.
        if self.len < offset + 1 {
            return Err(MessageError::NotEnoughData);
        }
        let bytes = vstd::slice::slice_subrange(self.buf.as_slice(), 0, self.len);
        assert(bytes@ == self.bytes());
        let num_channels = bytes[offset];
        // Make sure all the sequence numbers of the channels can be read.
        if self.len < offset + 1 + (num_channels as usize) * 4 {
            return Err(MessageError::NotEnoughData);
        }
        let little = native_order_is_little();
        let mut seq_nums: Vec<u32> = Vec::with_capacity(num_channels as usize);
        let mut i: usize = 0;
        while i < num_channels as usize
            invariant
                bytes@ == self.bytes(),
                offset == HEADER_SIZE,
                bytes@.len() >= 9 + 4 * num_channels,
                num_channels == bytes@[8],
                i <= num_channels,
                seq_nums@.len() == i,
                little ==> forall|k: int|
                    0 <= k < i ==> #[trigger] seq_nums@[k] == le_u32_at(bytes@, 9 + 4 * k),
                !little ==> forall|k: int|
                    0 <= k < i ==> #[trigger] seq_nums@[k] == be_u32_at(bytes@, 9 + 4 * k),
            decreases num_channels - i,
        {
            // Every sequence number is read in the machine's one byte order.
            let seq_num = if little {
                read_le_u32_at(bytes, offset + 1 + 4 * i)
            } else {
                read_be_u32_at(bytes, offset + 1 + 4 * i)
            };
            seq_nums.push(seq_num);
            i = i + 1;
        }
        Ok(Channels { num_channels: num_channels, seq_nums: seq_nums })
    }
}

/// A received packet and the address it came from.
pub struct Packet {
    buf: PacketBuffer,
    addr: Address,
}

impl Packet {
    /// The received bytes of the packet.
    pub closed spec fn bytes(self) -> Seq<u8> {
        self.buf.bytes()
    }

    /// The address the packet came from.
    pub closed spec fn source(self) -> Address {
        self.addr
    }

    /// The packet whose bytes were received into `buf` from `addr`.
    pub fn new(buf: PacketBuffer, addr: Address) -> (packet: Packet)
        ensures
            packet.bytes() == buf.bytes(),
            packet.source() == addr,
    {
        Packet { buf, addr }
    }

    pub fn addr(&self) -> (addr: Address)
        ensures
            addr == self.source(),
    {
        self.addr
    }

    pub fn header(&self) -> (res: Result<PacketHeader, MessageError>)
        ensures
            self.bytes().len() < HEADER_SIZE ==> res == Err::<PacketHeader, MessageError>(
                MessageError::NotEnoughData,
            ),
            self.bytes().len() >= HEADER_SIZE ==> (res matches Ok(h) && is_header_of(
                self.bytes(),
                h,
            )),
    {
        self.buf.metadata()
    }

    pub fn channels(&self) -> (res: Result<Channels, MessageError>)
        ensures
            !has_channels(self.bytes()) ==> res == Err::<Channels, MessageError>(
                MessageError::NotEnoughData,
            ),
            has_channels(self.bytes()) ==> (res matches Ok(c) && are_channels_of(
                self.bytes(),
                c.num_channels,
                c.seq_nums@,
            )),
    {
        self.buf.channels()
    }
}

/// A message of the connection handshake.
#[derive(Clone, Debug, PartialEq, Eq)]
pub enum Message {
    /// Sent at the start of the connection handshake.
    ConnectStart { src: Address },
    /// Sent in response to handshake start.
    ConnectConfirm { num_channels: u8, seq_nums: Vec<u32> },
    /// Sent to confirm complete connection.
    ConnectComplete { num_channels: u8, seq_nums: Vec<u32> },
}

/// Whether `res` is what reading a message out of the packet `b` received
/// from `addr` gives: the header must be there and carry the magic number;
/// message type 0 is a connect start from `addr`, types 1 and 2 a connect
/// confirm and a connect complete with the channels that follow the
/// header; any other type is unknown.
pub open spec fn is_message_of(b: Seq<u8>, addr: Address, res: Result<Message, MessageError>) -> bool {
    if b.len() < HEADER_SIZE {
        res == Err::<Message, MessageError>(MessageError::NotEnoughData)
    } else if b[4] != MAGIC_NUMBER {
        res == Err::<Message, MessageError>(MessageError::InvalidHeader)
    } else if b[6] == 0 {
        res matches Ok(Message::ConnectStart { src }) && src == addr
    } else if b[6] == 1 || b[6] == 2 {
        if !has_channels(b) {
            res == Err::<Message, MessageError>(MessageError::NotEnoughData)
        } else if b[6] == 1 {
            res matches Ok(Message::ConnectConfirm { num_channels, seq_nums }) && are_channels_of(
                b,
                num_channels,
                seq_nums@,
            )
        } else {
            res matches Ok(Message::ConnectComplete { num_channels, seq_nums }) && are_channels_of(
                b,
                num_channels,
                seq_nums@,
            )
        }
    } else {
        res == Err::<Message, MessageError>(MessageError::UnknownMessageType)
    }
}

impl Message {
    /// Reads the message that `packet` holds.
    pub fn from_packet(packet: &Packet) -> (res: Result<Message, MessageError>)
        ensures
            is_message_of(packet.bytes(), packet.source(), res),
    {
        let header = match packet.header() {
            Ok(h) => h,
            Err(e) => return Err(e),
        };
        // Verify the magic number
        if header.magic_number != MAGIC_NUMBER {
            return Err(MessageError::InvalidHeader);
        }
        if header.message_type == 0 {
            Ok(Message::ConnectStart { src: packet.addr() })
        } else if header.message_type == 1 {
            let channels = match packet.channels() {
                Ok(c) => c,
                Err(e) => return Err(e),
            };
            Ok(
                Message::ConnectConfirm {
                    num_channels: channels.num_channels,
                    seq_nums: channels.seq_nums,
                },
            )
        } else if header.message_type == 2 {
            let channels = match packet.channels() {
                Ok(c) => c,
                Err(e) => return Err(e),
            };
            Ok(
                Message::ConnectComplete {
                    num_channels: channels.num_channels,
                    seq_nums: channels.seq_nums,
                },
            )
        } else {
            Err(MessageError::UnknownMessageType)
        }
    }
}

} // verus!
