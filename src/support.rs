//! The wire codec: packet types and their 12-byte header format.
use vstd::prelude::*;

verus! {

/// Largest single bus transaction, in bytes (one length byte on the wire).
pub const I2C_MAX_LEN: usize = 255;

/// Size of the encoded network header.
pub const HEADER_SIZE: usize = 12;

/// Payload capacity of one packet.
pub const I2C_MAX_DATA_LEN: usize = I2C_MAX_LEN - HEADER_SIZE;

/// Bus-level outcome of a transaction.
#[derive(Clone, Copy, Debug, PartialEq, Eq, Structural)]
pub enum Error {
    CommandComplete,
    AddressNak,
    DataNak,
    ArbitrationLost,
}

/// Kind of the master operation that is in flight.
#[derive(Clone, Copy, Debug, PartialEq, Eq, Structural)]
pub enum MasterAction {
    Read(u8),
    Write,
}

/// Immediate status of a request.
#[derive(Clone, Copy, Debug, PartialEq, Eq, Structural)]
pub enum ReturnCode {
    Success,
    /// A resource needed by the request (a buffer, the send chain) is in use.
    Busy,
    /// An argument is out of range.
    Invalid,
    /// The message does not fit.
    Size,
}

#[derive(Clone, Copy, Debug, PartialEq, Eq, Structural)]
pub struct SignbusNetworkFlags {
    /// More packets of the same message follow this one.
    pub is_fragment: bool,
    pub is_encrypted: bool,
    pub rsv_wire_bit5: bool,
    pub rsv_wire_bit4: bool,
    pub version: u8,
}

#[derive(Clone, Copy, Debug, PartialEq, Eq, Structural)]
pub struct SignbusNetworkHeader {
    pub flags: SignbusNetworkFlags,
    /// Bus address of the message's logical source.
    pub src: u8,
    /// Identifies the message; the same in all of its packets.
    pub sequence_number: u16,
    /// Header size plus the length of the whole message.
    pub length: u16,
    /// Offset of this packet's payload within the message.
    pub fragment_offset: u16,
}

/// A header and a payload buffer of `I2C_MAX_DATA_LEN` bytes.
#[derive(Clone, Debug)]
pub struct Packet {
    pub header: SignbusNetworkHeader,
    pub data: Vec<u8>,
}

impl Packet {
    pub open spec fn wf(&self) -> bool {
        self.data@.len() == I2C_MAX_DATA_LEN
    }
}

pub open spec fn bool_byte(b: bool) -> u8 {
    if b { 1 } else { 0 }
}

/// High byte of a 16-bit value.
pub open spec fn hi_byte(x: u16) -> u8 {
    (x / 256) as u8
}

/// Low byte of a 16-bit value.
pub open spec fn lo_byte(x: u16) -> u8 {
    (x % 256) as u8
}

/// The 16-bit value of two bytes in network (big-endian) order.
pub open spec fn be_u16(hi: u8, lo: u8) -> u16 {
    (hi * 256 + lo) as u16
}

/// The 12 header bytes on the wire. Reserved bits are sent as zero.
pub open spec fn header_bytes(h: SignbusNetworkHeader) -> Seq<u8> {
    seq![
        bool_byte(h.flags.is_fragment),
        bool_byte(h.flags.is_encrypted),
        0u8,
        0u8,
        h.flags.version,
        h.src,
        hi_byte(h.sequence_number),
        lo_byte(h.sequence_number),
        hi_byte(h.length),
        lo_byte(h.length),
        hi_byte(h.fragment_offset),
        lo_byte(h.fragment_offset),
    ]
}

/// The bytes of a packet with `n` bytes of payload.
pub open spec fn encoding(h: SignbusNetworkHeader, data: Seq<u8>, n: nat) -> Seq<u8> {
    header_bytes(h) + data.take(n as int)
}

/// The header read from the first 12 bytes; reserved bits are ignored.
pub open spec fn header_of(b: Seq<u8>) -> SignbusNetworkHeader {
    SignbusNetworkHeader {
        flags: SignbusNetworkFlags {
            is_fragment: b[0] == 1,
            is_encrypted: b[1] == 1,
            rsv_wire_bit5: false,
            rsv_wire_bit4: false,
            version: b[4],
        },
        src: b[5],
        sequence_number: be_u16(b[6], b[7]),
        length: be_u16(b[8], b[9]),
        fragment_offset: be_u16(b[10], b[11]),
    }
}

/// Payload length that a packet with header `h` carries: a full packet when
/// more follow, else what is left of the message after `fragment_offset`
/// (none when the header leaves nothing, at most the capacity).
pub open spec fn payload_len(h: SignbusNetworkHeader) -> nat {
    if h.flags.is_fragment {
        I2C_MAX_DATA_LEN as nat
    } else {
        let rem = h.length - HEADER_SIZE - h.fragment_offset;
        if rem <= 0 {
            0
        } else if rem > I2C_MAX_DATA_LEN {
            I2C_MAX_DATA_LEN as nat
        } else {
            rem as nat
        }
    }
}

/// How many payload bytes a decoder copies out of `b`: the header's payload
/// length, cut to the bytes that are there.
pub open spec fn copied_len(b: Seq<u8>) -> nat {
    let n = payload_len(header_of(b));
    if n + HEADER_SIZE <= b.len() {
        n
    } else {
        (b.len() - HEADER_SIZE) as nat
    }
}

/// The payload buffer of the decoded packet: the copied bytes, then zeros.
pub open spec fn payload_of(b: Seq<u8>) -> Seq<u8> {
    let n = copied_len(b);
    b.subrange(HEADER_SIZE as int, HEADER_SIZE + n) + Seq::new(
        (I2C_MAX_DATA_LEN - n) as nat,
        |i: int| 0u8,
    )
}

/// A header that the codec carries unchanged: reserved bits clear.
pub open spec fn valid_header(h: SignbusNetworkHeader) -> bool {
    !h.flags.rsv_wire_bit5 && !h.flags.rsv_wire_bit4
}

/// Codec round trip: decoding the encoding of a packet whose header has its
/// reserved bits clear, with the payload length that its header implies,
/// gives back the same header and the same payload bytes, whatever bytes
/// follow the encoding in the buffer.
pub proof fn lemma_codec_round_trip(h: SignbusNetworkHeader, data: Seq<u8>, rest: Seq<u8>)
    requires
        valid_header(h),
        data.len() == I2C_MAX_DATA_LEN,
    ensures
        header_of(encoding(h, data, payload_len(h)) + rest) == h,
        copied_len(encoding(h, data, payload_len(h)) + rest) == payload_len(h),
        payload_of(encoding(h, data, payload_len(h)) + rest).take(payload_len(h) as int)
            == data.take(payload_len(h) as int),
{
    let n = payload_len(h);
    let b = encoding(h, data, n) + rest;
    lemma_bytes_of_u16(h.sequence_number);
    lemma_bytes_of_u16(h.length);
    lemma_bytes_of_u16(h.fragment_offset);
    assert(b[6] == hi_byte(h.sequence_number) && b[7] == lo_byte(h.sequence_number));
    assert(b[8] == hi_byte(h.length) && b[9] == lo_byte(h.length));
    assert(b[10] == hi_byte(h.fragment_offset) && b[11] == lo_byte(h.fragment_offset));
    assert(b[0] == bool_byte(h.flags.is_fragment) && b[1] == bool_byte(h.flags.is_encrypted));
    assert(b[4] == h.flags.version && b[5] == h.src);
    assert(header_of(b) == h);
    assert(copied_len(b) == n);
    assert(payload_of(b).take(n as int) =~= data.take(n as int));
}

/// A 16-bit value is rebuilt from its high and low bytes.
proof fn lemma_bytes_of_u16(x: u16)
    ensures
        be_u16(hi_byte(x), lo_byte(x)) == x,
{
    assert((x / 256) * 256 + x % 256 == x) by (nonlinear_arith);
}

/// Swaps the two bytes of a 16-bit value.
pub fn htons(a: u16) -> (r: u16)
    ensures
        r == be_u16(lo_byte(a), hi_byte(a)),
{
    assert(((a & 0x00FF) << 8) | ((a & 0xFF00) >> 8) == (a % 256) * 256 + a / 256) by (bit_vector);
    ((a & 0x00FF) << 8) | ((a & 0xFF00) >> 8)
}


/// Writes the header and the first `data_len` payload bytes of `packet` to
/// the front of `buf`; the rest of `buf` is left as it was.
pub fn serialize_packet(packet: &Packet, data_len: usize, buf: &mut Vec<u8>)
    requires
        packet.wf(),
        data_len <= I2C_MAX_DATA_LEN,
        HEADER_SIZE + data_len <= old(buf)@.len(),
    ensures
        final(buf)@.len() == old(buf)@.len(),
        final(buf)@.take(HEADER_SIZE + data_len) == encoding(
            packet.header,
            packet.data@,
            data_len as nat,
        ),
        final(buf)@.skip(HEADER_SIZE + data_len) == old(buf)@.skip(HEADER_SIZE + data_len),
{
    let h = packet.header;
    buf.set(0, if h.flags.is_fragment { 1 } else { 0 });
    buf.set(1, if h.flags.is_encrypted { 1 } else { 0 });
    buf.set(2, 0);
    buf.set(3, 0);
    buf.set(4, h.flags.version);
    buf.set(5, h.src);
    let seq_no = htons(h.sequence_number);
    let length = htons(h.length);
    let fragment_offset = htons(h.fragment_offset);
    buf.set(6, low_byte(seq_no));
    buf.set(7, high_byte(seq_no));
    buf.set(8, low_byte(length));
    buf.set(9, high_byte(length));
    buf.set(10, low_byte(fragment_offset));
    buf.set(11, high_byte(fragment_offset));
    let ghost head = buf@.take(HEADER_SIZE as int);
    assert(head == header_bytes(h)) by {
        swap_bytes(h.sequence_number);
        swap_bytes(h.length);
        swap_bytes(h.fragment_offset);
        assert(head =~= header_bytes(h));
    }
    let mut i: usize = 0;
    while i < data_len
        invariant
            packet.wf(),
            data_len <= I2C_MAX_DATA_LEN,
            i <= data_len,
            HEADER_SIZE + data_len <= buf@.len(),
            buf@.len() == old(buf)@.len(),
            buf@.take(HEADER_SIZE as int) == head,
            forall|j: int| 0 <= j < i ==> buf@[HEADER_SIZE + j] == packet.data@[j],
            buf@.skip(HEADER_SIZE + data_len) == old(buf)@.skip(HEADER_SIZE + data_len),
        decreases data_len - i,
    {
        buf.set(HEADER_SIZE + i, packet.data[i]);
        i = i + 1;
        assert(buf@.take(HEADER_SIZE as int) =~= head);
        assert(buf@.skip(HEADER_SIZE + data_len) =~= old(buf)@.skip(HEADER_SIZE + data_len));
    }
    assert(buf@.take(HEADER_SIZE + data_len) =~= encoding(packet.header, packet.data@, data_len as nat));
}

/// Low byte of a 16-bit value.
fn low_byte(x: u16) -> (r: u8)
    ensures
        r == lo_byte(x),
{
    assert(x & 0xff == x % 256) by (bit_vector);
    (x & 0xff) as u8
}

/// High byte of a 16-bit value.
fn high_byte(x: u16) -> (r: u8)
    ensures
        r == hi_byte(x),
{
    assert(x >> 8 == x / 256) by (bit_vector);
    (x >> 8) as u8
}

/// The bytes of a swapped value, taken low first, are the value's bytes
/// taken high first.
proof fn swap_bytes(x: u16)
    ensures
        lo_byte(be_u16(lo_byte(x), hi_byte(x))) == hi_byte(x),
        hi_byte(be_u16(lo_byte(x), hi_byte(x))) == lo_byte(x),
{
}

/// Reads a packet from `buf`: the header from its first 12 bytes, then the
/// payload length that the header gives (see `payload_len`), as far as `buf`
/// holds it; the rest of the payload buffer is zero.
pub fn unserialize_packet(buf: &[u8]) -> (r: Packet)
    requires
        buf@.len() >= HEADER_SIZE,
    ensures
        r.wf(),
        r.header == header_of(buf@),
        r.data@ == payload_of(buf@),
{
    let flags = SignbusNetworkFlags {
        is_fragment: buf[0] == 1,
        is_encrypted: buf[1] == 1,
        rsv_wire_bit5: false,
        rsv_wire_bit4: false,
        version: buf[4],
    };
    let header = SignbusNetworkHeader {
        flags,
        src: buf[5],
        sequence_number: read_be_u16(buf[6], buf[7]),
        length: read_be_u16(buf[8], buf[9]),
        fragment_offset: read_be_u16(buf[10], buf[11]),
    };
    assert(header == header_of(buf@));
    let n = decoded_len(&header, buf.len());
    let mut data: Vec<u8> = Vec::new();
    let mut i: usize = 0;
    while i < I2C_MAX_DATA_LEN
        invariant
            n == copied_len(buf@),
            n <= I2C_MAX_DATA_LEN,
            HEADER_SIZE + n <= buf@.len(),
            i <= I2C_MAX_DATA_LEN,
            data@.len() == i,
            forall|j: int| 0 <= j < i ==> data@[j] == payload_of(buf@)[j],
        decreases I2C_MAX_DATA_LEN - i,
    {
        if i < n {
            data.push(buf[HEADER_SIZE + i]);
        } else {
            data.push(0);
        }
        i = i + 1;
    }
    assert(data@ =~= payload_of(buf@));
    Packet { header, data }
}

/// The 16-bit value of two bytes, high byte first.
fn read_be_u16(hi: u8, lo: u8) -> (r: u16)
    ensures
        r == be_u16(hi, lo),
{
    let wire = (hi as u16) | ((lo as u16) << 8);
    assert(((hi as u16) | ((lo as u16) << 8)) == hi as u16 + (lo as u16) * 256) by (bit_vector);
    let r = htons(wire);
    assert(lo_byte(wire) == hi && hi_byte(wire) == lo);
    r
}

/// The payload length that a packet with header `h` carries.
pub(crate) fn payload_length(h: &SignbusNetworkHeader) -> (n: usize)
    ensures
        n == payload_len(*h),
{
    if h.flags.is_fragment {
        I2C_MAX_DATA_LEN
    } else {
        let used = HEADER_SIZE as u32 + h.fragment_offset as u32;
        if (h.length as u32) <= used {
            0
        } else if (h.length as u32) - used > I2C_MAX_DATA_LEN as u32 {
            I2C_MAX_DATA_LEN
        } else {
            ((h.length as u32) - used) as usize
        }
    }
}

/// Number of payload bytes to copy out of a buffer of `buf_len` bytes whose
/// header is `h`.
fn decoded_len(h: &SignbusNetworkHeader, buf_len: usize) -> (n: usize)
    requires
        buf_len >= HEADER_SIZE,
    ensures
        forall|b: Seq<u8>|
            b.len() == buf_len && header_of(b) == *h ==> n == #[trigger] copied_len(b),
        n <= I2C_MAX_DATA_LEN,
        HEADER_SIZE + n <= buf_len,
{
    let want = payload_length(h);
    if HEADER_SIZE + want <= buf_len {
        want
    } else {
        buf_len - HEADER_SIZE
    }
}

} // verus!
