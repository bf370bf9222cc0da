//! The fragmentation and reassembly engine.
//!
//! Outbound, a message longer than one packet's payload is staged and sent as
//! a chain of packets, one per master-write completion. Inbound, packets are
//! gathered by (source, sequence number) into one reassembly buffer, which
//! goes up when the last packet of the message arrives.
use vstd::prelude::*;
use crate::port_layer::{PortView, SignbusPortLayer, is_master_write, listen_post};
use crate::support::{
    Error, HEADER_SIZE, I2C_MAX_DATA_LEN, I2C_MAX_LEN, MasterAction, Packet, ReturnCode, SignbusNetworkFlags,
    SignbusNetworkHeader, header_bytes, payload_len, payload_length,
};

verus! {

/// Longest message whose total length fits the 16-bit length field.
pub const MAX_MESSAGE_LEN: usize = 65535 - HEADER_SIZE;

/// Length of the message that a header describes.
pub open spec fn msg_len(h: SignbusNetworkHeader) -> int {
    h.length - HEADER_SIZE
}

/// Header of the packet after the one with header `h`: its offset is one
/// packet's payload further, and more follow while what is left after that
/// offset exceeds one payload.
pub open spec fn next_header(h: SignbusNetworkHeader) -> SignbusNetworkHeader {
    let off = h.fragment_offset + I2C_MAX_DATA_LEN;
    SignbusNetworkHeader {
        fragment_offset: off as u16,
        flags: SignbusNetworkFlags { is_fragment: msg_len(h) - off > I2C_MAX_DATA_LEN, ..h.flags },
        ..h
    }
}

/// Header of the first packet of a message.
pub open spec fn outbound_header(src: u8, seq: u16, encrypted: bool, len: nat) -> SignbusNetworkHeader {
    SignbusNetworkHeader {
        flags: SignbusNetworkFlags {
            is_fragment: len > I2C_MAX_DATA_LEN,
            is_encrypted: encrypted,
            rsv_wire_bit5: false,
            rsv_wire_bit4: false,
            version: 1,
        },
        src,
        sequence_number: seq,
        length: (HEADER_SIZE + len) as u16,
        fragment_offset: 0,
    }
}

/// Header of packet `k` of the message whose first packet has header `h`.
pub open spec fn fragment_header(h: SignbusNetworkHeader, k: nat) -> SignbusNetworkHeader
    decreases k,
{
    if k == 0 {
        h
    } else {
        next_header(fragment_header(h, (k - 1) as nat))
    }
}

/// The slice of `msg` that the packet with header `h` carries.
pub open spec fn chunk(h: SignbusNetworkHeader, msg: Seq<u8>) -> Seq<u8> {
    msg.subrange(h.fragment_offset as int, h.fragment_offset + payload_len(h))
}

/// The bytes on the wire of the packet with header `h` taken from `msg`.
pub open spec fn packet_bytes(h: SignbusNetworkHeader, msg: Seq<u8>) -> Seq<u8> {
    header_bytes(h) + chunk(h, msg)
}

/// The sequence number that follows `s`, wrapping at 16 bits.
pub open spec fn next_seq(s: u16) -> u16 {
    if s == u16::MAX {
        0
    } else {
        (s + 1) as u16
    }
}

/// Bytes gathered so far that a packet with header `h` adds to: none when
/// no message is under way or the packet belongs to another one.
pub open spec fn base_received(io: SignbusIOLayer, h: SignbusNetworkHeader) -> nat {
    if io.length_received == 0 || io.message_seq_no != h.sequence_number || io.message_src != h.src {
        0
    } else {
        io.length_received as nat
    }
}

/// Bytes gathered once a packet with header `h` is added (held at the
/// largest `usize`).
pub open spec fn gathered(io: SignbusIOLayer, h: SignbusNetworkHeader) -> nat {
    let t = base_received(io, h) + payload_len(h);
    if t > usize::MAX {
        usize::MAX as nat
    } else {
        t
    }
}

/// `buf` with `src` written at `off`, as far as `buf` reaches.
pub open spec fn write_at(buf: Seq<u8>, off: int, src: Seq<u8>) -> Seq<u8> {
    Seq::new(buf.len(), |j: int| if off <= j < off + src.len() { src[j - off] } else { buf[j] })
}

/// Number of packets that a message of `len` bytes takes.
pub open spec fn fragment_count(len: nat) -> nat {
    if len <= I2C_MAX_DATA_LEN {
        1
    } else {
        ((len + I2C_MAX_DATA_LEN - 1) / (I2C_MAX_DATA_LEN as int)) as nat
    }
}

/// The payloads of the first `k` packets of the message `msg` whose first
/// packet has header `h`, joined in order.
pub open spec fn joined(h: SignbusNetworkHeader, msg: Seq<u8>, k: nat) -> Seq<u8>
    decreases k,
{
    if k == 0 {
        Seq::empty()
    } else {
        joined(h, msg, (k - 1) as nat) + chunk(fragment_header(h, (k - 1) as nat), msg)
    }
}

/// Packet `k` of a message lies `k` payloads in, and all before it are full.
proof fn lemma_chain_at(h: SignbusNetworkHeader, msg: Seq<u8>, k: nat)
    requires
        h.length == HEADER_SIZE + msg.len(),
        msg.len() <= MAX_MESSAGE_LEN,
        h.fragment_offset == 0,
        h.flags.is_fragment == (msg.len() > I2C_MAX_DATA_LEN),
        k == 0 || k * I2C_MAX_DATA_LEN < msg.len(),
    ensures
        fragment_header(h, k) == (SignbusNetworkHeader {
            fragment_offset: (k * I2C_MAX_DATA_LEN) as u16,
            flags: SignbusNetworkFlags {
                is_fragment: msg.len() - k * I2C_MAX_DATA_LEN > I2C_MAX_DATA_LEN,
                ..h.flags
            },
            ..h
        }),
        joined(h, msg, k) == msg.take(k * I2C_MAX_DATA_LEN),
    decreases k,
{
    if k == 0 {
        assert(joined(h, msg, 0) =~= msg.take(0));
    } else {
        lemma_chain_at(h, msg, (k - 1) as nat);
        let p = fragment_header(h, (k - 1) as nat);
        assert(payload_len(p) == I2C_MAX_DATA_LEN);
        assert(joined(h, msg, k) =~= msg.take(k * I2C_MAX_DATA_LEN));
    }
}

/// Bounds of the last packet's offset.
proof fn lemma_count_bounds(len: nat)
    requires
        len > I2C_MAX_DATA_LEN,
    ensures
        (fragment_count(len) - 1) * I2C_MAX_DATA_LEN < len <= fragment_count(len) * I2C_MAX_DATA_LEN,
        fragment_count(len) >= 2,
{
    let c = fragment_count(len);
    assert(c == (len + 242) / 243);
    assert((c - 1) * 243 < len <= c * 243 && c >= 2) by (nonlinear_arith)
        requires
            c == (len + 242) / 243,
            len > 243,
    ;
}

/// Fragmentation is complete: a message of `len` bytes goes out in one
/// packet when `len` is at most one payload, else in `ceil(len / payload)`
/// packets; every packet but the last says that more follow, the last does
/// not, and the payloads of all packets, joined in offset order, are the
/// message.
pub proof fn lemma_fragmentation_complete(src: u8, seq: u16, encrypted: bool, msg: Seq<u8>)
    requires
        msg.len() <= MAX_MESSAGE_LEN,
    ensures
        ({
            let h = outbound_header(src, seq, encrypted, msg.len());
            let c = fragment_count(msg.len());
            &&& c == (if msg.len() <= I2C_MAX_DATA_LEN {
                1
            } else {
                (msg.len() + I2C_MAX_DATA_LEN - 1) / (I2C_MAX_DATA_LEN as int)
            })
            &&& forall|k: nat| k + 1 < c ==> (#[trigger] fragment_header(h, k)).flags.is_fragment
            &&& !fragment_header(h, (c - 1) as nat).flags.is_fragment
            &&& joined(h, msg, c) == msg
        }),
{
    let h = outbound_header(src, seq, encrypted, msg.len());
    let c = fragment_count(msg.len());
    let len = msg.len();
    if len <= I2C_MAX_DATA_LEN {
        assert(joined(h, msg, 0) =~= Seq::empty());
        assert(payload_len(h) == len);
        assert(joined(h, msg, 1) =~= msg);
    } else {
        lemma_count_bounds(len);
        assert forall|k: nat| k + 1 < c implies (#[trigger] fragment_header(h, k)).flags.is_fragment by {
            lemma_chain_at(h, msg, k);
        }
        let last = (c - 1) as nat;
        lemma_chain_at(h, msg, last);
        let p = fragment_header(h, last);
        assert(payload_len(p) == len - last * I2C_MAX_DATA_LEN);
        assert(joined(h, msg, c) =~= msg);
    }
}

/// All packets of one message carry its sequence number, source and length,
/// and their offsets are contiguous (each is the total payload of the packets
/// before it) and strictly increasing.
pub proof fn lemma_fragment_sequence(src: u8, seq: u16, encrypted: bool, msg: Seq<u8>)
    requires
        msg.len() <= MAX_MESSAGE_LEN,
    ensures
        ({
            let h = outbound_header(src, seq, encrypted, msg.len());
            let c = fragment_count(msg.len());
            &&& forall|k: nat| k < c ==> {
                &&& (#[trigger] fragment_header(h, k)).sequence_number == seq
                &&& fragment_header(h, k).src == src
                &&& fragment_header(h, k).length == h.length
                &&& fragment_header(h, k).fragment_offset == joined(h, msg, k).len()
            }
            &&& forall|j: nat, k: nat| j < k < c ==> (#[trigger] fragment_header(h, j)).fragment_offset
                < (#[trigger] fragment_header(h, k)).fragment_offset
        }),
{
    let h = outbound_header(src, seq, encrypted, msg.len());
    let c = fragment_count(msg.len());
    if msg.len() > I2C_MAX_DATA_LEN {
        lemma_count_bounds(msg.len());
    }
    assert forall|k: nat| k < c implies {
        &&& (#[trigger] fragment_header(h, k)).sequence_number == seq
        &&& fragment_header(h, k).src == src
        &&& fragment_header(h, k).length == h.length
        &&& fragment_header(h, k).fragment_offset == joined(h, msg, k).len()
    } by {
        lemma_chain_at(h, msg, k);
    }
    assert forall|j: nat, k: nat| j < k < c implies (#[trigger] fragment_header(h, j)).fragment_offset
        < (#[trigger] fragment_header(h, k)).fragment_offset by {
        lemma_chain_at(h, msg, j);
        lemma_chain_at(h, msg, k);
    }
}

/// The packet of the send under way is packet `chain_index` of its
/// message, and one of its `fragment_count` packets: it carries the first
/// packet's sequence number, source and length, and its offset is the total
/// payload of the packets before it.
pub proof fn lemma_in_flight_packet(io: SignbusIOLayer, msg: Seq<u8>)
    requires
        io.wf(),
        io.in_flight is Some,
        msg.len() == msg_len(io.chain_first@),
    ensures
        ({
            let h = io.in_flight->0;
            let first = io.chain_first@;
            &&& io.chain_index@ < fragment_count(msg.len())
            &&& h.sequence_number == first.sequence_number
            &&& h.src == first.src
            &&& h.length == first.length
            &&& h.fragment_offset == joined(first, msg, io.chain_index@).len()
        }),
{
    lemma_chain_at(io.chain_first@, msg, io.chain_index@);
    if msg.len() > I2C_MAX_DATA_LEN {
        lemma_count_bounds(msg.len());
    }
}

/// A packet from another (source, sequence number) in the middle of a
/// reassembly abandons it: the count starts again from exactly that
/// packet's payload length, and the new message is the one under way.
pub proof fn lemma_collision_restarts(io: SignbusIOLayer, h: SignbusNetworkHeader)
    requires
        io.length_received > 0,
        io.message_seq_no != h.sequence_number || io.message_src != h.src,
    ensures
        base_received(io, h) == 0,
        gathered(io, h) == payload_len(h),
{
}

/// A message handed up by the engine: the reassembly buffer, the number of
/// bytes gathered into it, and the outcome.
#[derive(Debug)]
pub struct Received {
    pub data: Vec<u8>,
    pub length: usize,
    pub error: Error,
}

pub struct SignbusIOLayer {
    pub this_device_address: u8,
    /// Sequence number of the last message sent.
    pub sequence_number: u16,
    /// Identity of the message being reassembled.
    pub message_seq_no: u16,
    pub message_src: u8,
    /// Bytes gathered for that message; 0 when none is under way.
    pub length_received: usize,
    /// Reassembly buffer; empty while it is handed up.
    pub recv_buf: Option<Vec<u8>>,
    /// Staging buffer for the message of a multi-packet send.
    pub data_buf: Vec<u8>,
    /// Destination of the send under way.
    pub send_dest: u8,
    /// Header of the packet handed to the port, while a send is under way.
    pub in_flight: Option<SignbusNetworkHeader>,
    /// Header of the first packet of the send under way.
    pub chain_first: Ghost<SignbusNetworkHeader>,
    /// Index, within its message, of the packet handed to the port.
    pub chain_index: Ghost<nat>,
}

/// A header of a send chain: its offset lies within the message, more
/// follow exactly while more than one payload is left, and a message of
/// several packets fits the staging buffer.
pub open spec fn chain_ok(h: SignbusNetworkHeader, staging_len: nat) -> bool {
    &&& h.length >= HEADER_SIZE
    &&& h.fragment_offset <= msg_len(h)
    &&& h.flags.is_fragment == (msg_len(h) - h.fragment_offset > I2C_MAX_DATA_LEN)
    &&& msg_len(h) > I2C_MAX_DATA_LEN ==> msg_len(h) <= staging_len
}

/// `h` is packet `k` of the message whose first packet has header `first`.
pub open spec fn chain_at(first: SignbusNetworkHeader, k: nat, h: SignbusNetworkHeader) -> bool {
    &&& first.fragment_offset == 0
    &&& first.length >= HEADER_SIZE
    &&& first.flags.is_fragment == (msg_len(first) > I2C_MAX_DATA_LEN)
    &&& k == 0 || k * I2C_MAX_DATA_LEN < msg_len(first)
    &&& h == fragment_header(first, k)
}

/// A packet of a chain after which more follow is followed by the next one.
proof fn lemma_chain_step(first: SignbusNetworkHeader, k: nat)
    requires
        chain_at(first, k, fragment_header(first, k)),
        fragment_header(first, k).flags.is_fragment,
    ensures
        chain_at(first, k + 1, fragment_header(first, k + 1)),
{
    lemma_chain_at(first, Seq::new(msg_len(first) as nat, |i: int| 0u8), k);
}

/// The packet of a chain after which none follow is the last of the
/// `fragment_count` packets of its message.
proof fn lemma_chain_end(first: SignbusNetworkHeader, k: nat)
    requires
        chain_at(first, k, fragment_header(first, k)),
        !fragment_header(first, k).flags.is_fragment,
    ensures
        k + 1 == fragment_count(msg_len(first) as nat),
        fragment_header(first, k).length == first.length,
{
    let len = msg_len(first) as nat;
    lemma_chain_at(first, Seq::new(len, |i: int| 0u8), k);
    if len > I2C_MAX_DATA_LEN {
        let c = fragment_count(len);
        assert(c == (len + 242) / 243);
        assert(k + 1 == c) by (nonlinear_arith)
            requires
                c == (len + 242) / 243,
                k * 243 < len,
                len - k * 243 <= 243,
        ;
    }
}

/// Status of a send of `len` bytes: Busy while a send is under way or no
/// port buffer is free; Size when the message is too long for the length
/// field or, needing several packets, for the staging buffer.
pub open spec fn send_status(io: SignbusIOLayer, free_buffers: nat, len: nat) -> ReturnCode {
    if io.in_flight is Some || free_buffers == 0 {
        ReturnCode::Busy
    } else if len > MAX_MESSAGE_LEN || (len > I2C_MAX_DATA_LEN && len > io.data_buf@.len()) {
        ReturnCode::Size
    } else {
        ReturnCode::Success
    }
}

/// What a send of `msg` to `dest` does: nothing unless it succeeds; then the
/// sequence number advances, the first packet of the message is written to
/// `dest` and the chain is under way, staged when it takes several packets.
pub open spec fn io_send_post(
    io0: SignbusIOLayer,
    io1: SignbusIOLayer,
    port0: PortView,
    port1: PortView,
    dest: u8,
    encrypted: bool,
    msg: Seq<u8>,
    r: ReturnCode,
) -> bool {
    &&& r == send_status(io0, port0.buffers.len(), msg.len())
    &&& r != ReturnCode::Success ==> io1 == io0 && port1 == port0
    &&& r == ReturnCode::Success ==> {
        let h = outbound_header(io0.this_device_address, next_seq(io0.sequence_number), encrypted, msg.len());
        &&& io1.sequence_number == next_seq(io0.sequence_number)
        &&& io1.in_flight == Some(h)
        &&& io1.chain_first@ == h
        &&& io1.chain_index@ == 0
        &&& io1.send_dest == dest
        &&& msg.len() > I2C_MAX_DATA_LEN ==> io1.data_buf@.take(msg.len() as int) == msg
        &&& io1.data_buf@.len() == io0.data_buf@.len()
        &&& io1.this_device_address == io0.this_device_address
        &&& io1.message_seq_no == io0.message_seq_no
        &&& io1.message_src == io0.message_src
        &&& io1.length_received == io0.length_received
        &&& io1.recv_buf == io0.recv_buf
        &&& port1.buffers == port0.buffers.drop_last()
        &&& port1.listening == port0.listening
        &&& port1.debug_led == port0.debug_led
        &&& port1.requests.len() == port0.requests.len() + 1
        &&& port1.requests.drop_last() == port0.requests
        &&& is_master_write(port1.requests.last(), dest, packet_bytes(h, msg))
    }
}

impl SignbusIOLayer {
    pub open spec fn wf(&self) -> bool {
        self.in_flight matches Some(h) ==> chain_ok(h, self.data_buf@.len()) && chain_at(
            self.chain_first@,
            self.chain_index@,
            h,
        )
    }

    /// An engine with the given reassembly and staging buffers, nothing
    /// under way and sequence number 0.
    pub fn new(recv_buf: Vec<u8>, data_buf: Vec<u8>) -> (r: SignbusIOLayer)
        ensures
            r.wf(),
            r.this_device_address == 0,
            r.sequence_number == 0,
            r.length_received == 0,
            r.recv_buf == Some(recv_buf),
            r.data_buf == data_buf,
            r.in_flight is None,
    {
        SignbusIOLayer {
            this_device_address: 0,
            sequence_number: 0,
            message_seq_no: 0,
            message_src: 0,
            length_received: 0,
            recv_buf: Some(recv_buf),
            data_buf,
            send_dest: 0,
            in_flight: None,
            chain_first: Ghost(arbitrary()),
            chain_index: Ghost(0),
        }
    }

    /// Sends the first `len` bytes of `data` to `dest` as one message, in as
    /// many packets as it takes; the first is handed to the port here, the
    /// others one per completion (see `packet_sent`).
    pub fn signbus_io_send(
        &mut self,
        port: &mut SignbusPortLayer,
        dest: u8,
        encrypted: bool,
        data: &[u8],
        len: usize,
    ) -> (r: ReturnCode)
        requires
            old(self).wf(),
            old(port).wf(),
            len <= data@.len(),
        ensures
            final(self).wf(),
            final(port).wf(),
            io_send_post(
                *old(self),
                *final(self),
                old(port)@,
                final(port)@,
                dest,
                encrypted,
                data@.take(len as int),
                r,
            ),
    {
        if self.in_flight.is_some() || port.free_buffers() == 0 {
            return ReturnCode::Busy;
        }
        if len > MAX_MESSAGE_LEN || (len > I2C_MAX_DATA_LEN && len > self.data_buf.len()) {
            return ReturnCode::Size;
        }
        let ghost msg = data@.take(len as int);
        let seq = self.sequence_number.wrapping_add(1);
        let is_fragment = len > I2C_MAX_DATA_LEN;
        let header = SignbusNetworkHeader {
            flags: SignbusNetworkFlags {
                is_fragment,
                is_encrypted: encrypted,
                rsv_wire_bit5: false,
                rsv_wire_bit4: false,
                version: 1,
            },
            src: self.this_device_address,
            sequence_number: seq,
            length: (HEADER_SIZE + len) as u16,
            fragment_offset: 0,
        };
        assert(header == outbound_header(self.this_device_address, next_seq(self.sequence_number), encrypted, len as nat));
        let rc;
        if is_fragment {
            copy_into(&mut self.data_buf, data, len);
            let packet = Packet { header, data: packet_data(data, 0, I2C_MAX_DATA_LEN) };
            assert(packet.data@.take(I2C_MAX_DATA_LEN as int) =~= chunk(header, msg));
            rc = port.i2c_master_write(dest, &packet, I2C_MAX_LEN);
        } else {
            let packet = Packet { header, data: packet_data(data, 0, len) };
            assert(packet.data@.take(len as int) =~= chunk(header, msg));
            rc = port.i2c_master_write(dest, &packet, len + HEADER_SIZE);
        }
        assert(rc == ReturnCode::Success);
        self.sequence_number = seq;
        self.send_dest = dest;
        self.in_flight = Some(header);
        self.chain_first = Ghost(header);
        self.chain_index = Ghost(0);
        ReturnCode::Success
    }

    /// A master write of the send under way completed with `error`. An error
    /// ends the chain and goes up; so does the completion of the last packet.
    /// Otherwise the next packet of the staged message goes to the port and
    /// nothing goes up yet. With no send under way nothing happens.
    pub fn packet_sent(&mut self, port: &mut SignbusPortLayer, error: Error) -> (r: Option<Error>)
        requires
            old(self).wf(),
            old(port).wf(),
            old(self).in_flight matches Some(h) && h.flags.is_fragment && error
                == Error::CommandComplete ==> old(port).buffers@.len() > 0,
        ensures
            final(self).wf(),
            final(port).wf(),
            old(self).in_flight is None ==> r is None && *final(self) == *old(self) && *final(port)
                == *old(port),
            old(self).in_flight is Some && (error != Error::CommandComplete
                || !old(self).in_flight->0.flags.is_fragment) ==> {
                &&& r == Some(error)
                &&& *final(self) == (SignbusIOLayer { in_flight: None, ..*old(self) })
                &&& *final(port) == *old(port)
                &&& error == Error::CommandComplete ==> old(self).chain_index@ + 1 == fragment_count(
                    msg_len(old(self).in_flight->0) as nat,
                )
            },
            old(self).in_flight is Some && error == Error::CommandComplete
                && old(self).in_flight->0.flags.is_fragment ==> {
                let h = old(self).in_flight->0;
                let staged = old(self).data_buf@.take(msg_len(h));
                &&& r is None
                &&& *final(self) == (SignbusIOLayer {
                    in_flight: Some(next_header(h)),
                    chain_index: Ghost(old(self).chain_index@ + 1),
                    ..*old(self)
                })
                &&& next_header(h) == fragment_header(old(self).chain_first@, old(self).chain_index@ + 1)
                &&& final(port).buffers@ == old(port).buffers@.drop_last()
                &&& final(port).listening == old(port).listening
                &&& final(port).debug_led == old(port).debug_led
                &&& final(port).master_action == MasterAction::Write
                &&& final(port).requests@.len() == old(port).requests@.len() + 1
                &&& final(port).requests@.drop_last() == old(port).requests@
                &&& is_master_write(
                    final(port).requests@.last(),
                    old(self).send_dest,
                    packet_bytes(next_header(h), staged),
                )
            },
    {
        let h = match self.in_flight {
            None => return None,
            Some(h) => h,
        };
        if error != Error::CommandComplete || !h.flags.is_fragment {
            proof {
                if error == Error::CommandComplete {
                    lemma_chain_end(self.chain_first@, self.chain_index@);
                }
            }
            self.in_flight = None;
            return Some(error);
        }
        proof {
            lemma_chain_step(self.chain_first@, self.chain_index@);
        }
        let offset: usize = h.fragment_offset as usize + I2C_MAX_DATA_LEN;
        let total: usize = h.length as usize - HEADER_SIZE;
        let data_left: usize = total - offset;
        let more = data_left > I2C_MAX_DATA_LEN;
        let len: usize = if more { I2C_MAX_DATA_LEN } else { data_left };
        let next = SignbusNetworkHeader {
            fragment_offset: offset as u16,
            flags: SignbusNetworkFlags { is_fragment: more, ..h.flags },
            ..h
        };
        assert(next == next_header(h));
        let packet = Packet { header: next, data: packet_data(self.data_buf.as_slice(), offset, len) };
        proof {
            let staged = self.data_buf@.take(msg_len(h));
            assert(payload_len(next) == len);
            assert(packet.data@.take(len as int) =~= chunk(next, staged));
        }
        port.i2c_master_write(self.send_dest, &packet, len + HEADER_SIZE);
        self.in_flight = Some(next);
        self.chain_index = Ghost(self.chain_index@ + 1);
        None
    }

    /// Sets this device's address, in the port too; refused as the port
    /// refuses it, with nothing changed.
    pub fn signbus_io_init(&mut self, port: &mut SignbusPortLayer, address: u8) -> (r: ReturnCode)
        requires
            old(self).wf(),
            old(port).wf(),
        ensures
            final(self).wf(),
            final(port).wf(),
            address > 0x7f ==> r == ReturnCode::Invalid && *final(self) == *old(self)
                && *final(port) == *old(port),
            address <= 0x7f ==> {
                &&& r == ReturnCode::Success
                &&& *final(self) == (SignbusIOLayer { this_device_address: address, ..*old(self) })
                &&& *final(port) == (SignbusPortLayer { requests: final(port).requests, ..*old(port) })
                &&& final(port).requests@ == old(port).requests@.push(
                    crate::port_layer::HwRequest::SetSlaveAddress(address),
                )
            },
    {
        let rc = port.init(address);
        if rc == ReturnCode::Success {
            self.this_device_address = address;
        }
        rc
    }

    /// Takes `buffer` as the reassembly buffer and has the port listen.
    pub fn signbus_io_recv(&mut self, port: &mut SignbusPortLayer, buffer: Vec<u8>) -> (r: ReturnCode)
        requires
            old(self).wf(),
            old(port).wf(),
        ensures
            r == ReturnCode::Success,
            final(self).wf(),
            *final(self) == (SignbusIOLayer { recv_buf: Some(buffer), ..*old(self) }),
            final(port).wf(),
            listen_post(old(port)@, final(port)@),
    {
        self.recv_buf = Some(buffer);
        port.i2c_slave_listen()
    }

    /// A packet arrived with outcome `error`.
    ///
    /// On an error, the reassembly buffer goes up with the bytes gathered so
    /// far and that error, and the count starts again from zero. Otherwise
    /// the packet belongs to the message under way if its (source, sequence
    /// number) is that message's; if not, the partial message is abandoned
    /// and the packet starts a new one. Its payload (see `payload_len`) is
    /// written into the reassembly buffer at its offset and counted. The
    /// last packet of a message sends the buffer up with the count, which
    /// then starts again from zero. With no reassembly buffer nothing is
    /// written and nothing goes up.
    pub fn packet_received(&mut self, packet: &Packet, length: u8, error: Error) -> (r: Option<Received>)
        requires
            old(self).wf(),
            packet.wf(),
        ensures
            final(self).wf(),
            error != Error::CommandComplete ==> {
                &&& *final(self) == (SignbusIOLayer { length_received: 0, recv_buf: None, ..*old(self) })
                &&& old(self).recv_buf is None ==> r is None
                &&& old(self).recv_buf is Some ==> (r matches Some(m) && m.data == old(self).recv_buf->0
                    && m.length == old(self).length_received && m.error == error)
            },
            error == Error::CommandComplete ==> {
                let h = packet.header;
                let n = payload_len(h);
                let total = gathered(*old(self), h);
                let buf1 = write_at(old(self).recv_buf->0@, h.fragment_offset as int, packet.data@.take(n as int));
                &&& *final(self) == (SignbusIOLayer {
                    message_seq_no: h.sequence_number,
                    message_src: h.src,
                    length_received: final(self).length_received,
                    recv_buf: final(self).recv_buf,
                    ..*old(self)
                })
                &&& h.flags.is_fragment ==> {
                    &&& r is None
                    &&& final(self).length_received == total
                    &&& old(self).recv_buf is None ==> final(self).recv_buf is None
                    &&& old(self).recv_buf is Some ==> (final(self).recv_buf matches Some(b) && b@ == buf1)
                }
                &&& !h.flags.is_fragment ==> {
                    &&& final(self).length_received == 0
                    &&& final(self).recv_buf is None
                    &&& old(self).recv_buf is None ==> r is None
                    &&& old(self).recv_buf is Some ==> (r matches Some(m) && m.data@ == buf1
                        && m.length == total && m.error == Error::CommandComplete)
                }
            },
    {
        let mut slot: Option<Vec<u8>> = None;
        std::mem::swap(&mut slot, &mut self.recv_buf);
        if error != Error::CommandComplete {
            let r = match slot {
                Some(data) => Some(Received { data, length: self.length_received, error }),
                None => None,
            };
            self.length_received = 0;
            return r;
        }
        let h = packet.header;
        if self.length_received == 0 {
            self.message_seq_no = h.sequence_number;
            self.message_src = h.src;
        } else if self.message_seq_no != h.sequence_number || self.message_src != h.src {
            self.message_seq_no = h.sequence_number;
            self.message_src = h.src;
            self.length_received = 0;
        }
        let n = payload_length(&h);
        if self.length_received <= usize::MAX - n {
            self.length_received = self.length_received + n;
        } else {
            self.length_received = usize::MAX;
        }
        let total = self.length_received;
        let filled = match slot {
            Some(mut b) => {
                write_into(&mut b, h.fragment_offset as usize, &packet.data, n);
                Some(b)
            },
            None => None,
        };
        if h.flags.is_fragment {
            self.recv_buf = filled;
            None
        } else {
            self.length_received = 0;
            match filled {
                Some(data) => Some(Received { data, length: total, error }),
                None => None,
            }
        }
    }
}

/// Copies the first `len` bytes of `src` to the front of `dst`.
fn copy_into(dst: &mut Vec<u8>, src: &[u8], len: usize)
    requires
        len <= src@.len(),
        len <= old(dst)@.len(),
    ensures
        final(dst)@.len() == old(dst)@.len(),
        final(dst)@.take(len as int) == src@.take(len as int),
{
    let mut i: usize = 0;
    while i < len
        invariant
            i <= len,
            len <= src@.len(),
            len <= old(dst)@.len(),
            dst@.len() == old(dst)@.len(),
            forall|j: int| 0 <= j < i ==> dst@[j] == src@[j],
        decreases len - i,
    {
        dst.set(i, src[i]);
        i = i + 1;
    }
    assert(dst@.take(len as int) =~= src@.take(len as int));
}

/// Writes the first `n` bytes of `src` into `dst` at `off`, as far as `dst`
/// reaches.
fn write_into(dst: &mut Vec<u8>, off: usize, src: &Vec<u8>, n: usize)
    requires
        n <= src@.len(),
    ensures
        final(dst)@ == write_at(old(dst)@, off as int, src@.take(n as int)),
{
    let dst_len = dst.len();
    let mut i: usize = 0;
    while i < n
        invariant
            i <= n,
            n <= src@.len(),
            dst_len == old(dst)@.len(),
            dst@.len() == dst_len,
            forall|j: int|
                0 <= j < dst_len ==> #[trigger] dst@[j] == (if off <= j < off + i {
                    src@[j - off]
                } else {
                    old(dst)@[j]
                }),
        decreases n - i,
    {
        if off < dst_len && i < dst_len - off {
            dst.set(off + i, src[i]);
        }
        i = i + 1;
    }
    assert(dst@ =~= write_at(old(dst)@, off as int, src@.take(n as int)));
}

/// A payload buffer holding `len` bytes of `src` from `off` on, then zeros.
fn packet_data(src: &[u8], off: usize, len: usize) -> (r: Vec<u8>)
    requires
        off + len <= src@.len(),
        len <= I2C_MAX_DATA_LEN,
    ensures
        r@.len() == I2C_MAX_DATA_LEN,
        r@.take(len as int) == src@.subrange(off as int, off + len),
{
    let mut r: Vec<u8> = Vec::new();
    let src_len = src.len();
    let mut i: usize = 0;
    while i < I2C_MAX_DATA_LEN
        invariant
            src_len == src@.len(),
            i <= I2C_MAX_DATA_LEN,
            off + len <= src@.len(),
            len <= I2C_MAX_DATA_LEN,
            r@.len() == i,
            forall|j: int| 0 <= j < i && j < len ==> r@[j] == src@[off + j],
        decreases I2C_MAX_DATA_LEN - i,
    {
        if i < len {
            r.push(src[off + i]);
        } else {
            r.push(0);
        }
        i = i + 1;
    }
    assert(r@.take(len as int) =~= src@.subrange(off as int, off + len));
    r
}

} // verus!
