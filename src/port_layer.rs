//! The port bridge: turns sends and listens into requests for the bus, pin and
//! timer drivers, and turns the drivers' completions into packet events.
//!
//! The drivers run outside this library. Every operation asked of them is
//! appended to the port's request queue, which the caller drains with
//! `take_requests` and carries out; each completion is handed back through
//! `master_command_complete`, `slave_command_complete` or `write_expected`.
use vstd::prelude::*;
use crate::support::{
    Error, HEADER_SIZE, I2C_MAX_LEN, MasterAction, Packet, ReturnCode, encoding, header_of,
    payload_of, serialize_packet, unserialize_packet,
};

verus! {

/// Outcome of a bus transaction as the bus driver reports it.
#[derive(Clone, Copy, Debug, PartialEq, Eq, Structural)]
pub enum I2cError {
    CommandComplete,
    AddressNak,
    DataNak,
    ArbitrationLost,
}

/// Direction of a completed slave transaction.
#[derive(Clone, Copy, Debug, PartialEq, Eq, Structural)]
pub enum SlaveTransmissionType {
    /// Another device read from this one.
    Read,
    /// Another device wrote to this one.
    Write,
}

/// An operation for the bus, pin and timer drivers.
#[derive(Debug)]
pub enum HwRequest {
    /// Set this device's slave address.
    SetSlaveAddress(u8),
    /// Enable master mode and write the first `len` bytes of `buffer` to
    /// `address`; the buffer comes back with the master completion.
    MasterWrite { address: u8, buffer: Vec<u8>, len: u8 },
    /// Lend `buffer` to the slave receiver for an inbound write of up to
    /// `len` bytes; it comes back with the slave completion.
    SlaveWriteReceive { buffer: Vec<u8>, len: u8 },
    /// Enable slave mode and listen for writes to this device.
    SlaveListen,
    /// Drive the intent output line high.
    ModOutSet,
    /// Drive the intent output line low.
    ModOutClear,
    /// Make the grant line an input with a falling-edge interrupt.
    ModInEnableInterrupt,
    /// Disable the grant line's interrupt and the pin.
    ModInDisableInterrupt,
    /// Arm the timer to fire after `ms` milliseconds.
    Delay { ms: u32 },
    /// Turn the status indicator on.
    LedOn,
    /// Turn the status indicator off.
    LedOff,
}

/// True when `req` writes exactly `bytes` to `address` from a full-size buffer.
pub open spec fn is_master_write(req: HwRequest, address: u8, bytes: Seq<u8>) -> bool {
    match req {
        HwRequest::MasterWrite { address: a, buffer, len } => {
            &&& a == address
            &&& len == bytes.len()
            &&& buffer@.len() >= I2C_MAX_LEN
            &&& buffer@.take(len as int) == bytes
        },
        _ => false,
    }
}

/// True when `req` lends a full-size buffer to the slave receiver.
pub open spec fn is_write_receive(req: HwRequest) -> bool {
    match req {
        HwRequest::SlaveWriteReceive { buffer, len } => {
            len == I2C_MAX_LEN && buffer@.len() >= I2C_MAX_LEN
        },
        _ => false,
    }
}

/// What arming slave-listen mode does to the port: a free buffer, if there
/// is one, is lent to the receiver, then slave mode is enabled; the port is
/// listening from then on.
pub open spec fn listen_post(port0: PortView, port1: PortView) -> bool {
    &&& port1.listening
    &&& port1.master_action == port0.master_action
    &&& port1.debug_led == port0.debug_led
    &&& port0.buffers.len() == 0 ==> port1.buffers == port0.buffers
        && port1.requests == port0.requests.push(HwRequest::SlaveListen)
    &&& port0.buffers.len() > 0 ==> {
        &&& port1.buffers == port0.buffers.drop_last()
        &&& port1.requests.len() == port0.requests.len() + 2
        &&& port1.requests.take(port0.requests.len() as int) == port0.requests
        &&& is_write_receive(port1.requests[port0.requests.len() as int])
        &&& port1.requests.last() == HwRequest::SlaveListen
    }
}

/// The library's error for a bus driver's outcome.
pub open spec fn error_of(e: I2cError) -> Error {
    match e {
        I2cError::CommandComplete => Error::CommandComplete,
        I2cError::AddressNak => Error::AddressNak,
        I2cError::DataNak => Error::DataNak,
        I2cError::ArbitrationLost => Error::ArbitrationLost,
    }
}

/// Maps a bus driver's outcome to the library's error.
pub fn map_i2c_error(e: I2cError) -> (r: Error)
    ensures
        r == error_of(e),
{
    match e {
        I2cError::CommandComplete => Error::CommandComplete,
        I2cError::AddressNak => Error::AddressNak,
        I2cError::DataNak => Error::DataNak,
        I2cError::ArbitrationLost => Error::ArbitrationLost,
    }
}

pub struct SignbusPortLayer {
    /// Free transaction buffers.
    pub buffers: Vec<Vec<u8>>,
    /// Operations asked of the drivers and not yet taken.
    pub requests: Vec<HwRequest>,
    /// Whether a status indicator is fitted.
    pub debug_led: bool,
    /// Whether slave-listen mode was armed and must be re-armed after a
    /// master operation.
    pub listening: bool,
    /// Kind of the master operation in flight.
    pub master_action: MasterAction,
}

/// What a port is, seen from outside: its free buffers, the requests made,
/// and its modes.
pub struct PortView {
    pub buffers: Seq<Vec<u8>>,
    pub requests: Seq<HwRequest>,
    pub debug_led: bool,
    pub listening: bool,
    pub master_action: MasterAction,
}

impl View for SignbusPortLayer {
    type V = PortView;

    open spec fn view(&self) -> PortView {
        PortView {
            buffers: self.buffers@,
            requests: self.requests@,
            debug_led: self.debug_led,
            listening: self.listening,
            master_action: self.master_action,
        }
    }
}

impl SignbusPortLayer {
    /// Every free buffer can hold a whole transaction.
    pub open spec fn wf(&self) -> bool {
        forall|i: int| 0 <= i < self.buffers@.len() ==> #[trigger] self.buffers@[i]@.len() >= I2C_MAX_LEN
    }

    /// A port with the given free buffers and no request made.
    pub fn new(i2c_buffers: Vec<Vec<u8>>, debug_led: bool) -> (r: SignbusPortLayer)
        requires
            forall|i: int| 0 <= i < i2c_buffers@.len() ==> #[trigger] i2c_buffers@[i]@.len() >= I2C_MAX_LEN,
        ensures
            r.wf(),
            r.buffers@ == i2c_buffers@,
            r.requests@.len() == 0,
            r.debug_led == debug_led,
            !r.listening,
            r.master_action == MasterAction::Write,
    {
        SignbusPortLayer {
            buffers: i2c_buffers,
            requests: Vec::new(),
            debug_led,
            listening: false,
            master_action: MasterAction::Write,
        }
    }

    /// Hands over the requests made so far and empties the queue.
    pub fn take_requests(&mut self) -> (r: Vec<HwRequest>)
        ensures
            r@ == old(self).requests@,
            final(self).requests@.len() == 0,
            final(self).buffers == old(self).buffers,
            final(self).debug_led == old(self).debug_led,
            final(self).listening == old(self).listening,
            final(self).master_action == old(self).master_action,
    {
        let mut r: Vec<HwRequest> = Vec::new();
        std::mem::swap(&mut r, &mut self.requests);
        r
    }

    /// Number of free buffers.
    pub fn free_buffers(&self) -> (r: usize)
        ensures
            r == self.buffers@.len(),
    {
        self.buffers.len()
    }

    /// Sets this device's bus address; addresses above 0x7F are refused.
    pub fn init(&mut self, i2c_address: u8) -> (r: ReturnCode)
        ensures
            i2c_address > 0x7f ==> r == ReturnCode::Invalid && *final(self) == *old(self),
            i2c_address <= 0x7f ==> r == ReturnCode::Success && *final(self) == (SignbusPortLayer {
                requests: final(self).requests,
                ..*old(self)
            }) && final(self).requests@ == old(self).requests@.push(
                HwRequest::SetSlaveAddress(i2c_address),
            ),
    {
        if i2c_address > 0x7f {
            return ReturnCode::Invalid;
        }
        self.requests.push(HwRequest::SetSlaveAddress(i2c_address));
        ReturnCode::Success
    }

    /// Encodes `packet` with `len - HEADER_SIZE` bytes of payload into a free
    /// buffer and asks for a master write of `len` bytes to `i2c_address`.
    /// Busy, with nothing changed, when no buffer is free.
    pub fn i2c_master_write(&mut self, i2c_address: u8, packet: &Packet, len: usize) -> (r:
        ReturnCode)
        requires
            old(self).wf(),
            packet.wf(),
            HEADER_SIZE <= len <= I2C_MAX_LEN,
        ensures
            final(self).wf(),
            old(self).buffers@.len() == 0 ==> r == ReturnCode::Busy && *final(self) == *old(self),
            old(self).buffers@.len() > 0 ==> {
                &&& r == ReturnCode::Success
                &&& final(self).buffers@ == old(self).buffers@.drop_last()
                &&& final(self).master_action == MasterAction::Write
                &&& final(self).listening == old(self).listening
                &&& final(self).debug_led == old(self).debug_led
                &&& final(self).requests@.len() == old(self).requests@.len() + 1
                &&& final(self).requests@.drop_last() == old(self).requests@
                &&& is_master_write(
                    final(self).requests@.last(),
                    i2c_address,
                    encoding(packet.header, packet.data@, (len - HEADER_SIZE) as nat),
                )
            },
    {
        if self.buffers.len() == 0 {
            return ReturnCode::Busy;
        }
        match self.buffers.pop() {
            None => ReturnCode::Busy,
            Some(mut buffer) => {
                proof {
                    assert(old(self).buffers@[old(self).buffers@.len() - 1] == buffer);
                }
                serialize_packet(packet, len - HEADER_SIZE, &mut buffer);
                self.requests.push(HwRequest::MasterWrite { address: i2c_address, buffer, len: len as u8 });
                self.master_action = MasterAction::Write;
                proof {
                    assert(self.buffers@ =~= old(self).buffers@.drop_last());
                    assert(self.requests@.drop_last() =~= old(self).requests@);
                }
                ReturnCode::Success
            },
        }
    }

    /// Lends a free buffer, if there is one, to the slave receiver, then
    /// enables slave mode and listens.
    pub fn i2c_slave_listen(&mut self) -> (r: ReturnCode)
        requires
            old(self).wf(),
        ensures
            r == ReturnCode::Success,
            final(self).wf(),
            listen_post(old(self)@, final(self)@),
    {
        self.offer_buffer();
        self.requests.push(HwRequest::SlaveListen);
        self.listening = true;
        proof {
            assert(self.requests@.take(old(self).requests@.len() as int) =~= old(self).requests@);
        }
        ReturnCode::Success
    }

    /// Lends a free buffer, if there is one, to the slave receiver.
    fn offer_buffer(&mut self)
        requires
            old(self).wf(),
        ensures
            final(self).wf(),
            final(self).listening == old(self).listening,
            final(self).master_action == old(self).master_action,
            final(self).debug_led == old(self).debug_led,
            old(self).buffers@.len() == 0 ==> *final(self) == *old(self),
            old(self).buffers@.len() > 0 ==> {
                &&& final(self).buffers@ == old(self).buffers@.drop_last()
                &&& final(self).requests@.len() == old(self).requests@.len() + 1
                &&& final(self).requests@.drop_last() == old(self).requests@
                &&& is_write_receive(final(self).requests@.last())
            },
    {
        if self.buffers.len() == 0 {
            return ;
        }
        match self.buffers.pop() {
            None => {},
            Some(buffer) => {
                proof {
                    assert(old(self).buffers@[old(self).buffers@.len() - 1] == buffer);
                }
                self.requests.push(HwRequest::SlaveWriteReceive { buffer, len: I2C_MAX_LEN as u8 });
                proof {
                    assert(self.buffers@ =~= old(self).buffers@.drop_last());
                    assert(self.requests@.drop_last() =~= old(self).requests@);
                }
            },
        }
    }

    /// Reserved: a read by another device from this one is not served.
    pub fn i2c_slave_read_setup(&self, _buf: &[u8], _len: usize) -> (r: ReturnCode)
        ensures
            r == ReturnCode::Success,
    {
        ReturnCode::Success
    }

    /// Appends one request, changing nothing else.
    fn request(&mut self, req: HwRequest)
        requires
            old(self).wf(),
        ensures
            final(self).wf(),
            *final(self) == (SignbusPortLayer { requests: final(self).requests, ..*old(self) }),
            final(self).requests@ == old(self).requests@.push(req),
    {
        self.requests.push(req);
    }

    /// Drives the intent line high.
    pub fn mod_out_set(&mut self) -> (r: ReturnCode)
        requires
            old(self).wf(),
        ensures
            r == ReturnCode::Success,
            final(self).wf(),
            *final(self) == (SignbusPortLayer { requests: final(self).requests, ..*old(self) }),
            final(self).requests@ == old(self).requests@.push(HwRequest::ModOutSet),
    {
        self.request(HwRequest::ModOutSet);
        ReturnCode::Success
    }

    /// Drives the intent line low.
    pub fn mod_out_clear(&mut self) -> (r: ReturnCode)
        requires
            old(self).wf(),
        ensures
            r == ReturnCode::Success,
            final(self).wf(),
            *final(self) == (SignbusPortLayer { requests: final(self).requests, ..*old(self) }),
            final(self).requests@ == old(self).requests@.push(HwRequest::ModOutClear),
    {
        self.request(HwRequest::ModOutClear);
        ReturnCode::Success
    }

    /// Enables the falling-edge interrupt on the grant line.
    pub fn mod_in_enable_interrupt(&mut self) -> (r: ReturnCode)
        requires
            old(self).wf(),
        ensures
            r == ReturnCode::Success,
            final(self).wf(),
            *final(self) == (SignbusPortLayer { requests: final(self).requests, ..*old(self) }),
            final(self).requests@ == old(self).requests@.push(HwRequest::ModInEnableInterrupt),
    {
        self.request(HwRequest::ModInEnableInterrupt);
        ReturnCode::Success
    }

    /// Disables the grant line's interrupt.
    pub fn mod_in_disable_interrupt(&mut self) -> (r: ReturnCode)
        requires
            old(self).wf(),
        ensures
            r == ReturnCode::Success,
            final(self).wf(),
            *final(self) == (SignbusPortLayer { requests: final(self).requests, ..*old(self) }),
            final(self).requests@ == old(self).requests@.push(HwRequest::ModInDisableInterrupt),
    {
        self.request(HwRequest::ModInDisableInterrupt);
        ReturnCode::Success
    }

    /// Arms the timer for `time` milliseconds.
    pub fn delay_ms(&mut self, time: u32) -> (r: ReturnCode)
        requires
            old(self).wf(),
        ensures
            r == ReturnCode::Success,
            final(self).wf(),
            *final(self) == (SignbusPortLayer { requests: final(self).requests, ..*old(self) }),
            final(self).requests@ == old(self).requests@.push(HwRequest::Delay { ms: time }),
    {
        self.request(HwRequest::Delay { ms: time });
        ReturnCode::Success
    }

    /// Turns the status indicator on, where one is fitted.
    pub fn debug_led_on(&mut self) -> (r: ReturnCode)
        requires
            old(self).wf(),
        ensures
            r == ReturnCode::Success,
            final(self).wf(),
            *final(self) == (SignbusPortLayer { requests: final(self).requests, ..*old(self) }),
            final(self).requests@ == if old(self).debug_led {
                old(self).requests@.push(HwRequest::LedOn)
            } else {
                old(self).requests@
            },
    {
        if self.debug_led {
            self.request(HwRequest::LedOn);
        }
        ReturnCode::Success
    }

    /// Turns the status indicator off, where one is fitted.
    pub fn debug_led_off(&mut self) -> (r: ReturnCode)
        requires
            old(self).wf(),
        ensures
            r == ReturnCode::Success,
            final(self).wf(),
            *final(self) == (SignbusPortLayer { requests: final(self).requests, ..*old(self) }),
            final(self).requests@ == if old(self).debug_led {
                old(self).requests@.push(HwRequest::LedOff)
            } else {
                old(self).requests@
            },
    {
        if self.debug_led {
            self.request(HwRequest::LedOff);
        }
        ReturnCode::Success
    }

    /// Master completion: takes the buffer back into the pool and, after a
    /// write, returns the packet decoded from it with the mapped outcome.
    /// Once the event is dealt with, `restore_listen` re-arms slave mode.
    pub fn master_command_complete(&mut self, buffer: Vec<u8>, error: I2cError) -> (r: Option<
        (Packet, Error),
    >)
        requires
            old(self).wf(),
            buffer@.len() >= I2C_MAX_LEN,
        ensures
            final(self).wf(),
            final(self).buffers@ == old(self).buffers@.push(buffer),
            *final(self) == (SignbusPortLayer { buffers: final(self).buffers, ..*old(self) }),
            old(self).master_action == MasterAction::Write ==> (r matches Some((p, e)) && p.wf()
                && p.header == header_of(buffer@) && p.data@ == payload_of(buffer@) && e
                == error_of(error)),
            old(self).master_action != MasterAction::Write ==> r is None,
    {
        let err = map_i2c_error(error);
        let r = match self.master_action {
            MasterAction::Write => {
                let packet = unserialize_packet(buffer.as_slice());
                Some((packet, err))
            },
            MasterAction::Read(_) => None,
        };
        self.buffers.push(buffer);
        r
    }

    /// After a master operation: slave mode, suspended by it, is enabled
    /// again if the port was listening.
    pub fn restore_listen(&mut self)
        requires
            old(self).wf(),
        ensures
            final(self).wf(),
            *final(self) == (SignbusPortLayer { requests: final(self).requests, ..*old(self) }),
            final(self).requests@ == if old(self).listening {
                old(self).requests@.push(HwRequest::SlaveListen)
            } else {
                old(self).requests@
            },
    {
        if self.listening {
            self.request(HwRequest::SlaveListen);
        }
    }

    /// Slave completion: takes the buffer back into the pool and, after
    /// another device wrote to this one, returns the packet decoded from it
    /// with the transaction length and `CommandComplete`.
    pub fn slave_command_complete(
        &mut self,
        buffer: Vec<u8>,
        length: u8,
        transmission_type: SlaveTransmissionType,
    ) -> (r: Option<(Packet, u8, Error)>)
        requires
            old(self).wf(),
            buffer@.len() >= I2C_MAX_LEN,
        ensures
            final(self).wf(),
            final(self).buffers@ == old(self).buffers@.push(buffer),
            *final(self) == (SignbusPortLayer { buffers: final(self).buffers, ..*old(self) }),
            transmission_type == SlaveTransmissionType::Write ==> (r matches Some((p, l, e))
                && p.wf() && p.header == header_of(buffer@) && p.data@ == payload_of(buffer@) && l
                == length && e == Error::CommandComplete),
            transmission_type == SlaveTransmissionType::Read ==> r is None,
    {
        let r = match transmission_type {
            SlaveTransmissionType::Write => {
                let packet = unserialize_packet(buffer.as_slice());
                Some((packet, length, Error::CommandComplete))
            },
            SlaveTransmissionType::Read => None,
        };
        self.buffers.push(buffer);
        r
    }

    /// An inbound write began with no buffer lent to the receiver: lends a
    /// free one, if there is one.
    pub fn write_expected(&mut self)
        requires
            old(self).wf(),
        ensures
            final(self).wf(),
            final(self).listening == old(self).listening,
            final(self).master_action == old(self).master_action,
            final(self).debug_led == old(self).debug_led,
            old(self).buffers@.len() == 0 ==> *final(self) == *old(self),
            old(self).buffers@.len() > 0 ==> {
                &&& final(self).buffers@ == old(self).buffers@.drop_last()
                &&& final(self).requests@.len() == old(self).requests@.len() + 1
                &&& final(self).requests@.drop_last() == old(self).requests@
                &&& is_write_receive(final(self).requests@.last())
            },
    {
        self.offer_buffer();
    }
}

} // verus!
