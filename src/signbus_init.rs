//! The bus-isolation handshake.
//!
//! A module asks the controller for exclusive use of the bus by driving the
//! intent line; the controller answers by pulling the grant line low. The
//! edge is trusted only if the line still reads low after a debounce delay;
//! then the module declares itself to the controller with a one-byte command
//! message sent down the stack.
//!
//! `SignbusInitialization` owns the whole stack and is where the drivers'
//! events come in: bus completions, the grant-line interrupt and the timer.
use vstd::prelude::*;
use crate::app_layer::{
    SignbusApiType, SignbusAppLayer, SignbusFrameType, api_type_byte, app_frame, app_send_post,
};
use crate::io_layer::{
    Received, SignbusIOLayer, gathered, msg_len, next_header, next_seq, outbound_header,
    packet_bytes, send_status, write_at,
};
use crate::port_layer::{
    HwRequest, I2cError, PortView, SignbusPortLayer, SlaveTransmissionType, error_of,
    is_master_write, is_write_receive, listen_post,
};
use crate::protocol_layer::SignbusProtocolLayer;
use crate::support::{Error, MasterAction, ReturnCode, header_of, payload_len, payload_of};

verus! {

/// Debounce delay after an edge on the grant line, in milliseconds.
pub const DEBOUNCE_MS: u32 = 50;

/// The byte that the declare message carries.
pub const DECLARE_PAYLOAD: u8 = 0x32;

/// Well-known bus addresses.
#[derive(Clone, Copy, Debug, PartialEq, Eq, Structural)]
pub enum ModuleAddress {
    Controller,
    Storage,
    Radio,
}

pub open spec fn module_address_byte(m: ModuleAddress) -> u8 {
    match m {
        ModuleAddress::Controller => 0x20,
        ModuleAddress::Storage => 0x21,
        ModuleAddress::Radio => 0x22,
    }
}

impl ModuleAddress {
    /// The module's 7-bit bus address.
    pub fn to_u8(&self) -> (r: u8)
        ensures
            r == module_address_byte(*self),
    {
        match self {
            ModuleAddress::Controller => 0x20,
            ModuleAddress::Storage => 0x21,
            ModuleAddress::Radio => 0x22,
        }
    }
}

/// Message types of the initialization API.
#[derive(Clone, Copy, Debug, PartialEq, Eq, Structural)]
pub enum InitMessageType {
    Declare,
    KeyExchange,
    GetMods,
}

pub open spec fn init_message_byte(m: InitMessageType) -> u8 {
    match m {
        InitMessageType::Declare => 0,
        InitMessageType::KeyExchange => 1,
        InitMessageType::GetMods => 2,
    }
}

impl InitMessageType {
    /// The message type's byte on the wire.
    pub fn to_u8(&self) -> (r: u8)
        ensures
            r == init_message_byte(*self),
    {
        match self {
            InitMessageType::Declare => 0,
            InitMessageType::KeyExchange => 1,
            InitMessageType::GetMods => 2,
        }
    }
}

/// State of the handshake.
#[derive(Clone, Copy, Debug, PartialEq, Eq, Structural)]
pub enum DelayState {
    Idle,
    /// An edge was seen on the grant line and the debounce timer is armed.
    RequestIsolation,
}

/// The framed declare message.
pub open spec fn declare_frame() -> Seq<u8> {
    app_frame(
        SignbusFrameType::CommandFrame,
        SignbusApiType::InitializationApiType,
        init_message_byte(InitMessageType::Declare),
        seq![DECLARE_PAYLOAD],
    )
}

/// The requests that ask the controller for isolation: raise the intent
/// line, indicator off, arm the grant-line interrupt, lower the intent line,
/// indicator on (the indicator ones only where one is fitted).
pub open spec fn isolation_requests(led: bool) -> Seq<HwRequest> {
    if led {
        seq![
            HwRequest::ModOutSet,
            HwRequest::LedOff,
            HwRequest::ModInEnableInterrupt,
            HwRequest::ModOutClear,
            HwRequest::LedOn,
        ]
    } else {
        seq![HwRequest::ModOutSet, HwRequest::ModInEnableInterrupt, HwRequest::ModOutClear]
    }
}

/// The requests made once isolation is granted, before the declare message:
/// disarm the grant-line interrupt, indicator on where one is fitted.
pub open spec fn granted_requests(led: bool) -> Seq<HwRequest> {
    if led {
        seq![HwRequest::ModInDisableInterrupt, HwRequest::LedOn]
    } else {
        seq![HwRequest::ModInDisableInterrupt]
    }
}

/// True when a received message answers a declaration correctly: it
/// arrived without error and echoes the initialization API type and the
/// declare message type.
pub open spec fn declare_response_ok(data: Seq<u8>, length: nat, error: Error) -> bool {
    &&& error == Error::CommandComplete
    &&& length >= 3
    &&& data.len() >= 3
    &&& data[1] == api_type_byte(SignbusApiType::InitializationApiType)
    &&& data[2] == init_message_byte(InitMessageType::Declare)
}

/// What the grant-line interrupt does: the handshake waits for the timer,
/// which is armed for the debounce delay; nothing else changes.
pub open spec fn interrupt_post(s0: SignbusInitialization, s1: SignbusInitialization) -> bool {
    &&& s1 == (SignbusInitialization {
        delay_state: DelayState::RequestIsolation,
        port_layer: s1.port_layer,
        ..s0
    })
    &&& s1.port_layer == (SignbusPortLayer { requests: s1.port_layer.requests, ..s0.port_layer })
    &&& s1.port_layer.requests@ == s0.port_layer.requests@.push(HwRequest::Delay { ms: DEBOUNCE_MS })
}

/// What the timer event does when the grant line reads `level` (see
/// `SignbusInitialization::delay_complete`).
pub open spec fn delay_complete_post(
    s0: SignbusInitialization,
    s1: SignbusInitialization,
    level: usize,
    r: ReturnCode,
) -> bool {
    &&& s0.delay_state == DelayState::Idle ==> r == ReturnCode::Success && s1 == s0
    &&& s0.delay_state == DelayState::RequestIsolation && level != 0 ==> r == ReturnCode::Success
        && s1 == (SignbusInitialization { delay_state: DelayState::Idle, ..s0 })
    &&& s0.delay_state == DelayState::RequestIsolation && level == 0 ==> {
        let port_mid = PortView {
            requests: s0.port_layer.requests@ + granted_requests(s0.port_layer.debug_led),
            ..s0.port_layer@
        };
        &&& s1.delay_state == DelayState::Idle
        &&& s1.recv_buf == s0.recv_buf
        &&& app_send_post(
            s0.app_layer,
            s1.app_layer,
            s0.io_layer,
            s1.io_layer,
            port_mid,
            s1.port_layer@,
            module_address_byte(ModuleAddress::Controller),
            declare_frame(),
            r,
        )
    }
}

/// The request that re-arms slave mode after a master operation, if the
/// port was listening.
pub open spec fn listen_tail(listening: bool) -> Seq<HwRequest> {
    if listening {
        seq![HwRequest::SlaveListen]
    } else {
        Seq::empty()
    }
}

/// True when a master completion with `error` carries a send chain on to
/// its next packet: the port was writing, a send is under way, the write
/// succeeded and more packets follow.
pub open spec fn continues_chain(port: SignbusPortLayer, io: SignbusIOLayer, error: I2cError) -> bool {
    &&& port.master_action == MasterAction::Write
    &&& io.in_flight is Some
    &&& error == I2cError::CommandComplete
    &&& io.in_flight->0.flags.is_fragment
}

/// Handshake debounce: after a grant-line interrupt, a timer event that
/// reads the line high sends nothing and leaves the engine as it was; one
/// that reads it low sends exactly one message, the declare message to the
/// controller, unless the stack refuses it (see `send_status`), in which
/// case it sends none.
pub proof fn lemma_handshake_debounce(
    s0: SignbusInitialization,
    s1: SignbusInitialization,
    s2: SignbusInitialization,
    level: usize,
    r: ReturnCode,
)
    requires
        s0.wf(),
        interrupt_post(s0, s1),
        delay_complete_post(s1, s2, level, r),
    ensures
        s2.delay_state == DelayState::Idle,
        level != 0 ==> s2.port_layer == s1.port_layer && s2.io_layer == s1.io_layer,
        level == 0 ==> {
            let added = s2.port_layer.requests@.skip(s1.port_layer.requests@.len() as int);
            let granted = granted_requests(s1.port_layer.debug_led);
            let h = outbound_header(
                s1.io_layer.this_device_address,
                next_seq(s1.io_layer.sequence_number),
                false,
                declare_frame().len(),
            );
            &&& s1.app_layer.payload@.len() >= declare_frame().len() ==> r == send_status(
                s1.io_layer,
                s1.port_layer.buffers@.len(),
                declare_frame().len(),
            )
            &&& r == ReturnCode::Success ==> {
                &&& added.len() == granted.len() + 1
                &&& forall|i: int| 0 <= i < granted.len() ==> !(added[i] is MasterWrite)
                &&& is_master_write(
                    added.last(),
                    module_address_byte(ModuleAddress::Controller),
                    packet_bytes(h, declare_frame()),
                )
            }
            &&& r != ReturnCode::Success ==> added == granted
        },
{
    let n = s1.port_layer.requests@.len() as int;
    let granted = granted_requests(s1.port_layer.debug_led);
    let added = s2.port_layer.requests@.skip(n);
    if level == 0 {
        if r == ReturnCode::Success {
            let full = s2.port_layer.requests@;
            assert(full.drop_last() == s1.port_layer.requests@ + granted);
            assert(full.len() == n + granted.len() + 1);
            assert forall|i: int| 0 <= i < added.len() implies added[i] == granted.push(full.last())[i] by {
                if i < granted.len() {
                    assert(full[n + i] == full.drop_last()[n + i]);
                }
            }
            assert(added =~= granted.push(full.last()));
        } else {
            assert(added =~= granted);
        }
    }
}

pub struct SignbusInitialization {
    pub app_layer: SignbusAppLayer,
    pub protocol_layer: SignbusProtocolLayer,
    pub io_layer: SignbusIOLayer,
    pub port_layer: SignbusPortLayer,
    pub delay_state: DelayState,
    /// Buffer of the declare message.
    pub send_buf: Vec<u8>,
    /// Reassembly buffer handed down when the module starts.
    pub recv_buf: Option<Vec<u8>>,
}

impl SignbusInitialization {
    pub open spec fn wf(&self) -> bool {
        &&& self.io_layer.wf()
        &&& self.port_layer.wf()
        &&& self.send_buf@.len() >= 1
    }

    pub fn new(
        app_layer: SignbusAppLayer,
        protocol_layer: SignbusProtocolLayer,
        io_layer: SignbusIOLayer,
        port_layer: SignbusPortLayer,
        send_buf: Vec<u8>,
        recv_buf: Vec<u8>,
    ) -> (r: SignbusInitialization)
        requires
            io_layer.wf(),
            port_layer.wf(),
            send_buf@.len() >= 1,
        ensures
            r.wf(),
            r.app_layer == app_layer,
            r.io_layer == io_layer,
            r.port_layer == port_layer,
            r.delay_state == DelayState::Idle,
            r.send_buf == send_buf,
            r.recv_buf == Some(recv_buf),
    {
        SignbusInitialization {
            app_layer,
            protocol_layer,
            io_layer,
            port_layer,
            delay_state: DelayState::Idle,
            send_buf,
            recv_buf: Some(recv_buf),
        }
    }

    /// Sends the declare message to the controller.
    pub fn signpost_initialization_declare_controller(&mut self) -> (r: ReturnCode)
        requires
            old(self).wf(),
        ensures
            final(self).wf(),
            final(self).delay_state == old(self).delay_state,
            final(self).recv_buf == old(self).recv_buf,
            app_send_post(
                old(self).app_layer,
                final(self).app_layer,
                old(self).io_layer,
                final(self).io_layer,
                old(self).port_layer@,
                final(self).port_layer@,
                module_address_byte(ModuleAddress::Controller),
                declare_frame(),
                r,
            ),
    {
        self.send_buf.set(0, DECLARE_PAYLOAD);
        assert(self.send_buf@.take(1) =~= seq![DECLARE_PAYLOAD]);
        self.app_layer.signbus_app_send(
            &self.protocol_layer,
            &mut self.io_layer,
            &mut self.port_layer,
            ModuleAddress::Controller.to_u8(),
            SignbusFrameType::CommandFrame,
            SignbusApiType::InitializationApiType,
            InitMessageType::Declare.to_u8(),
            1,
            self.send_buf.as_slice(),
        )
    }

    /// Asks the controller for isolation.
    pub fn signpost_initialization_request_isolation(&mut self)
        requires
            old(self).wf(),
        ensures
            final(self).wf(),
            *final(self) == (SignbusInitialization { port_layer: final(self).port_layer, ..*old(self) }),
            final(self).port_layer == (SignbusPortLayer {
                requests: final(self).port_layer.requests,
                ..old(self).port_layer
            }),
            final(self).port_layer.requests@ == old(self).port_layer.requests@ + isolation_requests(
                old(self).port_layer.debug_led,
            ),
    {
        self.port_layer.mod_out_set();
        self.port_layer.debug_led_off();
        self.port_layer.mod_in_enable_interrupt();
        self.port_layer.mod_out_clear();
        self.port_layer.debug_led_on();
        assert(self.port_layer.requests@ =~= old(self).port_layer.requests@ + isolation_requests(
            old(self).port_layer.debug_led,
        ));
    }

    /// Starts the module: sets its bus address, hands the reassembly buffer
    /// down and listens, then asks for isolation. An address above 0x7F is
    /// refused with nothing changed.
    pub fn signpost_initialization_module_init(&mut self, i2c_address: u8) -> (r: ReturnCode)
        requires
            old(self).wf(),
        ensures
            final(self).wf(),
            i2c_address > 0x7f ==> r == ReturnCode::Invalid && *final(self) == *old(self),
            i2c_address <= 0x7f ==> {
                let iso = isolation_requests(old(self).port_layer.debug_led);
                let reqs = final(self).port_layer.requests@;
                let addressed = PortView {
                    requests: old(self).port_layer.requests@.push(HwRequest::SetSlaveAddress(i2c_address)),
                    ..old(self).port_layer@
                };
                let before_isolation = PortView {
                    requests: reqs.take(reqs.len() - iso.len()),
                    ..final(self).port_layer@
                };
                &&& r == ReturnCode::Success
                &&& *final(self) == (SignbusInitialization {
                    io_layer: final(self).io_layer,
                    port_layer: final(self).port_layer,
                    recv_buf: None,
                    ..*old(self)
                })
                &&& final(self).io_layer == (SignbusIOLayer {
                    this_device_address: i2c_address,
                    recv_buf: final(self).io_layer.recv_buf,
                    ..old(self).io_layer
                })
                &&& old(self).recv_buf is Some ==> final(self).io_layer.recv_buf == old(self).recv_buf
                    && listen_post(addressed, before_isolation)
                &&& old(self).recv_buf is None ==> final(self).io_layer.recv_buf
                    == old(self).io_layer.recv_buf && before_isolation == addressed
                &&& reqs.len() >= iso.len()
                &&& reqs.skip(reqs.len() - iso.len()) == iso
            },
    {
        let rc = self.io_layer.signbus_io_init(&mut self.port_layer, i2c_address);
        if rc != ReturnCode::Success {
            return rc;
        }
        let mut slot: Option<Vec<u8>> = None;
        std::mem::swap(&mut slot, &mut self.recv_buf);
        match slot {
            Some(buf) => {
                self.app_layer.signbus_app_recv(
                    &self.protocol_layer,
                    &mut self.io_layer,
                    &mut self.port_layer,
                    buf,
                );
            },
            None => {},
        }
        let ghost mid = self.port_layer@;
        self.signpost_initialization_request_isolation();
        proof {
            let reqs = self.port_layer.requests@;
            let iso = isolation_requests(old(self).port_layer.debug_led);
            assert(reqs.take(reqs.len() - iso.len()) =~= mid.requests);
            assert(reqs.skip(reqs.len() - iso.len()) =~= iso);
        }
        ReturnCode::Success
    }

    /// The grant line fell: arms the debounce timer.
    pub fn mod_in_interrupt(&mut self)
        requires
            old(self).wf(),
        ensures
            final(self).wf(),
            interrupt_post(*old(self), *final(self)),
    {
        self.delay_state = DelayState::RequestIsolation;
        self.port_layer.delay_ms(DEBOUNCE_MS);
    }

    /// The timer fired; `mod_in_level` is what the grant line reads now.
    ///
    /// Unless the debounce timer was armed, nothing happens. Otherwise the
    /// handshake goes back to idle; if the line reads high the edge was
    /// spurious and nothing more happens; if it reads low, isolation is
    /// granted: the interrupt is disarmed, the indicator turned on and the
    /// declare message sent to the controller.
    pub fn delay_complete(&mut self, mod_in_level: usize) -> (r: ReturnCode)
        requires
            old(self).wf(),
        ensures
            final(self).wf(),
            delay_complete_post(*old(self), *final(self), mod_in_level, r),
    {
        match self.delay_state {
            DelayState::Idle => ReturnCode::Success,
            DelayState::RequestIsolation => {
                self.delay_state = DelayState::Idle;
                if mod_in_level != 0 {
                    return ReturnCode::Success;
                }
                self.port_layer.mod_in_disable_interrupt();
                self.port_layer.debug_led_on();
                assert(self.port_layer.requests@ =~= old(self).port_layer.requests@ + granted_requests(
                    old(self).port_layer.debug_led,
                ));
                self.signpost_initialization_declare_controller()
            },
        }
    }

    /// A message came up: reports whether it is a correct answer to the
    /// declaration, then hands its buffer back down for reassembly and
    /// listens again.
    pub fn packet_received(&mut self, message: Received) -> (r: bool)
        requires
            old(self).wf(),
        ensures
            final(self).wf(),
            r == declare_response_ok(message.data@, message.length as nat, message.error),
            *final(self) == (SignbusInitialization {
                io_layer: final(self).io_layer,
                port_layer: final(self).port_layer,
                ..*old(self)
            }),
            final(self).io_layer == (SignbusIOLayer { recv_buf: Some(message.data), ..old(self).io_layer }),
            listen_post(old(self).port_layer@, final(self).port_layer@),
    {
        let ok = message.error == Error::CommandComplete && message.length >= 3 && message.data.len()
            >= 3 && message.data[1] == SignbusApiType::InitializationApiType.to_u8() && message.data[2]
            == InitMessageType::Declare.to_u8();
        self.app_layer.signbus_app_recv(
            &self.protocol_layer,
            &mut self.io_layer,
            &mut self.port_layer,
            message.data,
        );
        ok
    }

    /// The bus driver finished a master operation with `buffer` and
    /// `error`. The buffer goes back to the port's pool. After a write, the
    /// send under way goes on or ends (see `SignbusIOLayer::packet_sent`);
    /// the result is the outcome of the message when it ended. Slave mode is
    /// then re-armed if it was on.
    pub fn i2c_master_command_complete(&mut self, buffer: Vec<u8>, error: I2cError) -> (r: Option<
        Error,
    >)
        requires
            old(self).wf(),
            buffer@.len() >= crate::support::I2C_MAX_LEN,
        ensures
            final(self).wf(),
            *final(self) == (SignbusInitialization {
                io_layer: final(self).io_layer,
                port_layer: final(self).port_layer,
                ..*old(self)
            }),
            final(self).port_layer.listening == old(self).port_layer.listening,
            final(self).port_layer.master_action == old(self).port_layer.master_action,
            final(self).port_layer.debug_led == old(self).port_layer.debug_led,
            !continues_chain(old(self).port_layer, old(self).io_layer, error) ==> {
                &&& final(self).port_layer.buffers@ == old(self).port_layer.buffers@.push(buffer)
                &&& final(self).port_layer.requests@ == old(self).port_layer.requests@ + listen_tail(
                    old(self).port_layer.listening,
                )
            },
            (old(self).port_layer.master_action != MasterAction::Write
                || old(self).io_layer.in_flight is None) ==> r is None && final(self).io_layer
                == old(self).io_layer,
            old(self).port_layer.master_action == MasterAction::Write
                && old(self).io_layer.in_flight is Some && (error != I2cError::CommandComplete
                || !old(self).io_layer.in_flight->0.flags.is_fragment) ==> {
                &&& r == Some(error_of(error))
                &&& final(self).io_layer == (SignbusIOLayer { in_flight: None, ..old(self).io_layer })
            },
            continues_chain(old(self).port_layer, old(self).io_layer, error) ==> {
                let h = old(self).io_layer.in_flight->0;
                let n = old(self).port_layer.requests@.len() as int;
                let reqs = final(self).port_layer.requests@;
                &&& r is None
                &&& final(self).io_layer == (SignbusIOLayer {
                    in_flight: Some(next_header(h)),
                    chain_index: Ghost(old(self).io_layer.chain_index@ + 1),
                    ..old(self).io_layer
                })
                &&& final(self).port_layer.buffers@ == old(self).port_layer.buffers@
                &&& reqs.len() == n + 1 + listen_tail(old(self).port_layer.listening).len()
                &&& reqs.take(n) == old(self).port_layer.requests@
                &&& is_master_write(
                    reqs[n],
                    old(self).io_layer.send_dest,
                    packet_bytes(next_header(h), old(self).io_layer.data_buf@.take(msg_len(h))),
                )
                &&& reqs.skip(n + 1) == listen_tail(old(self).port_layer.listening)
            },
    {
        let ghost n = old(self).port_layer.requests@.len() as int;
        let event = self.port_layer.master_command_complete(buffer, error);
        let r = match event {
            Some((_packet, err)) => self.io_layer.packet_sent(&mut self.port_layer, err),
            None => None,
        };
        let ghost mid = self.port_layer.requests@;
        self.port_layer.restore_listen();
        proof {
            let reqs = self.port_layer.requests@;
            let tail = listen_tail(old(self).port_layer.listening);
            assert(reqs =~= mid + tail);
            if continues_chain(old(self).port_layer, old(self).io_layer, error) {
                assert(mid.len() == n + 1);
                assert(mid =~= old(self).port_layer.requests@.push(mid.last()));
                assert(reqs.take(n) =~= old(self).port_layer.requests@);
                assert(reqs[n] == mid.last());
                assert(reqs.skip(n + 1) =~= tail);
                assert(self.port_layer.buffers@ =~= old(self).port_layer.buffers@);
            }
        }
        r
    }

    /// The bus driver finished a slave operation with `buffer`, which goes
    /// back to the port's pool. After a write by another device, the packet
    /// decoded from the buffer goes to the reassembly engine (see
    /// `SignbusIOLayer::packet_received`). When that completes a message, the
    /// result says whether it correctly answers the declaration, and its
    /// buffer is handed back down for the next message with slave mode
    /// re-armed (see `packet_received`).
    pub fn i2c_slave_command_complete(
        &mut self,
        buffer: Vec<u8>,
        length: u8,
        transmission_type: SlaveTransmissionType,
    ) -> (r: Option<bool>)
        requires
            old(self).wf(),
            buffer@.len() >= crate::support::I2C_MAX_LEN,
        ensures
            final(self).wf(),
            *final(self) == (SignbusInitialization {
                io_layer: final(self).io_layer,
                port_layer: final(self).port_layer,
                ..*old(self)
            }),
            ({
                let pooled = PortView {
                    buffers: old(self).port_layer.buffers@.push(buffer),
                    ..old(self).port_layer@
                };
                let h = header_of(buffer@);
                let total = gathered(old(self).io_layer, h);
                let data = write_at(
                    old(self).io_layer.recv_buf->0@,
                    h.fragment_offset as int,
                    payload_of(buffer@).take(payload_len(h) as int),
                );
                let handed_up = transmission_type == SlaveTransmissionType::Write
                    && !h.flags.is_fragment && old(self).io_layer.recv_buf is Some;
                &&& !handed_up ==> final(self).port_layer@ == pooled
                &&& transmission_type == SlaveTransmissionType::Read ==> r is None
                    && final(self).io_layer == old(self).io_layer
                &&& transmission_type == SlaveTransmissionType::Write ==> {
                    &&& final(self).io_layer == (SignbusIOLayer {
                        message_seq_no: h.sequence_number,
                        message_src: h.src,
                        length_received: final(self).io_layer.length_received,
                        recv_buf: final(self).io_layer.recv_buf,
                        ..old(self).io_layer
                    })
                    &&& h.flags.is_fragment ==> {
                        &&& r is None
                        &&& final(self).io_layer.length_received == total
                        &&& old(self).io_layer.recv_buf is None ==> final(self).io_layer.recv_buf is None
                        &&& old(self).io_layer.recv_buf is Some ==> (final(self).io_layer.recv_buf
                            matches Some(b) && b@ == data)
                    }
                    &&& !h.flags.is_fragment ==> final(self).io_layer.length_received == 0
                    &&& !h.flags.is_fragment && old(self).io_layer.recv_buf is None ==> r is None
                        && final(self).io_layer.recv_buf is None
                }
                &&& handed_up ==> {
                    &&& r == Some(declare_response_ok(data, total, Error::CommandComplete))
                    &&& final(self).io_layer.recv_buf matches Some(b) && b@ == data
                    &&& listen_post(pooled, final(self).port_layer@)
                }
            }),
    {
        let event = self.port_layer.slave_command_complete(buffer, length, transmission_type);
        match event {
            Some((packet, len, err)) => match self.io_layer.packet_received(&packet, len, err) {
                Some(message) => Some(self.packet_received(message)),
                None => None,
            },
            None => None,
        }
    }

    /// An inbound write began with no buffer lent to the receiver: a free
    /// port buffer, if there is one, is lent to it at once.
    pub fn i2c_write_expected(&mut self)
        requires
            old(self).wf(),
        ensures
            final(self).wf(),
            *final(self) == (SignbusInitialization { port_layer: final(self).port_layer, ..*old(self) }),
            final(self).port_layer.listening == old(self).port_layer.listening,
            final(self).port_layer.master_action == old(self).port_layer.master_action,
            final(self).port_layer.debug_led == old(self).port_layer.debug_led,
            old(self).port_layer.buffers@.len() == 0 ==> final(self).port_layer
                == old(self).port_layer,
            old(self).port_layer.buffers@.len() > 0 ==> {
                &&& final(self).port_layer.buffers@ == old(self).port_layer.buffers@.drop_last()
                &&& final(self).port_layer.requests@.len() == old(self).port_layer.requests@.len() + 1
                &&& final(self).port_layer.requests@.drop_last() == old(self).port_layer.requests@
                &&& is_write_receive(final(self).port_layer.requests@.last())
            },
    {
        self.port_layer.write_expected();
    }
}

} // verus!
