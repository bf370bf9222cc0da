//! The framing layer: prefixes a message with its frame type, API type and
//! message type before it goes down the stack.
use vstd::prelude::*;
use crate::io_layer::{SignbusIOLayer, io_send_post};
use crate::port_layer::{PortView, SignbusPortLayer, listen_post};
use crate::protocol_layer::SignbusProtocolLayer;
use crate::support::ReturnCode;

verus! {

/// Length of the frame prefix: frame type, API type, message type.
pub const FRAME_PREFIX_LEN: usize = 3;

#[derive(Clone, Copy, Debug, PartialEq, Eq, Structural)]
pub enum SignbusFrameType {
    NotificationFrame,
    CommandFrame,
    ResponseFrame,
    ErrorFrame,
}

pub open spec fn frame_type_byte(t: SignbusFrameType) -> u8 {
    match t {
        SignbusFrameType::NotificationFrame => 0,
        SignbusFrameType::CommandFrame => 1,
        SignbusFrameType::ResponseFrame => 2,
        SignbusFrameType::ErrorFrame => 3,
    }
}

impl SignbusFrameType {
    /// The frame type's byte on the wire.
    pub fn to_u8(&self) -> (r: u8)
        ensures
            r == frame_type_byte(*self),
    {
        match self {
            SignbusFrameType::NotificationFrame => 0,
            SignbusFrameType::CommandFrame => 1,
            SignbusFrameType::ResponseFrame => 2,
            SignbusFrameType::ErrorFrame => 3,
        }
    }
}

#[derive(Clone, Copy, Debug, PartialEq, Eq, Structural)]
pub enum SignbusApiType {
    InitializationApiType,
    StorageApiType,
    NetworkingApiType,
    ProcessingApiType,
    EnergyApiType,
    TimeLocationApiType,
    EdisonApiType,
    JsonApiType,
    WatchdogApiType,
    HighestApiType,
}

pub open spec fn api_type_byte(t: SignbusApiType) -> u8 {
    match t {
        SignbusApiType::InitializationApiType => 1,
        SignbusApiType::StorageApiType => 2,
        SignbusApiType::NetworkingApiType => 3,
        SignbusApiType::ProcessingApiType => 4,
        SignbusApiType::EnergyApiType => 5,
        SignbusApiType::TimeLocationApiType => 6,
        SignbusApiType::EdisonApiType => 7,
        SignbusApiType::JsonApiType => 8,
        SignbusApiType::WatchdogApiType => 9,
        SignbusApiType::HighestApiType => 10,
    }
}

impl SignbusApiType {
    /// The API type's byte on the wire.
    pub fn to_u8(&self) -> (r: u8)
        ensures
            r == api_type_byte(*self),
    {
        match self {
            SignbusApiType::InitializationApiType => 1,
            SignbusApiType::StorageApiType => 2,
            SignbusApiType::NetworkingApiType => 3,
            SignbusApiType::ProcessingApiType => 4,
            SignbusApiType::EnergyApiType => 5,
            SignbusApiType::TimeLocationApiType => 6,
            SignbusApiType::EdisonApiType => 7,
            SignbusApiType::JsonApiType => 8,
            SignbusApiType::WatchdogApiType => 9,
            SignbusApiType::HighestApiType => 10,
        }
    }
}

/// The framed message: the three type bytes, then the message.
pub open spec fn app_frame(
    frame_type: SignbusFrameType,
    api_type: SignbusApiType,
    message_type: u8,
    message: Seq<u8>,
) -> Seq<u8> {
    seq![frame_type_byte(frame_type), api_type_byte(api_type), message_type] + message
}

/// What sending `frame` through the framing layer does: Size, with nothing
/// changed, when the frame does not fit the payload buffer; else what the
/// engine's send does with it, unencrypted.
pub open spec fn app_send_post(
    app0: SignbusAppLayer,
    app1: SignbusAppLayer,
    io0: SignbusIOLayer,
    io1: SignbusIOLayer,
    port0: PortView,
    port1: PortView,
    address: u8,
    frame: Seq<u8>,
    r: ReturnCode,
) -> bool {
    &&& app1.payload@.len() == app0.payload@.len()
    &&& frame.len() > app0.payload@.len() ==> r == ReturnCode::Size && io1 == io0 && port1 == port0
    &&& frame.len() <= app0.payload@.len() ==> io_send_post(io0, io1, port0, port1, address, false, frame, r)
}

pub struct SignbusAppLayer {
    /// Buffer in which a frame is built.
    pub payload: Vec<u8>,
}

impl SignbusAppLayer {
    pub fn new(payload: Vec<u8>) -> (r: SignbusAppLayer)
        ensures
            r.payload == payload,
    {
        SignbusAppLayer { payload }
    }

    /// Frames the first `message_length` bytes of `message` and sends the
    /// frame to `address`.
    pub fn signbus_app_send(
        &mut self,
        protocol_layer: &SignbusProtocolLayer,
        io: &mut SignbusIOLayer,
        port: &mut SignbusPortLayer,
        address: u8,
        frame_type: SignbusFrameType,
        api_type: SignbusApiType,
        message_type: u8,
        message_length: usize,
        message: &[u8],
    ) -> (r: ReturnCode)
        requires
            old(io).wf(),
            old(port).wf(),
            message_length <= message@.len(),
        ensures
            final(io).wf(),
            final(port).wf(),
            app_send_post(
                *old(self),
                *final(self),
                *old(io),
                *final(io),
                old(port)@,
                final(port)@,
                address,
                app_frame(frame_type, api_type, message_type, message@.take(message_length as int)),
                r,
            ),
    {
        let ghost frame = app_frame(frame_type, api_type, message_type, message@.take(message_length as int));
        if self.payload.len() < FRAME_PREFIX_LEN || message_length > self.payload.len() - FRAME_PREFIX_LEN {
            return ReturnCode::Size;
        }
        let len: usize = FRAME_PREFIX_LEN + message_length;
        self.payload.set(0, frame_type.to_u8());
        self.payload.set(1, api_type.to_u8());
        self.payload.set(2, message_type);
        let mut i: usize = 0;
        while i < message_length
            invariant
                i <= message_length,
                message_length <= message@.len(),
                frame == app_frame(frame_type, api_type, message_type, message@.take(message_length as int)),
                len == FRAME_PREFIX_LEN + message_length,
                len <= self.payload@.len(),
                self.payload@.len() == old(self).payload@.len(),
                forall|j: int| 0 <= j < FRAME_PREFIX_LEN + i ==> self.payload@[j] == frame[j],
            decreases message_length - i,
        {
            self.payload.set(FRAME_PREFIX_LEN + i, message[i]);
            i = i + 1;
        }
        assert(self.payload@.take(len as int) =~= frame);
        protocol_layer.signbus_protocol_send(io, port, address, self.payload.as_slice(), len)
    }

    /// Hands `buffer` down as the reassembly buffer and listens.
    pub fn signbus_app_recv(
        &self,
        protocol_layer: &SignbusProtocolLayer,
        io: &mut SignbusIOLayer,
        port: &mut SignbusPortLayer,
        buffer: Vec<u8>,
    ) -> (r: ReturnCode)
        requires
            old(io).wf(),
            old(port).wf(),
        ensures
            r == ReturnCode::Success,
            final(io).wf(),
            *final(io) == (SignbusIOLayer { recv_buf: Some(buffer), ..*old(io) }),
            final(port).wf(),
            listen_post(old(port)@, final(port)@),
    {
        protocol_layer.signbus_protocol_recv(io, port, buffer)
    }
}

} // verus!
