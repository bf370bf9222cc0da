//! The protocol layer: passes messages between the framing layer and the
//! fragmentation engine. Encryption is not offered, so every message goes
//! out with the encrypted flag clear.
use vstd::prelude::*;
use crate::io_layer::{SignbusIOLayer, io_send_post};
use crate::port_layer::{SignbusPortLayer, listen_post};
use crate::support::ReturnCode;

verus! {

pub struct SignbusProtocolLayer {}

impl SignbusProtocolLayer {
    pub fn new() -> (r: SignbusProtocolLayer) {
        SignbusProtocolLayer {  }
    }

    /// Sends the first `len` bytes of `data` to `dest`, unencrypted.
    pub fn signbus_protocol_send(
        &self,
        io: &mut SignbusIOLayer,
        port: &mut SignbusPortLayer,
        dest: u8,
        data: &[u8],
        len: usize,
    ) -> (r: ReturnCode)
        requires
            old(io).wf(),
            old(port).wf(),
            len <= data@.len(),
        ensures
            final(io).wf(),
            final(port).wf(),
            io_send_post(
                *old(io),
                *final(io),
                old(port)@,
                final(port)@,
                dest,
                false,
                data@.take(len as int),
                r,
            ),
    {
        io.signbus_io_send(port, dest, false, data, len)
    }

    /// Hands `buffer` to the engine as its reassembly buffer and listens.
    pub fn signbus_protocol_recv(
        &self,
        io: &mut SignbusIOLayer,
        port: &mut SignbusPortLayer,
        buffer: Vec<u8>,
    ) -> (r: ReturnCode)
        requires
            old(io).wf(),
            old(port).wf(),
        ensures
            r == ReturnCode::Success,
            final(io).wf(),
            *final(io) == (SignbusIOLayer { recv_buf: Some(buffer), ..*old(io) }),
            final(port).wf(),
            listen_post(old(port)@, final(port)@),
    {
        io.signbus_io_recv(port, buffer)
    }
}

} // verus!
