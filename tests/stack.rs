use signbus::app_layer::{SignbusApiType, SignbusAppLayer, SignbusFrameType};
use signbus::io_layer::{Received, SignbusIOLayer};
use signbus::port_layer::{map_i2c_error, HwRequest, I2cError, SignbusPortLayer, SlaveTransmissionType};
use signbus::protocol_layer::SignbusProtocolLayer;
use signbus::signbus_init::{DelayState, InitMessageType, ModuleAddress, SignbusInitialization};
use signbus::support::{
    serialize_packet, unserialize_packet, Error, MasterAction, Packet, ReturnCode,
    SignbusNetworkFlags, SignbusNetworkHeader, I2C_MAX_DATA_LEN, I2C_MAX_LEN,
};

fn port_with(buffers: usize, led: bool) -> SignbusPortLayer {
    SignbusPortLayer::new((0..buffers).map(|_| vec![0u8; I2C_MAX_LEN]).collect(), led)
}

fn header(is_fragment: bool, src: u8, seq: u16, length: u16, offset: u16) -> SignbusNetworkHeader {
    SignbusNetworkHeader {
        flags: SignbusNetworkFlags {
            is_fragment,
            is_encrypted: false,
            rsv_wire_bit5: false,
            rsv_wire_bit4: false,
            version: 1,
        },
        src,
        sequence_number: seq,
        length,
        fragment_offset: offset,
    }
}

fn packet(h: SignbusNetworkHeader, byte: u8) -> Packet {
    Packet { header: h, data: vec![byte; I2C_MAX_DATA_LEN] }
}

/// The master writes among `reqs`: (address, buffer, length).
fn master_writes(reqs: Vec<HwRequest>) -> Vec<(u8, Vec<u8>, u8)> {
    reqs.into_iter()
        .filter_map(|r| match r {
            HwRequest::MasterWrite { address, buffer, len } => Some((address, buffer, len)),
            _ => None,
        })
        .collect()
}

struct Sent {
    header: SignbusNetworkHeader,
    payload: Vec<u8>,
}

/// Sends `msg` and completes every write with `outcome(k)` for packet k,
/// returning the packets written and the outcome that went up.
fn run_chain(msg: &[u8], outcome: impl Fn(usize) -> I2cError) -> (Vec<Sent>, Option<Error>, SignbusPortLayer) {
    let mut port = port_with(1, false);
    let mut io = SignbusIOLayer::new(vec![0u8; 1024], vec![0u8; 1024]);
    assert_eq!(io.signbus_io_send(&mut port, 0x20, false, msg, msg.len()), ReturnCode::Success);
    let mut sent = Vec::new();
    loop {
        let mut writes = master_writes(port.take_requests());
        assert_eq!(writes.len(), 1);
        let (address, buffer, len) = writes.pop().unwrap();
        assert_eq!(address, 0x20);
        let p = unserialize_packet(&buffer[..len as usize]);
        sent.push(Sent { header: p.header, payload: buffer[12..len as usize].to_vec() });
        let k = sent.len() - 1;
        let (_, err) = port.master_command_complete(buffer, outcome(k)).unwrap();
        if let Some(done) = io.packet_sent(&mut port, err) {
            return (sent, Some(done), port);
        }
    }
}

#[test]
fn message_of_500_goes_in_three_fragments() {
    let msg: Vec<u8> = (0..500).map(|i| (i % 251) as u8).collect();
    let (sent, done, mut port) = run_chain(&msg, |_| I2cError::CommandComplete);
    assert_eq!(done, Some(Error::CommandComplete));
    let lens: Vec<usize> = sent.iter().map(|s| s.payload.len()).collect();
    let offsets: Vec<u16> = sent.iter().map(|s| s.header.fragment_offset).collect();
    let more: Vec<bool> = sent.iter().map(|s| s.header.flags.is_fragment).collect();
    assert_eq!(lens, vec![243, 243, 14]);
    assert_eq!(offsets, vec![0, 243, 486]);
    assert_eq!(more, vec![true, true, false]);
    assert!(sent.iter().all(|s| s.header.sequence_number == 1 && s.header.length == 512));
    let joined: Vec<u8> = sent.iter().flat_map(|s| s.payload.clone()).collect();
    assert_eq!(joined, msg);
    assert!(port.take_requests().is_empty());
}

#[test]
fn fragment_counts_follow_the_ceiling() {
    for (len, count) in [(0usize, 1usize), (1, 1), (243, 1), (244, 2), (486, 2), (487, 3), (1000, 5)] {
        let msg: Vec<u8> = (0..len).map(|i| (i * 7) as u8).collect();
        let (sent, done, _) = run_chain(&msg, |_| I2cError::CommandComplete);
        assert_eq!(done, Some(Error::CommandComplete));
        assert_eq!(sent.len(), count, "length {}", len);
        let mut offset = 0usize;
        for s in &sent {
            assert_eq!(s.header.fragment_offset as usize, offset);
            offset += s.payload.len();
        }
        let joined: Vec<u8> = sent.iter().flat_map(|s| s.payload.clone()).collect();
        assert_eq!(joined, msg);
    }
}

#[test]
fn address_nak_mid_chain_stops_the_send() {
    let msg = vec![0x5au8; 500];
    let (sent, done, mut port) = run_chain(&msg, |k| {
        if k == 1 {
            I2cError::AddressNak
        } else {
            I2cError::CommandComplete
        }
    });
    assert_eq!(sent.len(), 2);
    assert_eq!(done, Some(Error::AddressNak));
    assert!(master_writes(port.take_requests()).is_empty());
}

#[test]
fn sequence_number_is_per_message_and_wraps() {
    let mut port = port_with(2, false);
    let mut io = SignbusIOLayer::new(vec![0u8; 64], vec![0u8; 64]);
    assert_eq!(io.signbus_io_send(&mut port, 0x21, true, &[1, 2, 3], 3), ReturnCode::Success);
    assert_eq!(io.signbus_io_send(&mut port, 0x21, true, &[1, 2, 3], 3), ReturnCode::Busy);
    let (_, buffer, len) = master_writes(port.take_requests()).pop().unwrap();
    let p = unserialize_packet(&buffer[..len as usize]);
    assert_eq!(p.header.sequence_number, 1);
    assert!(p.header.flags.is_encrypted);
    assert_eq!(len, 15);
    assert_eq!(&p.data[..3], &[1, 2, 3]);
    port.master_command_complete(buffer, I2cError::CommandComplete);
    assert_eq!(io.packet_sent(&mut port, Error::CommandComplete), Some(Error::CommandComplete));
    io.sequence_number = u16::MAX;
    assert_eq!(io.signbus_io_send(&mut port, 0x21, false, &[4], 1), ReturnCode::Success);
    assert_eq!(io.sequence_number, 0);
}

#[test]
fn send_refuses_what_does_not_fit() {
    let mut port = port_with(1, false);
    let mut io = SignbusIOLayer::new(vec![0u8; 64], vec![0u8; 300]);
    let big = vec![0u8; 70000];
    assert_eq!(io.signbus_io_send(&mut port, 0x21, false, &big, 65524), ReturnCode::Size);
    assert_eq!(io.signbus_io_send(&mut port, 0x21, false, &big, 301), ReturnCode::Size);
    assert_eq!(io.sequence_number, 0);
    assert_eq!(io.signbus_io_send(&mut port, 0x21, false, &big, 300), ReturnCode::Success);
    let mut empty = port_with(0, false);
    let mut io2 = SignbusIOLayer::new(vec![0u8; 64], vec![0u8; 300]);
    assert_eq!(io2.signbus_io_send(&mut empty, 0x21, false, &big, 10), ReturnCode::Busy);
}

#[test]
fn single_transaction_message_completes_at_once() {
    let mut io = SignbusIOLayer::new(vec![0u8; 64], vec![0u8; 64]);
    let got = io.packet_received(&packet(header(false, 0x22, 4, 20, 0), 9), 20, Error::CommandComplete);
    let got = got.expect("message goes up");
    assert_eq!(got.length, 8);
    assert_eq!(got.error, Error::CommandComplete);
    assert_eq!(&got.data[..8], &[9; 8]);
    assert_eq!(got.data[8], 0);
    assert_eq!(io.length_received, 0);
    assert!(io.recv_buf.is_none());
}

#[test]
fn colliding_sender_restarts_reassembly() {
    let mut io = SignbusIOLayer::new(vec![0u8; 1024], vec![0u8; 64]);
    assert!(io.packet_received(&packet(header(true, 1, 5, 12 + 600, 0), 1), 255, Error::CommandComplete).is_none());
    assert_eq!(io.length_received, 243);
    assert!(io.packet_received(&packet(header(true, 2, 9, 12 + 600, 0), 2), 255, Error::CommandComplete).is_none());
    assert_eq!(io.length_received, 243);
    assert_eq!((io.message_src, io.message_seq_no), (2, 9));
    let got = io
        .packet_received(&packet(header(false, 2, 9, 12 + 250, 243), 3), 19, Error::CommandComplete)
        .unwrap();
    assert_eq!(got.length, 250);
    assert!(got.data[..243].iter().all(|b| *b == 2));
    assert!(got.data[243..250].iter().all(|b| *b == 3));
}

#[test]
fn collision_on_the_last_packet_counts_only_the_new_message() {
    let mut io = SignbusIOLayer::new(vec![0u8; 1024], vec![0u8; 64]);
    io.packet_received(&packet(header(true, 1, 5, 12 + 600, 0), 1), 255, Error::CommandComplete);
    let got = io.packet_received(&packet(header(false, 3, 5, 12 + 30, 0), 4), 42, Error::CommandComplete);
    assert_eq!(got.unwrap().length, 30);
}

#[test]
fn receive_error_flushes_the_partial_message() {
    let mut io = SignbusIOLayer::new(vec![0u8; 1024], vec![0u8; 64]);
    io.packet_received(&packet(header(true, 1, 5, 12 + 600, 0), 1), 255, Error::CommandComplete);
    let got: Received = io
        .packet_received(&packet(header(true, 1, 5, 12 + 600, 243), 1), 255, Error::DataNak)
        .unwrap();
    assert_eq!(got.length, 243);
    assert_eq!(got.error, Error::DataNak);
    assert_eq!(io.length_received, 0);
    assert!(io.packet_received(&packet(header(false, 1, 6, 20, 0), 1), 20, Error::CommandComplete).is_none());
}

#[test]
fn port_refuses_high_address() {
    let mut port = port_with(1, false);
    assert_eq!(port.init(0x80), ReturnCode::Invalid);
    assert!(port.take_requests().is_empty());
    assert_eq!(port.init(0x7f), ReturnCode::Success);
    assert!(matches!(port.take_requests().as_slice(), [HwRequest::SetSlaveAddress(0x7f)]));
}

#[test]
fn port_write_needs_a_free_buffer() {
    let mut port = port_with(0, false);
    let p = packet(header(false, 1, 1, 13, 0), 0);
    assert_eq!(port.i2c_master_write(0x20, &p, 13), ReturnCode::Busy);
    assert!(port.take_requests().is_empty());
    port.write_expected();
    assert!(port.take_requests().is_empty());
}

#[test]
fn port_listen_lends_a_buffer_and_rearms_after_master_ops() {
    let mut port = port_with(2, false);
    assert_eq!(port.i2c_slave_listen(), ReturnCode::Success);
    let reqs = port.take_requests();
    assert!(matches!(reqs[0], HwRequest::SlaveWriteReceive { len: 255, .. }));
    assert!(matches!(reqs[1], HwRequest::SlaveListen));
    assert!(port.listening);
    let p = packet(header(false, 1, 1, 14, 0), 6);
    assert_eq!(port.i2c_master_write(0x20, &p, 14), ReturnCode::Success);
    assert_eq!(port.master_action, MasterAction::Write);
    let (_, buffer, _) = master_writes(port.take_requests()).pop().unwrap();
    let (q, e) = port.master_command_complete(buffer, I2cError::DataNak).unwrap();
    assert_eq!(e, Error::DataNak);
    assert_eq!(q.header, p.header);
    assert_eq!(&q.data[..2], &[6, 6]);
    assert_eq!(port.free_buffers(), 1);
    port.restore_listen();
    assert!(matches!(port.take_requests().as_slice(), [HwRequest::SlaveListen]));
}

#[test]
fn port_slave_completion_decodes_writes_only() {
    let mut port = port_with(0, false);
    let mut buf = vec![0u8; I2C_MAX_LEN];
    serialize_packet(&packet(header(false, 0x21, 3, 15, 0), 8), 3, &mut buf);
    let (p, len, e) = port.slave_command_complete(buf.clone(), 15, SlaveTransmissionType::Write).unwrap();
    assert_eq!(p.header.src, 0x21);
    assert_eq!(len, 15);
    assert_eq!(e, Error::CommandComplete);
    assert!(port.slave_command_complete(buf, 15, SlaveTransmissionType::Read).is_none());
    assert_eq!(port.free_buffers(), 2);
    port.write_expected();
    assert!(matches!(port.take_requests().as_slice(), [HwRequest::SlaveWriteReceive { len: 255, .. }]));
}

#[test]
fn bus_errors_map_one_to_one() {
    assert_eq!(map_i2c_error(I2cError::CommandComplete), Error::CommandComplete);
    assert_eq!(map_i2c_error(I2cError::AddressNak), Error::AddressNak);
    assert_eq!(map_i2c_error(I2cError::DataNak), Error::DataNak);
    assert_eq!(map_i2c_error(I2cError::ArbitrationLost), Error::ArbitrationLost);
}

#[test]
fn app_layer_prefixes_the_frame() {
    let mut port = port_with(1, false);
    let mut io = SignbusIOLayer::new(vec![0u8; 64], vec![0u8; 64]);
    let proto = SignbusProtocolLayer::new();
    let mut app = SignbusAppLayer::new(vec![0u8; 8]);
    let rc = app.signbus_app_send(
        &proto, &mut io, &mut port, 0x21,
        SignbusFrameType::ResponseFrame, SignbusApiType::StorageApiType, 7, 2, &[9, 8, 7],
    );
    assert_eq!(rc, ReturnCode::Success);
    let (address, buffer, len) = master_writes(port.take_requests()).pop().unwrap();
    assert_eq!(address, 0x21);
    assert_eq!(len, 17);
    assert_eq!(&buffer[12..17], &[2, 2, 7, 9, 8]);
    let p = unserialize_packet(&buffer[..17]);
    assert!(!p.header.flags.is_encrypted);
    let mut io2 = SignbusIOLayer::new(vec![0u8; 64], vec![0u8; 64]);
    let rc = app.signbus_app_send(
        &proto, &mut io2, &mut port, 0x21,
        SignbusFrameType::ErrorFrame, SignbusApiType::HighestApiType, 1, 6, &[0; 6],
    );
    assert_eq!(rc, ReturnCode::Size);
}

#[test]
fn type_bytes_match_the_wire() {
    assert_eq!(SignbusFrameType::NotificationFrame.to_u8(), 0);
    assert_eq!(SignbusFrameType::ErrorFrame.to_u8(), 3);
    assert_eq!(SignbusApiType::InitializationApiType.to_u8(), 1);
    assert_eq!(SignbusApiType::WatchdogApiType.to_u8(), 9);
    assert_eq!(SignbusApiType::HighestApiType.to_u8(), 10);
    assert_eq!(ModuleAddress::Controller.to_u8(), 0x20);
    assert_eq!(ModuleAddress::Storage.to_u8(), 0x21);
    assert_eq!(ModuleAddress::Radio.to_u8(), 0x22);
    assert_eq!(InitMessageType::Declare.to_u8(), 0);
}

fn stack(led: bool) -> SignbusInitialization {
    SignbusInitialization::new(
        SignbusAppLayer::new(vec![0u8; 512]),
        SignbusProtocolLayer::new(),
        SignbusIOLayer::new(vec![0u8; 1024], vec![0u8; 1024]),
        port_with(2, led),
        vec![0u8; 4],
        vec![0u8; 1024],
    )
}

#[test]
fn module_init_listens_then_requests_isolation() {
    let mut s = stack(true);
    assert_eq!(s.signpost_initialization_module_init(0x80), ReturnCode::Invalid);
    assert!(s.port_layer.take_requests().is_empty());
    assert_eq!(s.signpost_initialization_module_init(0x32), ReturnCode::Success);
    assert_eq!(s.io_layer.this_device_address, 0x32);
    let reqs = s.port_layer.take_requests();
    assert_eq!(reqs.len(), 8);
    assert!(matches!(reqs[0], HwRequest::SetSlaveAddress(0x32)));
    assert!(matches!(reqs[1], HwRequest::SlaveWriteReceive { .. }));
    assert!(matches!(reqs[2], HwRequest::SlaveListen));
    assert!(matches!(reqs[3], HwRequest::ModOutSet));
    assert!(matches!(reqs[4], HwRequest::LedOff));
    assert!(matches!(reqs[5], HwRequest::ModInEnableInterrupt));
    assert!(matches!(reqs[6], HwRequest::ModOutClear));
    assert!(matches!(reqs[7], HwRequest::LedOn));
}

#[test]
fn spurious_grant_edge_sends_nothing() {
    let mut s = stack(false);
    s.mod_in_interrupt();
    assert_eq!(s.delay_state, DelayState::RequestIsolation);
    assert!(matches!(s.port_layer.take_requests().as_slice(), [HwRequest::Delay { ms: 50 }]));
    assert_eq!(s.delay_complete(1), ReturnCode::Success);
    assert_eq!(s.delay_state, DelayState::Idle);
    assert!(s.port_layer.take_requests().is_empty());
    assert_eq!(s.delay_complete(0), ReturnCode::Success);
    assert!(s.port_layer.take_requests().is_empty());
}

#[test]
fn granted_isolation_sends_one_declare() {
    let mut s = stack(true);
    s.mod_in_interrupt();
    s.port_layer.take_requests();
    assert_eq!(s.delay_complete(0), ReturnCode::Success);
    assert_eq!(s.delay_state, DelayState::Idle);
    let reqs = s.port_layer.take_requests();
    assert!(matches!(reqs[0], HwRequest::ModInDisableInterrupt));
    assert!(matches!(reqs[1], HwRequest::LedOn));
    let writes = master_writes(reqs);
    assert_eq!(writes.len(), 1);
    let (address, buffer, len) = &writes[0];
    assert_eq!(*address, 0x20);
    assert_eq!(*len, 16);
    assert_eq!(&buffer[12..16], &[1, 1, 0, 0x32]);
    let p = unserialize_packet(&buffer[..16]);
    assert_eq!(p.header.length, 16);
    assert!(!p.header.flags.is_fragment);
}

#[test]
fn declare_completion_goes_up_and_rearms_listen() {
    let mut s = stack(false);
    assert_eq!(s.signpost_initialization_module_init(0x32), ReturnCode::Success);
    s.port_layer.take_requests();
    s.mod_in_interrupt();
    s.delay_complete(0);
    let (_, buffer, _) = master_writes(s.port_layer.take_requests()).pop().unwrap();
    assert_eq!(s.i2c_master_command_complete(buffer, I2cError::CommandComplete), Some(Error::CommandComplete));
    assert!(s.io_layer.in_flight.is_none());
    assert!(matches!(s.port_layer.take_requests().as_slice(), [HwRequest::SlaveListen]));
}

#[test]
fn controller_answer_is_checked() {
    let mut s = stack(false);
    assert_eq!(s.signpost_initialization_module_init(0x32), ReturnCode::Success);
    let answer = |api: u8| {
        let mut p = packet(header(false, 0x20, 1, 16, 0), 0);
        p.data[..4].copy_from_slice(&[2, api, 0, 0x32]);
        let mut buf = vec![0u8; I2C_MAX_LEN];
        serialize_packet(&p, 4, &mut buf);
        buf
    };
    assert_eq!(s.i2c_slave_command_complete(answer(1), 16, SlaveTransmissionType::Write), Some(true));
    assert!(s.io_layer.recv_buf.is_some());
    assert_eq!(s.i2c_slave_command_complete(answer(2), 16, SlaveTransmissionType::Write), Some(false));
    assert_eq!(s.i2c_slave_command_complete(answer(1), 16, SlaveTransmissionType::Read), None);
    s.i2c_write_expected();
}

#[test]
fn master_completion_continues_the_chain_through_the_stack() {
    let mut s = stack(false);
    assert_eq!(s.signpost_initialization_module_init(0x32), ReturnCode::Success);
    s.port_layer.take_requests();
    let msg: Vec<u8> = (0..300).map(|i| i as u8).collect();
    assert_eq!(s.io_layer.signbus_io_send(&mut s.port_layer, 0x21, false, &msg, 300), ReturnCode::Success);
    let free = s.port_layer.free_buffers();
    let (_, buffer, _) = master_writes(s.port_layer.take_requests()).pop().unwrap();
    assert_eq!(s.i2c_master_command_complete(buffer, I2cError::CommandComplete), None);
    assert_eq!(s.port_layer.free_buffers(), free);
    let reqs = s.port_layer.take_requests();
    assert_eq!(reqs.len(), 2);
    assert!(matches!(reqs[1], HwRequest::SlaveListen));
    let (address, buffer, len) = master_writes(reqs).pop().unwrap();
    assert_eq!(address, 0x21);
    assert_eq!(len as usize, 12 + 57);
    let p = unserialize_packet(&buffer[..len as usize]);
    assert_eq!(p.header.fragment_offset, 243);
    assert_eq!(p.header.src, 0x32);
    assert_eq!(&buffer[12..len as usize], &msg[243..]);
    assert_eq!(s.i2c_master_command_complete(buffer, I2cError::CommandComplete), Some(Error::CommandComplete));
    assert_eq!(s.port_layer.free_buffers(), free + 1);
}

#[test]
fn write_expected_lends_a_buffer_through_the_stack() {
    let mut s = stack(false);
    s.i2c_write_expected();
    assert_eq!(s.port_layer.free_buffers(), 1);
    assert!(matches!(s.port_layer.take_requests().as_slice(), [HwRequest::SlaveWriteReceive { len: 255, .. }]));
    s.i2c_write_expected();
    s.i2c_write_expected();
    assert_eq!(s.port_layer.free_buffers(), 0);
    assert_eq!(s.port_layer.take_requests().len(), 1);
}
