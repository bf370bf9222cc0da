use signbus::support::{
    htons, serialize_packet, unserialize_packet, Packet, SignbusNetworkFlags,
    SignbusNetworkHeader, HEADER_SIZE, I2C_MAX_DATA_LEN, I2C_MAX_LEN,
};

fn header(is_fragment: bool, src: u8, seq: u16, length: u16, offset: u16) -> SignbusNetworkHeader {
    SignbusNetworkHeader {
        flags: SignbusNetworkFlags {
            is_fragment,
            is_encrypted: false,
            rsv_wire_bit5: false,
            rsv_wire_bit4: false,
            version: 1,
        },
        src,
        sequence_number: seq,
        length,
        fragment_offset: offset,
    }
}

fn packet(h: SignbusNetworkHeader, fill: impl Fn(usize) -> u8) -> Packet {
    Packet { header: h, data: (0..I2C_MAX_DATA_LEN).map(fill).collect() }
}

#[test]
fn htons_swaps_bytes() {
    assert_eq!(htons(0x1234), 0x3412);
    assert_eq!(htons(0x00ff), 0xff00);
    assert_eq!(htons(0), 0);
    assert_eq!(htons(htons(0xabcd)), 0xabcd);
}

#[test]
fn serialize_writes_big_endian_header_and_payload() {
    let mut h = header(true, 0x32, 0x0102, 0x0304, 0x0506);
    h.flags.is_encrypted = true;
    h.flags.rsv_wire_bit5 = true;
    let p = packet(h, |i| (i as u8).wrapping_add(7));
    let mut buf = vec![0xeeu8; I2C_MAX_LEN];
    serialize_packet(&p, 5, &mut buf);
    assert_eq!(&buf[0..12], &[1, 1, 0, 0, 1, 0x32, 0x01, 0x02, 0x03, 0x04, 0x05, 0x06]);
    assert_eq!(&buf[12..17], &[7, 8, 9, 10, 11]);
    assert!(buf[17..].iter().all(|b| *b == 0xee));
    assert_eq!(buf.len(), I2C_MAX_LEN);
}

#[test]
fn unserialize_terminal_packet_copies_remainder() {
    let mut buf = vec![0u8; I2C_MAX_LEN];
    buf[0..12].copy_from_slice(&[0, 1, 1, 1, 1, 0x21, 0x00, 0x09, 0x00, 20, 0x00, 0x00]);
    for i in 12..I2C_MAX_LEN {
        buf[i] = 0x55;
    }
    let p = unserialize_packet(&buf);
    assert!(!p.header.flags.is_fragment);
    assert!(p.header.flags.is_encrypted);
    assert!(!p.header.flags.rsv_wire_bit5);
    assert!(!p.header.flags.rsv_wire_bit4);
    assert_eq!(p.header.flags.version, 1);
    assert_eq!(p.header.src, 0x21);
    assert_eq!(p.header.sequence_number, 9);
    assert_eq!(p.header.length, 20);
    assert_eq!(p.header.fragment_offset, 0);
    assert_eq!(p.data.len(), I2C_MAX_DATA_LEN);
    assert!(p.data[..8].iter().all(|b| *b == 0x55));
    assert!(p.data[8..].iter().all(|b| *b == 0));
}

#[test]
fn unserialize_fragment_copies_full_payload() {
    let mut buf = vec![0x11u8; I2C_MAX_LEN];
    buf[0..12].copy_from_slice(&[1, 0, 0, 0, 1, 0x20, 0x01, 0x00, 0x01, 0xf4, 0x00, 0xf3]);
    let p = unserialize_packet(&buf);
    assert!(p.header.flags.is_fragment);
    assert_eq!(p.header.sequence_number, 256);
    assert_eq!(p.header.length, 500);
    assert_eq!(p.header.fragment_offset, 243);
    assert!(p.data.iter().all(|b| *b == 0x11));
}

#[test]
fn unserialize_malformed_lengths_are_cut() {
    // length shorter than header plus offset: nothing copied
    let mut buf = vec![0x77u8; I2C_MAX_LEN];
    buf[0..12].copy_from_slice(&[0, 0, 0, 0, 1, 0x20, 0, 1, 0, 5, 0, 0]);
    let p = unserialize_packet(&buf);
    assert!(p.data.iter().all(|b| *b == 0));
    // a short buffer gives only the bytes it holds
    let mut short = vec![0x33u8; HEADER_SIZE + 4];
    short[0..12].copy_from_slice(&[0, 0, 0, 0, 1, 0x20, 0, 1, 0, 100, 0, 0]);
    let q = unserialize_packet(&short);
    assert!(q.data[..4].iter().all(|b| *b == 0x33));
    assert!(q.data[4..].iter().all(|b| *b == 0));
    // a payload length beyond one packet is held at the capacity
    let mut long = vec![0x44u8; I2C_MAX_LEN];
    long[0..12].copy_from_slice(&[0, 0, 0, 0, 1, 0x20, 0, 1, 0x03, 0x00, 0, 0]);
    let r = unserialize_packet(&long);
    assert!(r.data.iter().all(|b| *b == 0x44));
}

#[test]
fn codec_round_trip_terminal_and_fragment() {
    let cases = [
        header(false, 0x10, 7, 12 + 100, 0),
        header(false, 0x7f, 0xffff, 12 + 500, 486),
        header(true, 0x22, 0x8001, 12 + 1000, 243),
        header(false, 0, 0, 12, 0),
    ];
    for h in cases {
        let p = packet(h, |i| (i * 3) as u8);
        let n = if h.flags.is_fragment {
            I2C_MAX_DATA_LEN
        } else {
            (h.length - 12 - h.fragment_offset) as usize
        };
        let mut buf = vec![0xa5u8; I2C_MAX_LEN];
        serialize_packet(&p, n, &mut buf);
        let q = unserialize_packet(&buf);
        assert_eq!(q.header, h);
        assert_eq!(&q.data[..n], &p.data[..n]);
    }
}
