use packet_codec::l2::{EthHdr, EthType};
use packet_codec::l3::IPv4Hdr;
use packet_codec::packet_writer::PacketWriter;
use packet_codec::{ConvError, ParseOps};

fn sample_ip_header(hdr_length: u8, options: Vec<u8>) -> IPv4Hdr {
    IPv4Hdr {
        version: 4,
        hdr_length,
        dscp: 11,
        ecn: 2,
        pk_length: 300,
        ident: 7,
        do_not_fragment: true,
        more_packets: false,
        packet_offset: 99,
        ttl: 64,
        proto: 6,
        checksum: 0x1234,
        source_ip: 0x0a000001,
        dest_ip: 0xc0a80101,
        options,
    }
}

#[test]
fn eth_round_trip() {
    let h = EthHdr {
        mac_src: vec![0xaa, 0xbb, 0xcc, 0xdd, 0xee, 0xff],
        mac_dest: vec![1, 0, 0, 0, 0, 2],
        eth_type: EthType::IPv4,
    };
    let bytes = EthHdr {
        mac_src: h.mac_src.clone(),
        mac_dest: h.mac_dest.clone(),
        eth_type: h.eth_type,
    }
    .to_bytes()
    .unwrap();
    assert_eq!(bytes.len(), 14);
    assert_eq!(EthHdr::from_bytes(&bytes).unwrap(), h);
}

#[test]
fn ip_round_trip_with_options() {
    let bytes = sample_ip_header(6, vec![9, 8, 7, 6]).to_bytes().unwrap();
    assert_eq!(bytes.len(), 24);
    assert_eq!(
        IPv4Hdr::from_bytes(&bytes).unwrap(),
        sample_ip_header(6, vec![9, 8, 7, 6])
    );
}

#[test]
fn ip_round_trip_minimum_header() {
    let bytes = sample_ip_header(5, Vec::new()).to_bytes().unwrap();
    assert_eq!(bytes.len(), 20);
    let decoded = IPv4Hdr::from_bytes(&bytes).unwrap();
    assert_eq!(decoded, sample_ip_header(5, Vec::new()));
    assert_eq!(decoded.options, Vec::<u8>::new());
}

#[test]
fn ip_bit_field_packing_fidelity() {
    let h = IPv4Hdr {
        version: 4,
        hdr_length: 5,
        dscp: 0x3f,
        ecn: 0x3,
        pk_length: 20,
        ident: 0,
        do_not_fragment: true,
        more_packets: false,
        packet_offset: 0x1fff,
        ttl: 1,
        proto: 17,
        checksum: 0,
        source_ip: 0,
        dest_ip: 0,
        options: Vec::new(),
    };
    let bytes = h.to_bytes().unwrap();
    let d = IPv4Hdr::from_bytes(&bytes).unwrap();
    assert_eq!(d.dscp, 0x3f);
    assert_eq!(d.ecn, 0x3);
    assert_eq!(d.do_not_fragment, true);
    assert_eq!(d.more_packets, false);
    assert_eq!(d.packet_offset, 0x1fff);
}

#[test]
fn eth_scenario_decode_and_strip() {
    let s = &[1, 2, 3, 4, 5, 6, 7, 8, 9, 10, 11, 12, 0x08, 0x00, 15, 16, 17];
    let h = EthHdr::from_bytes(s).unwrap();
    assert_eq!(h.mac_src, vec![1, 2, 3, 4, 5, 6]);
    assert_eq!(h.mac_dest, vec![7, 8, 9, 10, 11, 12]);
    assert_eq!(h.eth_type, EthType::IPv4);
    assert_eq!(EthHdr::strip_header(s).unwrap(), vec![15, 16, 17]);
}

#[test]
fn ip_scenario_decode_and_strip() {
    let s = &[
        0x46, 0, 0, 0, 0, 1, 0x20, 2, 30, 1, 0xab, 0xcd, 0xde, 0xad, 0xbe, 0xef, 0xbe, 0xef,
        0xde, 0xad, 0, 0, 0, 0,
    ];
    let h = IPv4Hdr::from_bytes(s).unwrap();
    assert_eq!(h.version, 4);
    assert_eq!(h.hdr_length, 6);
    assert_eq!(h.dscp, 0);
    assert_eq!(h.ecn, 0);
    assert_eq!(h.ttl, 30);
    assert_eq!(h.proto, 1);
    assert_eq!(h.checksum, 0xabcd);
    assert_eq!(h.source_ip, 0xdeadbeef);
    assert_eq!(h.dest_ip, 0xbeefdead);
    assert_eq!(h.options, vec![0, 0, 0, 0]);
    let mut with_payload = s.to_vec();
    with_payload.extend_from_slice(&[1, 2, 3, 4, 5, 6, 7, 8]);
    assert_eq!(
        IPv4Hdr::strip_header(&with_payload).unwrap(),
        vec![1, 2, 3, 4, 5, 6, 7, 8]
    );
}

#[test]
fn eth_unsupported_type_value() {
    let s = &[1, 2, 3, 4, 5, 6, 7, 8, 9, 10, 11, 12, 0x08, 0x06];
    assert_eq!(
        EthHdr::from_bytes(s).unwrap_err(),
        ConvError::UnsupportedValue
    );
}

#[test]
fn eth_length_floor() {
    let s = &[1, 2, 3, 4, 5, 6, 7, 8, 9, 10, 11, 12, 0x08];
    assert_eq!(
        EthHdr::from_bytes(s).unwrap_err(),
        ConvError::InsufficientLength
    );
    assert_eq!(
        EthHdr::strip_header(s).unwrap_err(),
        ConvError::InsufficientLength
    );
    assert_eq!(
        EthHdr::from_bytes(&[]).unwrap_err(),
        ConvError::InsufficientLength
    );
}

#[test]
fn ip_length_floor() {
    let s = &[
        0x45, 0, 0, 0, 0, 1, 0, 0, 30, 1, 0xab, 0xcd, 0xde, 0xad, 0xbe, 0xef, 0xbe, 0xef, 0xde,
    ];
    assert_eq!(
        IPv4Hdr::from_bytes(s).unwrap_err(),
        ConvError::InsufficientLength
    );
    assert_eq!(
        IPv4Hdr::strip_header(s).unwrap_err(),
        ConvError::InsufficientLength
    );
}

#[test]
fn ip_header_length_below_five_is_malformed() {
    let mut s = vec![0x44];
    s.extend_from_slice(&[0; 19]);
    assert_eq!(
        IPv4Hdr::from_bytes(&s).unwrap_err(),
        ConvError::MalformedHeader
    );
    assert_eq!(
        IPv4Hdr::strip_header(&s).unwrap_err(),
        ConvError::MalformedHeader
    );
}

#[test]
fn ip_options_exceeding_buffer() {
    let mut s = vec![0x4f];
    s.extend_from_slice(&[0; 19]);
    assert_eq!(
        IPv4Hdr::from_bytes(&s).unwrap_err(),
        ConvError::MalformedHeader
    );
    assert_eq!(
        IPv4Hdr::strip_header(&s).unwrap_err(),
        ConvError::InsufficientLength
    );
}

#[test]
fn ip_options_length_follows_header_length() {
    for hdr_length in 5u8..=15u8 {
        let expected_len = (hdr_length as usize) * 4 - 20;
        let h = sample_ip_header(hdr_length, vec![0xa5; expected_len]);
        let bytes = h.to_bytes().unwrap();
        assert_eq!(bytes.len(), (hdr_length as usize) * 4);
        let d = IPv4Hdr::from_bytes(&bytes).unwrap();
        assert_eq!(d.options.len(), expected_len);
    }
}

#[test]
fn eth_type_closed_set_conversions() {
    assert_eq!(EthType::from_raw(0x0800).unwrap(), EthType::IPv4);
    assert_eq!(
        EthType::from_raw(0x0806).unwrap_err(),
        ConvError::UnsupportedValue
    );
    assert_eq!(
        EthType::from_raw(0).unwrap_err(),
        ConvError::UnsupportedValue
    );
    assert_eq!(EthType::IPv4.as_raw(), 0x0800);
}

#[test]
fn writer_is_big_endian_and_order_preserving() {
    let mut pw = PacketWriter::new();
    pw.write_u8(0x01).unwrap();
    pw.write_u16(0x0203).unwrap();
    pw.write_u32(0x04050607).unwrap();
    pw.write_bytes(&[8, 9]).unwrap();
    assert_eq!(pw.get_result(), vec![1, 2, 3, 4, 5, 6, 7, 8, 9]);
}

#[test]
fn error_descriptions() {
    assert_eq!(
        ConvError::InsufficientLength.description(),
        "buffer too short for header"
    );
    assert_eq!(ConvError::MalformedHeader.description(), "malformed header");
    assert_eq!(
        ConvError::UnsupportedValue.description(),
        "unsupported enumeration value"
    );
}
