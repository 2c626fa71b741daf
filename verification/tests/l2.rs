use packet_codec::l2::{EthHdr, EthType};
use packet_codec::ParseOps;

#[test]
fn test_write_header() {
    assert_eq!(
        EthHdr {
            mac_src: vec![1, 2, 3, 4, 5, 6],
            mac_dest: vec![7, 8, 9, 10, 11, 12],
            eth_type: EthType::IPv4,
        }
        .to_bytes()
        .unwrap(),
        vec![1, 2, 3, 4, 5, 6, 7, 8, 9, 10, 11, 12, 0x08, 0x00]
    )
}

#[test]
fn test_parse_header() {
    let s = &[1, 2, 3, 4, 5, 6, 7, 8, 9, 10, 11, 12, 0x08, 0x00, 15, 16, 17];
    assert_eq!(
        EthHdr {
            mac_src: vec![1, 2, 3, 4, 5, 6],
            mac_dest: vec![7, 8, 9, 10, 11, 12],
            eth_type: EthType::IPv4,
        },
        EthHdr::from_bytes(s).unwrap()
    )
}

#[test]
fn test_strip_header() {
    let s = &[1, 2, 3, 4, 5, 6, 7, 8, 9, 10, 11, 12, 13, 14, 15, 16, 17];
    assert_eq!(EthHdr::strip_header(s).unwrap(), vec![15, 16, 17])
}
