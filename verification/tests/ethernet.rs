use netproto::ethernet::{EtherType, EthernetAddress, EthernetKind, EthernetPacket};
use netproto::{parse, HeapTxPacket, Parse, ParseError, TxPacket, WriteOut};

fn frame(ether_type: [u8; 2], len: usize) -> Vec<u8> {
    let mut bytes = vec![0x02, 0x00, 0x00, 0x00, 0x00, 0x01];
    bytes.extend_from_slice(&[0x02, 0x00, 0x00, 0x00, 0x00, 0x02]);
    bytes.extend_from_slice(&ether_type);
    let mut next = 0u8;
    while bytes.len() < len {
        bytes.push(next);
        next = next.wrapping_add(1);
    }
    bytes.truncate(len);
    bytes
}

#[test]
fn frame_of_sixty_bytes_parses() {
    let bytes = frame([0x12, 0x34], 60);
    let packet: EthernetPacket<&[u8]> = EthernetPacket::parse(&bytes).unwrap();
    assert_eq!(packet.header.dst_addr, EthernetAddress::new([0x02, 0, 0, 0, 0, 0x01]));
    assert_eq!(packet.header.src_addr, EthernetAddress::new([0x02, 0, 0, 0, 0, 0x02]));
    assert_eq!(packet.header.ether_type, EtherType::Unknown(0x1234));
    assert_eq!(packet.payload, &bytes[14..]);
    assert_eq!(packet.payload.len(), 46);
}

#[test]
fn frame_of_fifty_nine_bytes_is_truncated() {
    let bytes = frame([0x08, 0x00], 59);
    let raw: Result<EthernetPacket<&[u8]>, ParseError> = EthernetPacket::parse(&bytes);
    assert_eq!(raw.err(), Some(ParseError::Truncated(59)));
    assert_eq!(parse(&bytes).err(), Some(ParseError::Truncated(59)));
    assert_eq!(parse(&[]).err(), Some(ParseError::Truncated(0)));
}

#[test]
fn frame_of_unknown_type_is_not_read_as_a_tree() {
    let bytes = frame([0x86, 0xdd], 64);
    assert!(matches!(parse(&bytes), Err(ParseError::Unimplemented(_))));
}

#[test]
fn ether_type_maps_to_its_number_and_back() {
    assert_eq!(EtherType::Ipv4.number(), 0x0800);
    assert_eq!(EtherType::Arp.number(), 0x0806);
    assert_eq!(EtherType::Unknown(0x88cc).number(), 0x88cc);
    assert_eq!(EtherType::from_number(0x0800), EtherType::Ipv4);
    assert_eq!(EtherType::from_number(0x0806), EtherType::Arp);
    assert_eq!(EtherType::from_number(0x88cc), EtherType::Unknown(0x88cc));
    for number in [0u16, 1, 0x07ff, 0x0800, 0x0801, 0x0806, 0xffff] {
        assert_eq!(EtherType::from_number(number).number(), number);
    }
}

#[test]
fn ethernet_addresses_are_made_from_bytes() {
    let address = EthernetAddress::from_bytes(&[1, 2, 3, 4, 5, 6]);
    assert_eq!(address.as_bytes(), [1, 2, 3, 4, 5, 6]);
    assert_eq!(address, EthernetAddress::new([1, 2, 3, 4, 5, 6]));
    assert_eq!(EthernetAddress::broadcast().as_bytes(), [0xff; 6]);
}

#[test]
fn address_text_is_hexadecimal_with_colons() {
    let address = EthernetAddress::new([0x00, 0x08, 0xdc, 0xab, 0xcd, 0xef]);
    assert_eq!(address.to_string(), "00:08:dc:ab:cd:ef");
    assert_eq!(EthernetAddress::broadcast().to_string(), "ff:ff:ff:ff:ff:ff");
}

#[test]
fn raw_frame_serializes_header_then_payload() {
    let payload = [0xde, 0xad, 0xbe, 0xef];
    let packet = EthernetPacket::new(
        EthernetAddress::new([1, 2, 3, 4, 5, 6]),
        EthernetAddress::new([7, 8, 9, 10, 11, 12]),
        EtherType::Unknown(0x88b5),
        &payload,
    );
    assert_eq!(packet.len(), 18);
    let tx = HeapTxPacket::write_out(packet).unwrap();
    assert_eq!(
        tx.as_slice(),
        &[7, 8, 9, 10, 11, 12, 1, 2, 3, 4, 5, 6, 0x88, 0xb5, 0xde, 0xad, 0xbe, 0xef]
    );
}

#[test]
fn parsed_frame_serializes_to_the_same_bytes() {
    let bytes = frame([0x08, 0x06], 73);
    let packet: EthernetPacket<&[u8]> = EthernetPacket::parse(&bytes).unwrap();
    let mut tx = HeapTxPacket::new(packet.len());
    packet.write_out(&mut tx).unwrap();
    assert_eq!(tx.as_slice(), &bytes[..]);
    assert_eq!(tx.len(), packet.len());
}

#[test]
fn serialized_frame_parses_to_its_fields() {
    let payload = vec![0x55u8; 50];
    let packet = EthernetPacket::new(
        EthernetAddress::new([1, 2, 3, 4, 5, 6]),
        EthernetAddress::broadcast(),
        EtherType::Ipv4,
        &payload,
    );
    let tx = HeapTxPacket::write_out(packet).unwrap();
    let parsed: EthernetPacket<&[u8]> = EthernetPacket::parse(tx.as_slice()).unwrap();
    assert_eq!(parsed.header.src_addr, EthernetAddress::new([1, 2, 3, 4, 5, 6]));
    assert_eq!(parsed.header.dst_addr, EthernetAddress::broadcast());
    assert_eq!(parsed.header.ether_type, EtherType::Ipv4);
    assert_eq!(parsed.payload, &payload[..]);
}

#[test]
fn tree_parse_reads_arp_under_ethernet() {
    let mut bytes = frame([0x08, 0x06], 60);
    bytes[14..22].copy_from_slice(&[0, 1, 8, 0, 6, 4, 0, 2]);
    let packet = parse(&bytes).unwrap();
    assert_eq!(packet.header.ether_type, EtherType::Arp);
    assert!(matches!(packet.payload, EthernetKind::Arp(_)));
}
