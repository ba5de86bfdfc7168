use netproto::dhcp::{new_discover_msg, new_request_msg, DhcpPacket, DhcpType};
use netproto::ethernet::EthernetAddress;
use netproto::ipv4::Ipv4Address;
use netproto::{HeapTxPacket, WriteOut};

const MAC: [u8; 6] = [0x00, 0x08, 0xdc, 0xab, 0xcd, 0xef];

/// The bytes of a client message: the fixed part for the given transaction,
/// then the options.
fn client_message(transaction_id: [u8; 4], options: &[u8]) -> Vec<u8> {
    let mut bytes = vec![0x01, 0x01, 0x06, 0x00];
    bytes.extend_from_slice(&transaction_id);
    bytes.extend_from_slice(&[0x00, 0x00, 0x80, 0x00]);
    bytes.resize(28, 0x00);
    bytes.extend_from_slice(&MAC);
    bytes.resize(236, 0x00);
    bytes.extend_from_slice(&[0x63, 0x82, 0x53, 0x63]);
    bytes.extend_from_slice(options);
    bytes
}

const DISCOVER_OPTIONS: [u8; 10] = [0x35, 0x01, 0x01, 0x37, 0x04, 0x01, 0x03, 0x0f, 0x06, 0xff];

#[test]
fn test_discover() {
    let discover = DhcpPacket {
        mac: EthernetAddress::new(MAC),
        transaction_id: 0xcafebabe,
        operation: DhcpType::Discover,
    };

    let mut packet = HeapTxPacket::new(discover.len());
    discover.write_out(&mut packet).unwrap();

    let data = packet.as_slice();
    let reference_data = client_message([0xca, 0xfe, 0xba, 0xbe], &DISCOVER_OPTIONS);

    assert_eq!(reference_data.len(), 250);
    assert_eq!(data.len(), reference_data.len());
    for i in 0..data.len() {
        assert_eq!(data[i], reference_data[i], "{}", i);
    }
}

#[test]
fn test_request() {
    let request = DhcpPacket {
        mac: EthernetAddress::new(MAC),
        transaction_id: 0xcafebabe,
        operation: DhcpType::Request {
            ip: Ipv4Address::new(141, 52, 46, 201),
            dhcp_server_ip: Ipv4Address::new(141, 52, 46, 13),
        },
    };

    let mut packet = HeapTxPacket::new(request.len());
    request.write_out(&mut packet).unwrap();

    let data = packet.as_slice();
    let reference_data = client_message(
        [0xca, 0xfe, 0xba, 0xbe],
        &[
            0x35, 0x01, 0x03, 0x32, 0x04, 0x8d, 0x34, 0x2e, 0xc9, 0x36, 0x04, 0x8d, 0x34, 0x2e,
            0x0d, 0xff,
        ],
    );

    assert_eq!(reference_data.len(), 256);
    assert_eq!(data.len(), reference_data.len());
    for i in 0..data.len() {
        assert_eq!(data[i], reference_data[i], "{}", i);
    }
}

#[test]
fn test_discover_packet() {
    let discover = new_discover_msg(EthernetAddress::new(MAC));
    let mut packet = HeapTxPacket::new(discover.len());
    discover.write_out(&mut packet).unwrap();

    let data = packet.as_slice();
    let mut reference_data = vec![0xff, 0xff, 0xff, 0xff, 0xff, 0xff];
    reference_data.extend_from_slice(&MAC);
    reference_data.extend_from_slice(&[0x08, 0x00]);
    reference_data.extend_from_slice(&[
        0x45, 0x00, 0x01, 0x16, 0x00, 0x00, 0x40, 0x00, 0x40, 0x11, 0x39, 0xd8, 0x00, 0x00, 0x00,
        0x00, 0xff, 0xff, 0xff, 0xff,
    ]);
    reference_data.extend_from_slice(&[0x00, 0x44, 0x00, 0x43, 0x01, 0x02, 0x67, 0xe5]);
    reference_data.extend_from_slice(&client_message([0x12, 0x34, 0x56, 0x78], &DISCOVER_OPTIONS));

    assert_eq!(reference_data.len(), 292);
    assert_eq!(data.len(), reference_data.len());
    for i in 0..data.len() {
        assert_eq!(data[i], reference_data[i], "{}", i);
    }
}

#[test]
fn request_message_is_a_client_broadcast() {
    let request = new_request_msg(
        EthernetAddress::new(MAC),
        Ipv4Address::new(141, 52, 46, 201),
        Ipv4Address::new(141, 52, 46, 13),
    );
    assert_eq!(request.header.src_addr, EthernetAddress::new(MAC));
    assert_eq!(request.header.dst_addr, EthernetAddress::broadcast());
    assert_eq!(request.payload.header.src_addr, Ipv4Address::new(0, 0, 0, 0));
    assert_eq!(request.payload.header.dst_addr, Ipv4Address::new(255, 255, 255, 255));
    assert_eq!(request.payload.payload.header.src_port, 68);
    assert_eq!(request.payload.payload.header.dst_port, 67);
    assert_eq!(request.payload.payload.payload.transaction_id, 0x12345678);
    assert_eq!(request.len(), 14 + 20 + 8 + 256);
}
