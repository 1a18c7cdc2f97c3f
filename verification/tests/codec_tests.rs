use ping_fox::icmpv4::compute_icmp_checksum;
use ping_fox::icmpv4::parse_echo_reply;
use ping_fox::icmpv4::PAYLOAD_SIZE;
use ping_fox::IcmpV4;
use ping_fox::Ipv4Addr;
use ping_fox::OnReceive;
use ping_fox::OnSend;
use ping_fox::SequenceNumber;
use ping_fox::SocketMock;

#[test]
fn test_send_one_ping() {
    let mut socket_mock = SocketMock::new(OnSend::ReturnDefault, OnReceive::ReturnWouldBlock);
    let icmpv4 = IcmpV4::create();

    let addr = Ipv4Addr::new(127, 0, 0, 1);
    let sequence_number = SequenceNumber::from(1);
    let result = icmpv4.send_one_ping(&mut socket_mock, addr, sequence_number);

    assert!(result.is_ok());
    assert!(socket_mock.should_send_number_of_messages(1));
    assert!(socket_mock.should_send_to_address(addr));
}

#[test]
fn icmpv4_test_send_one_ping() {
    let mut socket_mock = SocketMock::new(OnSend::ReturnDefault, OnReceive::ReturnWouldBlock);
    let icmpv4 = IcmpV4::create();

    let addr = Ipv4Addr::new(127, 0, 0, 1);
    let sequence_number = SequenceNumber::from(1);
    let result = icmpv4.send_one_ping(&mut socket_mock, addr, sequence_number);

    assert!(result.is_ok());
    assert!(socket_mock.should_send_number_of_messages(1));
    assert!(socket_mock.should_send_to_address(addr));
}

#[test]
fn test_try_receive() {
    let mut socket_mock = SocketMock::new(OnSend::ReturnDefault, OnReceive::ReturnDefault(1));

    let result = IcmpV4::try_receive(&mut socket_mock);

    assert!(result.is_ok());
    assert!(result.as_ref().unwrap().is_some());
    let (n, addr, _sn, _receive_time) = result.unwrap().unwrap();
    assert!(n >= pnet_packet::icmp::echo_reply::EchoReplyPacket::minimum_packet_size());
    assert!(addr == Ipv4Addr::new(127, 0, 0, 1));
    assert!(socket_mock.should_receive_number_of_messages(1));
}

#[test]
fn built_request_has_expected_layout() {
    let icmpv4 = IcmpV4::create();
    let bytes = icmpv4.new_icmpv4_package(SequenceNumber::from(0x1234));

    assert_eq!(bytes.len(), 8 + PAYLOAD_SIZE);
    assert_eq!(bytes[0], 8); // echo request type
    assert_eq!(bytes[1], 0); // code
    assert_eq!(bytes[4], 0); // identifier, always 0
    assert_eq!(bytes[5], 0);
    assert_eq!(bytes[6], 0x12);
    assert_eq!(bytes[7], 0x34);
}

#[test]
fn recomputing_checksum_over_built_request_yields_zero() {
    let icmpv4 = IcmpV4::create();
    let bytes = icmpv4.new_icmpv4_package(SequenceNumber::from(77));
    assert_eq!(compute_icmp_checksum(&bytes), 0);

    let reply = ping_fox::icmpv4::build_echo_reply(SequenceNumber::from(78), &vec![1, 2, 3]);
    assert_eq!(compute_icmp_checksum(&reply), 0);
}

#[test]
fn checksum_matches_independent_implementation() {
    let icmpv4 = IcmpV4::create();
    let bytes = icmpv4.new_icmpv4_package(SequenceNumber::from(4242));

    let packet = pnet_packet::icmp::IcmpPacket::new(&bytes).unwrap();
    let independent = pnet_packet::icmp::checksum(&packet);
    let embedded = (bytes[2] as u16) * 256 + bytes[3] as u16;
    assert_eq!(independent, embedded);

    let request = pnet_packet::icmp::echo_request::EchoRequestPacket::new(&bytes).unwrap();
    assert_eq!(request.get_sequence_number(), 4242);
    assert_eq!(request.get_identifier(), 0);
}

#[test]
fn checksum_of_known_bytes() {
    // one word 0x0800: the checksum is its complement
    assert_eq!(compute_icmp_checksum(&vec![0x08, 0x00, 0x00, 0x00]), 0xF7FF);
    // an odd trailing byte is padded with a zero low byte
    assert_eq!(compute_icmp_checksum(&vec![0x08]), 0xF7FF);
    // carries fold end-around: 0xFFFF + 0x0001 -> 0x0001, complement 0xFFFE
    assert_eq!(compute_icmp_checksum(&vec![0xFF, 0xFF, 0x00, 0x01]), 0xFFFE);
    assert_eq!(compute_icmp_checksum(&vec![]), 0xFFFF);
}

#[test]
fn codec_round_trip_recovers_sequence_number() {
    let payload = vec![0xAB; 16];
    let reply = ping_fox::icmpv4::build_echo_reply(SequenceNumber::from(0xBEEF), &payload);
    let (payload_size, sn) = parse_echo_reply(&reply);
    assert_eq!(sn, SequenceNumber::from(0xBEEF));
    assert_eq!(payload_size, 16);

    let empty: Vec<u8> = Vec::new();
    let reply = ping_fox::icmpv4::build_echo_reply(SequenceNumber::from(0), &empty);
    let (payload_size, sn) = parse_echo_reply(&reply);
    assert_eq!(sn, SequenceNumber::from(0));
    assert_eq!(payload_size, 0);
}

#[test]
fn sequence_number_wraps() {
    assert_eq!(SequenceNumber::from(0xFFFF).next(), SequenceNumber::from(0));
    assert_eq!(SequenceNumber::start_value().next(), SequenceNumber::from(1));
}
