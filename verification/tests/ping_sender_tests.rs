use ping_fox::IcmpV4;
use ping_fox::Ipv4Addr;
use ping_fox::OnReceive;
use ping_fox::OnSend;
use ping_fox::PingSendRecord;
use ping_fox::PingSender;
use ping_fox::SequenceNumber;
use ping_fox::SocketMock;

#[test]
fn send_ping_packages_success() {
    let mut socket = SocketMock::new(OnSend::ReturnDefault, OnReceive::ReturnDefault(2));
    let icmpv4 = IcmpV4::create();
    let ping_sender = PingSender::new(icmpv4, Vec::new());

    let localhost = Ipv4Addr::new(127, 0, 0, 1);
    let ping_sent_record_1 = ping_sender.send_one(&mut socket, localhost, SequenceNumber::from(1));
    let ping_sent_record_2 = ping_sender.send_one(&mut socket, localhost, SequenceNumber::from(2));

    assert!(ping_sent_record_1.is_ok());
    let PingSendRecord { payload_size: _, ip_addr, sequence_number, send_time: _ } =
        ping_sent_record_1.unwrap();
    assert!(localhost == ip_addr);
    assert!(sequence_number == SequenceNumber::from(1));

    assert!(ping_sent_record_2.is_ok());
    let PingSendRecord { payload_size: _, ip_addr, sequence_number, send_time: _ } =
        ping_sent_record_2.unwrap();
    assert!(localhost == ip_addr);
    assert!(sequence_number == SequenceNumber::from(2));
}

#[test]
fn when_socket_fails_then_ping_sender_fails() {
    let mut socket = SocketMock::new(OnSend::ReturnErr, OnReceive::ReturnWouldBlock);
    let icmpv4 = IcmpV4::create();
    let ping_sender = PingSender::new(icmpv4, Vec::new());

    let localhost = Ipv4Addr::new(127, 0, 0, 1);
    let send_result = ping_sender.send_one(&mut socket, localhost, SequenceNumber::start_value());

    assert!(send_result.is_err());
    assert!(socket.should_send_number_of_messages(0));
}

#[test]
fn rounds_produce_count_times_addresses_records() {
    let mut socket = SocketMock::new(OnSend::ReturnDefault, OnReceive::ReturnWouldBlock);
    let icmpv4 = IcmpV4::create();
    let addr_a = Ipv4Addr::new(127, 0, 0, 1);
    let addr_b = Ipv4Addr::new(127, 0, 0, 2);
    let mut sender = PingSender::new(icmpv4, vec![addr_a, addr_b]);

    let mut records: Vec<PingSendRecord> = Vec::new();
    for _round in 0..3 {
        let tokens = sender
            .send_ping_to_each_address(&mut socket, &mut records)
            .unwrap();
        assert_eq!(tokens.len(), 2);
    }

    // exactly rounds x |addresses| records
    assert_eq!(records.len(), 6);
    // constant sequence number within a round, advancing by one across rounds
    let expected: Vec<(u16, Ipv4Addr)> = vec![
        (0, addr_a),
        (0, addr_b),
        (1, addr_a),
        (1, addr_b),
        (2, addr_a),
        (2, addr_b),
    ];
    for (record, (seq, addr)) in records.iter().zip(expected.iter()) {
        assert_eq!(record.sequence_number, SequenceNumber::from(*seq));
        assert_eq!(record.ip_addr, *addr);
        assert_eq!(record.payload_size, 56);
    }
}

#[test]
fn failing_transport_aborts_round_after_first_address() {
    let mut socket = SocketMock::new(OnSend::ReturnErr, OnReceive::ReturnWouldBlock);
    let icmpv4 = IcmpV4::create();
    let addrs = vec![
        Ipv4Addr::new(127, 0, 0, 1),
        Ipv4Addr::new(127, 0, 0, 2),
        Ipv4Addr::new(127, 0, 0, 3),
    ];
    let mut sender = PingSender::new(icmpv4, addrs);

    let mut records: Vec<PingSendRecord> = Vec::new();
    let result = sender.send_ping_to_each_address(&mut socket, &mut records);

    // the first attempted address already fails: the round is aborted and no
    // record exists for it or for the remaining addresses
    assert!(result.is_err());
    assert_eq!(records.len(), 0);
    assert!(socket.should_send_number_of_messages(0));
}
