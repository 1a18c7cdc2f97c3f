use ping_fox::Ipv4Addr;
use ping_fox::PingDataBuffer;
use ping_fox::PingOutput;
use ping_fox::PingReceiveRecord;
use ping_fox::PingSendRecord;
use ping_fox::SequenceNumber;

fn send_record(addr: Ipv4Addr, seq: u16, send_time: u64) -> PingSendRecord {
    PingSendRecord {
        payload_size: 56,
        ip_addr: addr,
        sequence_number: SequenceNumber::from(seq),
        send_time,
    }
}

fn receive_record(addr: Ipv4Addr, seq: u16, receive_time: u64) -> PingReceiveRecord {
    PingReceiveRecord {
        payload_size: 64,
        ip_addr: addr,
        sequence_number: SequenceNumber::from(seq),
        receive_time,
    }
}

#[test]
fn matching_pair_emits_exactly_one_output_with_duration() {
    let addr = Ipv4Addr::new(127, 0, 0, 1);
    let mut buffer = PingDataBuffer::new();
    let mut send_q = vec![send_record(addr, 3, 100)];
    let mut receive_q = vec![receive_record(addr, 3, 250)];
    let mut outputs: Vec<PingOutput> = Vec::new();

    buffer.update(&mut send_q, &mut receive_q, &mut outputs);

    assert_eq!(outputs.len(), 1);
    assert_eq!(
        outputs[0],
        PingOutput::Success {
            payload_size: 56,
            ip_addr: addr,
            sequence_number: SequenceNumber::from(3),
            ping_duration: 150,
        }
    );
    assert_eq!(buffer.pending_count(), 0);
    assert!(send_q.is_empty());
    assert!(receive_q.is_empty());
}

#[test]
fn unmatched_receive_emits_nothing_and_does_not_fail() {
    let addr = Ipv4Addr::new(127, 0, 0, 1);
    let mut buffer = PingDataBuffer::new();
    let mut send_q: Vec<PingSendRecord> = Vec::new();
    let mut receive_q = vec![receive_record(addr, 9, 250)];
    let mut outputs: Vec<PingOutput> = Vec::new();

    buffer.update(&mut send_q, &mut receive_q, &mut outputs);

    assert_eq!(outputs.len(), 0);
    assert_eq!(buffer.pending_count(), 0);
}

#[test]
fn receive_with_wrong_key_leaves_send_record_pending() {
    let addr = Ipv4Addr::new(127, 0, 0, 1);
    let other = Ipv4Addr::new(127, 0, 0, 2);
    let mut buffer = PingDataBuffer::new();
    let mut send_q = vec![send_record(addr, 1, 10)];
    let mut receive_q = vec![receive_record(other, 1, 20), receive_record(addr, 2, 30)];
    let mut outputs: Vec<PingOutput> = Vec::new();

    buffer.update(&mut send_q, &mut receive_q, &mut outputs);

    // neither receive shares both address and sequence number
    assert_eq!(outputs.len(), 0);
    assert_eq!(buffer.pending_count(), 1);

    // the pending record is still matched by a later receive
    let mut send_q2: Vec<PingSendRecord> = Vec::new();
    let mut receive_q2 = vec![receive_record(addr, 1, 40)];
    buffer.update(&mut send_q2, &mut receive_q2, &mut outputs);
    assert_eq!(outputs.len(), 1);
    assert_eq!(buffer.pending_count(), 0);
}

#[test]
fn duplicate_receive_for_matched_key_is_dropped() {
    let addr = Ipv4Addr::new(127, 0, 0, 1);
    let mut buffer = PingDataBuffer::new();
    let mut send_q = vec![send_record(addr, 5, 100)];
    let mut receive_q = vec![receive_record(addr, 5, 200), receive_record(addr, 5, 300)];
    let mut outputs: Vec<PingOutput> = Vec::new();

    buffer.update(&mut send_q, &mut receive_q, &mut outputs);

    assert_eq!(outputs.len(), 1);
    assert_eq!(
        outputs[0],
        PingOutput::Success {
            payload_size: 56,
            ip_addr: addr,
            sequence_number: SequenceNumber::from(5),
            ping_duration: 100,
        }
    );
    assert_eq!(buffer.pending_count(), 0);
}

#[test]
fn outputs_follow_receive_arrival_order() {
    let addr = Ipv4Addr::new(127, 0, 0, 1);
    let mut buffer = PingDataBuffer::new();
    let mut send_q = vec![send_record(addr, 1, 10), send_record(addr, 2, 20)];
    // replies arrive out of send order
    let mut receive_q = vec![receive_record(addr, 2, 50), receive_record(addr, 1, 60)];
    let mut outputs: Vec<PingOutput> = Vec::new();

    buffer.update(&mut send_q, &mut receive_q, &mut outputs);

    assert_eq!(outputs.len(), 2);
    match &outputs[0] {
        PingOutput::Success { sequence_number, ping_duration, .. } => {
            assert_eq!(*sequence_number, SequenceNumber::from(2));
            assert_eq!(*ping_duration, 30);
        }
        PingOutput::Failure { .. } => panic!("expected success"),
    }
    match &outputs[1] {
        PingOutput::Success { sequence_number, ping_duration, .. } => {
            assert_eq!(*sequence_number, SequenceNumber::from(1));
            assert_eq!(*ping_duration, 50);
        }
        PingOutput::Failure { .. } => panic!("expected success"),
    }
}
