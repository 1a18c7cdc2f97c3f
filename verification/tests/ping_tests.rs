use ping_fox::ping::State;
use ping_fox::Ipv4Addr;
use ping_fox::OnReceive;
use ping_fox::OnSend;
use ping_fox::PingOutput;
use ping_fox::PingRs;
use ping_fox::SequenceNumber;
use ping_fox::SocketMock;

const ONE_SECOND: u64 = 1_000_000_000;

#[test]
fn ping_localhost_succeed() {
    let channel_size = 8;
    let ips = vec![Ipv4Addr::new(127, 0, 0, 1)];
    let count = 1;
    let socket = SocketMock::new(OnSend::ReturnDefault, OnReceive::ReturnDefault(1));

    let mut ping = PingRs::new(channel_size);

    ping.run(socket, ips, count, ONE_SECOND).unwrap();
    let output = ping.next_ping_output();
    println!("output received: {:?}", output);
    let halt_result = ping.halt();

    assert!(output.is_ok());
    assert!(halt_result.is_ok());
}

#[test]
fn entity_states_are_correct() {
    let channel_size = 8;
    let ips = vec![Ipv4Addr::new(127, 0, 0, 1)];
    let count = 1;
    let socket = SocketMock::new(OnSend::ReturnDefault, OnReceive::ReturnDefault(1));

    let mut ping = PingRs::new(channel_size);
    assert!(vec![State::New] == ping.get_states());
    ping.run(socket, ips, count, ONE_SECOND).unwrap();
    assert!(vec![State::New, State::Running] == ping.get_states());
    ping.halt().unwrap();
    assert!(vec![State::New, State::Running, State::Halted] == ping.get_states());
}

#[test]
fn calling_start_after_halt_is_ignored() {
    let channel_size = 8;
    let ips = vec![Ipv4Addr::new(127, 0, 0, 1)];
    let count = 1;
    let socket = SocketMock::new(OnSend::ReturnDefault, OnReceive::ReturnDefault(1));

    let mut ping = PingRs::new(channel_size);
    ping.halt().unwrap();
    let run_result = ping.run(socket, ips, count, ONE_SECOND);

    assert!(run_result.is_err());
    assert!(vec![State::New, State::Halted] == ping.get_states());
}

#[test]
fn calling_start_a_second_time_is_ignored() {
    let channel_size = 8;
    let ips_127_0_0_1 = vec![Ipv4Addr::new(127, 0, 0, 1)];
    let ips_254_254_254_254 = vec![Ipv4Addr::new(254, 254, 254, 254)];
    let count = 1;
    let socket_1 = SocketMock::new(OnSend::ReturnDefault, OnReceive::ReturnDefault(1));
    let socket_2 = SocketMock::new(OnSend::ReturnDefault, OnReceive::ReturnDefault(1));

    let mut ping = PingRs::new(channel_size);
    let run_result_1 = ping.run(socket_1, ips_127_0_0_1, count, ONE_SECOND);
    let run_result_2 = ping.run(socket_2, ips_254_254_254_254, count, ONE_SECOND);

    assert!(run_result_1.is_ok());
    assert!(run_result_2.is_err());
    assert!(vec![State::New, State::Running] == ping.get_states());

    ping.halt().unwrap();
}

#[test]
fn halt_is_idempotent() {
    let socket = SocketMock::new(OnSend::ReturnDefault, OnReceive::ReturnDefault(1));
    let mut ping = PingRs::new(4);
    ping.run(socket, vec![Ipv4Addr::new(127, 0, 0, 1)], 1, ONE_SECOND)
        .unwrap();
    assert!(ping.halt().is_ok());
    assert!(ping.halt().is_ok());
    assert!(vec![State::New, State::Running, State::Halted] == ping.get_states());
}

#[test]
fn next_ping_output_requires_running() {
    let mut ping = PingRs::<SocketMock>::new(4);
    let result = ping.next_ping_output();
    assert!(result.is_err());
    assert_eq!(
        result.unwrap_err().message,
        "cannot next_ping_output() when PingRunner is not in state Running"
    );
    ping.halt().unwrap();
}

#[test]
fn two_canned_replies_yield_two_outputs_then_halt() {
    // transport scripted to return 2 canned replies and then "would block";
    // a session for localhost with count = 2 yields exactly 2 successful
    // outputs with increasing-or-equal sequence numbers, then halts cleanly
    let socket = SocketMock::new(OnSend::ReturnDefault, OnReceive::ReturnDefault(2));
    let mut ping = PingRs::new(8);
    ping.run(socket, vec![Ipv4Addr::new(127, 0, 0, 1)], 2, ONE_SECOND)
        .unwrap();

    let first = ping.next_ping_output().unwrap();
    let second = ping.next_ping_output().unwrap();
    let seq_of = |output: &PingOutput| match output {
        PingOutput::Success { sequence_number, .. } => *sequence_number,
        PingOutput::Failure { .. } => panic!("expected success"),
    };
    let s1 = seq_of(&first);
    let s2 = seq_of(&second);
    assert_eq!(s1, SequenceNumber::from(0));
    assert!(s2.0 >= s1.0);

    // all expected outputs are consumed: the output queue is closed
    assert!(ping.next_ping_output().is_err());
    assert!(ping.halt().is_ok());
}

#[test]
fn failing_transport_closes_output_channel() {
    let socket = SocketMock::new(OnSend::ReturnErr, OnReceive::ReturnWouldBlock);
    let mut ping = PingRs::new(8);
    ping.run(socket, vec![Ipv4Addr::new(127, 0, 0, 1)], 3, ONE_SECOND)
        .unwrap();
    // every send fails: no output can ever arrive
    assert!(ping.next_ping_output().is_err());
    ping.halt().unwrap();
}

#[test]
fn empty_address_list_yields_zero_outputs() {
    let socket = SocketMock::new(OnSend::ReturnDefault, OnReceive::ReturnDefault(2));
    let mut ping = PingRs::new(8);
    ping.run(socket, Vec::new(), 5, ONE_SECOND).unwrap();
    assert!(ping.next_ping_output().is_err());
    ping.halt().unwrap();
}

#[test]
fn zero_rounds_yield_zero_outputs() {
    let socket = SocketMock::new(OnSend::ReturnDefault, OnReceive::ReturnDefault(2));
    let mut ping = PingRs::new(8);
    ping.run(socket, vec![Ipv4Addr::new(127, 0, 0, 1)], 0, ONE_SECOND)
        .unwrap();
    assert!(ping.next_ping_output().is_err());
    ping.halt().unwrap();
}

#[test]
fn run_error_carries_state_message() {
    let socket = SocketMock::new(OnSend::ReturnDefault, OnReceive::ReturnDefault(1));
    let mut ping = PingRs::new(8);
    ping.halt().unwrap();
    let err = ping
        .run(socket, vec![Ipv4Addr::new(127, 0, 0, 1)], 1, ONE_SECOND)
        .unwrap_err();
    assert_eq!(err.message, "cannot run() PingRunner when it is not in state New");
}
