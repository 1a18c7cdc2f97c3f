use ping_fox::Ipv4Addr;
use ping_fox::OnReceive;
use ping_fox::OnSend;
use ping_fox::PingSession;
use ping_fox::SocketMock;

#[test]
fn engine_carries_its_configuration() {
    let socket = SocketMock::new(OnSend::ReturnDefault, OnReceive::ReturnWouldBlock);
    let session = PingSession::new(socket, vec![Ipv4Addr::new(127, 0, 0, 1)], 3, 250_000_000, 16);
    assert_eq!(session.interval(), 250_000_000);
    assert_eq!(session.channel_size(), 16);
}

#[test]
fn engine_yields_one_success_per_reflected_reply() {
    let socket = SocketMock::new(OnSend::ReturnDefault, OnReceive::ReturnDefault(3));
    let addrs = vec![Ipv4Addr::new(127, 0, 0, 1), Ipv4Addr::new(127, 0, 0, 2)];
    let mut session = PingSession::new(socket, addrs, 2, 1_000_000_000, 8);

    // 2 rounds x 2 addresses = 4 sends, but only 3 scripted replies
    let first = session.next_output().unwrap();
    assert!(first.is_success());
    assert!(session.next_output().unwrap().is_success());
    assert!(session.next_output().unwrap().is_success());
    assert!(session.next_output().is_err());
}

#[test]
fn engine_reports_closed_queue_when_nothing_can_arrive() {
    let socket = SocketMock::new(OnSend::ReturnDefault, OnReceive::ReturnWouldBlock);
    let mut session = PingSession::new(socket, vec![Ipv4Addr::new(127, 0, 0, 1)], 2, 1, 8);
    let err = session.next_output().unwrap_err();
    assert_eq!(
        err.message,
        "output channel closed: every expected ping output has been consumed"
    );
}
